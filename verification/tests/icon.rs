use dalhin::bytes::{u16le, u32le};
use dalhin::icon::{
    build_standalone_ico, extract_icon, find_first_leaf, first_matching_entry, main_icon_ico_bytes,
    parse_group_icon_dir, parse_pe_headers, pick_best, rva_to_file_offset, GroupIconEntry,
    ResourceEntry, Section, RT_GROUP_ICON, RT_ICON,
};

fn put16(b: &mut [u8], at: usize, v: u16) {
    b[at..at + 2].copy_from_slice(&v.to_le_bytes());
}

fn put32(b: &mut [u8], at: usize, v: u32) {
    b[at..at + 4].copy_from_slice(&v.to_le_bytes());
}

/// A 1x1 32-bit icon image in BMP (DIB) form: header, one BGRA pixel, and
/// one row of the AND mask.
fn dib_1x1() -> Vec<u8> {
    let mut d = vec![0u8; 48];
    put32(&mut d, 0, 40);
    put32(&mut d, 4, 1);
    put32(&mut d, 8, 2);
    put16(&mut d, 12, 1);
    put16(&mut d, 14, 32);
    d[40..44].copy_from_slice(&[0x10, 0x20, 0x30, 0xff]);
    d
}

/// A minimal PE32 executable with one section holding a resource directory
/// with one icon (id 1) and one icon group pointing to it.
fn tiny_exe() -> Vec<u8> {
    let mut b = vec![0u8; 0x300];
    b[0] = b'M';
    b[1] = b'Z';
    put32(&mut b, 0x3c, 0x40);
    b[0x40..0x44].copy_from_slice(b"PE\0\0");
    put16(&mut b, 0x44 + 2, 1);
    put16(&mut b, 0x44 + 16, 0xe0);
    put16(&mut b, 0x58, 0x10b);
    put32(&mut b, 0x58 + 96 + 16, 0x1000);
    let sec = 0x58 + 0xe0;
    put32(&mut b, sec + 8, 0x100);
    put32(&mut b, sec + 12, 0x1000);
    put32(&mut b, sec + 16, 0x100);
    put32(&mut b, sec + 20, 0x200);
    let r = 0x200;
    // root: two id entries
    put16(&mut b, r + 14, 2);
    put32(&mut b, r + 16, 3);
    put32(&mut b, r + 20, 0x8000_0000 | 0x20);
    put32(&mut b, r + 24, 14);
    put32(&mut b, r + 28, 0x8000_0000 | 0x60);
    // RT_ICON: name 1 -> language dir
    put16(&mut b, r + 0x20 + 14, 1);
    put32(&mut b, r + 0x20 + 16, 1);
    put32(&mut b, r + 0x20 + 20, 0x8000_0000 | 0x38);
    put16(&mut b, r + 0x38 + 14, 1);
    put32(&mut b, r + 0x38 + 16, 0x409);
    put32(&mut b, r + 0x38 + 20, 0x50);
    put32(&mut b, r + 0x50, 0x1000 + 0xa0);
    put32(&mut b, r + 0x54, 48);
    // RT_GROUP_ICON: name 1 -> language dir
    put16(&mut b, r + 0x60 + 14, 1);
    put32(&mut b, r + 0x60 + 16, 1);
    put32(&mut b, r + 0x60 + 20, 0x8000_0000 | 0x78);
    put16(&mut b, r + 0x78 + 14, 1);
    put32(&mut b, r + 0x78 + 16, 0x409);
    put32(&mut b, r + 0x78 + 20, 0x90);
    put32(&mut b, r + 0x90, 0x1000 + 0xd0);
    put32(&mut b, r + 0x94, 20);
    // icon image
    b[r + 0xa0..r + 0xd0].copy_from_slice(&dib_1x1());
    // icon group: one entry of 1x1, 32 bits, id 1
    let g = r + 0xd0;
    put16(&mut b, g + 2, 1);
    put16(&mut b, g + 4, 1);
    b[g + 6] = 1;
    b[g + 7] = 1;
    put16(&mut b, g + 10, 1);
    put16(&mut b, g + 12, 32);
    put32(&mut b, g + 14, 48);
    put16(&mut b, g + 18, 1);
    b
}

#[test]
fn little_endian_fields() {
    let b = [0x34, 0x12, 0x78, 0x56];
    assert_eq!(u16le(&b, 0), Some(0x1234));
    assert_eq!(u32le(&b, 0), Some(0x5678_1234));
    assert_eq!(u16le(&b, 3), None);
    assert_eq!(u32le(&b, 1), None);
    assert_eq!(u32le(&b, u64::MAX), None);
}

#[test]
fn rva_through_first_containing_section() {
    let secs = [
        Section { virtual_address: 0x1000, virtual_size: 0x100, size_of_raw_data: 0x200, pointer_to_raw_data: 0x400 },
        Section { virtual_address: 0x1000, virtual_size: 0x1000, size_of_raw_data: 0, pointer_to_raw_data: 0x9000 },
    ];
    assert_eq!(rva_to_file_offset(&secs, 0x1010), Some(0x410));
    assert_eq!(rva_to_file_offset(&secs, 0x11ff), Some(0x5ff));
    assert_eq!(rva_to_file_offset(&secs, 0x1200), Some(0x9200));
    assert_eq!(rva_to_file_offset(&secs, 0x2000), None);
    assert_eq!(rva_to_file_offset(&secs, 0x10), None);
}

#[test]
fn headers_of_tiny_exe() {
    let exe = tiny_exe();
    let pe = parse_pe_headers(&exe).unwrap();
    assert_eq!(pe.resource_dir_rva, 0x1000);
    assert_eq!(pe.sections.len(), 1);
    assert_eq!(pe.sections[0].pointer_to_raw_data, 0x200);
}

#[test]
fn headers_reject_bad_signatures() {
    let mut exe = tiny_exe();
    exe[0] = b'X';
    assert!(parse_pe_headers(&exe).is_none());
    let mut exe = tiny_exe();
    exe[0x41] = b'X';
    assert!(parse_pe_headers(&exe).is_none());
    let mut exe = tiny_exe();
    put16(&mut exe, 0x58, 0x107);
    assert!(parse_pe_headers(&exe).is_none());
    let mut exe = tiny_exe();
    put32(&mut exe, 0x58 + 96 + 16, 0);
    assert!(parse_pe_headers(&exe).is_none());
    assert!(parse_pe_headers(b"MZ").is_none());
    assert!(parse_pe_headers(&[]).is_none());
}

#[test]
fn pe32_plus_data_directories() {
    let mut exe = tiny_exe();
    put16(&mut exe, 0x58, 0x20b);
    put32(&mut exe, 0x58 + 112 + 16, 0x1000);
    assert_eq!(parse_pe_headers(&exe).unwrap().resource_dir_rva, 0x1000);
}

#[test]
fn resource_directory_walk() {
    let exe = tiny_exe();
    let pe = parse_pe_headers(&exe).unwrap();
    assert_eq!(first_matching_entry(&exe, &pe, 0x200, Some(RT_GROUP_ICON)), Some(ResourceEntry::Directory(0x260)));
    assert_eq!(first_matching_entry(&exe, &pe, 0x200, Some(RT_ICON)), Some(ResourceEntry::Directory(0x220)));
    assert_eq!(first_matching_entry(&exe, &pe, 0x200, None), Some(ResourceEntry::Directory(0x220)));
    assert_eq!(first_matching_entry(&exe, &pe, 0x200, Some(5)), None);
    assert_eq!(first_matching_entry(&exe, &pe, 0x238, None), Some(ResourceEntry::Data(0x250)));
    let group = find_first_leaf(&exe, &pe, 0x200, RT_GROUP_ICON, None).unwrap();
    assert_eq!(group.len(), 20);
    assert_eq!(find_first_leaf(&exe, &pe, 0x200, RT_ICON, Some(1)).unwrap(), &dib_1x1()[..]);
    assert!(find_first_leaf(&exe, &pe, 0x200, RT_ICON, Some(2)).is_none());
}

#[test]
fn group_directory_entries() {
    let exe = tiny_exe();
    let entries = parse_group_icon_dir(&exe[0x2d0..0x2e4]).unwrap();
    assert_eq!(entries.len(), 1);
    assert_eq!(entries[0].width, 1);
    assert_eq!(entries[0].bit_count, 32);
    assert_eq!(entries[0].bytes_in_res, 48);
    assert_eq!(entries[0].id, 1);
    assert!(parse_group_icon_dir(&exe[0x2d0..0x2e0]).is_none());
}

fn entry(width: u8, height: u8, id: u16) -> GroupIconEntry {
    GroupIconEntry { width, height, color_count: 0, planes: 1, bit_count: 32, bytes_in_res: 0, id }
}

#[test]
fn best_is_largest_with_zero_as_256_and_last_on_ties() {
    let v = [entry(16, 16, 1), entry(0, 0, 2), entry(48, 48, 3)];
    assert_eq!(pick_best(&v).unwrap().id, 2);
    let v = [entry(32, 32, 1), entry(32, 32, 2), entry(16, 16, 3)];
    assert_eq!(pick_best(&v).unwrap().id, 2);
    assert!(pick_best(&[]).is_none());
}

#[test]
fn standalone_ico_layout() {
    let e = GroupIconEntry { width: 16, height: 32, color_count: 4, planes: 1, bit_count: 8, bytes_in_res: 999, id: 7 };
    let ico = build_standalone_ico(&e, &[0xaa, 0xbb, 0xcc]);
    assert_eq!(
        ico,
        vec![0, 0, 1, 0, 1, 0, 16, 32, 4, 0, 1, 0, 8, 0, 3, 0, 0, 0, 22, 0, 0, 0, 0xaa, 0xbb, 0xcc]
    );
}

#[test]
fn main_icon_of_tiny_exe() {
    let exe = tiny_exe();
    let ico = main_icon_ico_bytes(&exe).unwrap();
    assert_eq!(ico.len(), 22 + 48);
    assert_eq!(&ico[22..], &dib_1x1()[..]);
    assert_eq!(&ico[0..6], &[0, 0, 1, 0, 1, 0]);
}

#[test]
fn icon_decodes_to_rgba() {
    let img = extract_icon(&tiny_exe()).unwrap();
    assert_eq!((img.width, img.height), (1, 1));
    assert_eq!(img.rgba, vec![0x30, 0x20, 0x10, 0xff]);
}

#[test]
fn executables_without_icons_give_none() {
    let mut exe = tiny_exe();
    put32(&mut exe, 0x200 + 24, 15);
    assert!(main_icon_ico_bytes(&exe).is_none());
    assert!(extract_icon(&exe).is_none());
    assert!(extract_icon(b"not an exe").is_none());
}

#[test]
fn undecodable_image_gives_none() {
    let mut exe = tiny_exe();
    for k in 0..48 {
        exe[0x2a0 + k] = 0xff;
    }
    assert!(main_icon_ico_bytes(&exe).is_some());
    assert!(extract_icon(&exe).is_none());
}
