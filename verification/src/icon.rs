//! The icon embedded in a Windows executable (PE format): the headers and
//! section table, the resource directory, the icon group, and a standalone
//! `.ico` file rebuilt from the largest image. Every step gives up (`None`)
//! on anything unexpected, and the caller then shows a fallback avatar.

use vstd::prelude::*;
use crate::bytes::{le16, le16_bytes, le32, le32_bytes, push_le16, push_le32, u16le, u32le};

verus! {

/// Resource type of a single icon image.
pub const RT_ICON: u32 = 3;

/// Resource type of an icon group.
pub const RT_GROUP_ICON: u32 = 14;

/// One entry of the section table.
#[derive(Debug, Clone, Copy, PartialEq, Eq, Structural)]
pub struct Section {
    pub virtual_address: u32,
    pub virtual_size: u32,
    pub size_of_raw_data: u32,
    pub pointer_to_raw_data: u32,
}

/// The file offset of `rva` when it falls inside the section.
pub open spec fn section_offset(s: Section, rva: u32) -> Option<int> {
    let span = if s.virtual_size >= s.size_of_raw_data { s.virtual_size } else { s.size_of_raw_data };
    if s.virtual_address <= rva && rva < s.virtual_address + span {
        Some(s.pointer_to_raw_data + (rva - s.virtual_address))
    } else {
        None
    }
}

/// The file offset of a relative virtual address: through the first
/// section that contains it.
pub open spec fn rva_offset(sections: Seq<Section>, rva: u32) -> Option<int>
    decreases sections.len(),
{
    if sections.len() == 0 {
        None
    } else {
        match section_offset(sections[0], rva) {
            Some(o) => Some(o),
            None => rva_offset(sections.drop_first(), rva),
        }
    }
}

/// Turns a relative virtual address (as in the loaded image) into an offset
/// in the file, through the first section that contains it.
pub fn rva_to_file_offset(sections: &[Section], rva: u32) -> (r: Option<u64>)
    ensures
        r matches Some(o) ==> rva_offset(sections@, rva) == Some(o as int),
        r is None <==> rva_offset(sections@, rva) is None,
{
    let mut i: usize = 0;
    assert(sections@.skip(0) =~= sections@);
    while i < sections.len()
        invariant
            i <= sections.len(),
            rva_offset(sections@, rva) == rva_offset(sections@.skip(i as int), rva),
        decreases sections.len() - i,
    {
        let s = sections[i];
        assert(sections@.skip(i as int)[0] == s);
        assert(sections@.skip(i as int).drop_first() =~= sections@.skip(i + 1));
        let span: u32 = if s.virtual_size >= s.size_of_raw_data { s.virtual_size } else { s.size_of_raw_data };
        if rva >= s.virtual_address && (rva as u64) < (s.virtual_address as u64) + (span as u64) {
            let off: u64 = (s.pointer_to_raw_data as u64) + ((rva - s.virtual_address) as u64);
            return Some(off);
        }
        i = i + 1;
    }
    assert(sections@.skip(i as int) =~= Seq::<Section>::empty());
    None
}

/// What the headers of an executable give: its sections and where its
/// resource directory is.
#[derive(Debug)]
pub struct PeInfo {
    pub sections: Vec<Section>,
    pub resource_dir_rva: u32,
}

/// The contents of `PeInfo`.
pub ghost struct PeView {
    pub sections: Seq<Section>,
    pub resource_dir_rva: u32,
}

impl View for PeInfo {
    type V = PeView;

    open spec fn view(&self) -> PeView {
        PeView { sections: self.sections@, resource_dir_rva: self.resource_dir_rva }
    }
}

/// The section table entry at `base`.
pub open spec fn section_at(b: Seq<u8>, base: int) -> Option<Section> {
    match (le32(b, base + 8), le32(b, base + 12), le32(b, base + 16), le32(b, base + 20)) {
        (Some(vs), Some(va), Some(raw), Some(ptr)) => Some(
            Section {
                virtual_address: va,
                virtual_size: vs,
                size_of_raw_data: raw,
                pointer_to_raw_data: ptr,
            },
        ),
        _ => None,
    }
}

/// The first `n` entries of the section table at `table`, 40 bytes each;
/// `None` when one of them runs past the end of the file.
pub open spec fn sections_from(b: Seq<u8>, table: int, n: nat) -> Option<Seq<Section>>
    decreases n,
{
    if n == 0 {
        Some(Seq::empty())
    } else {
        match sections_from(b, table, (n - 1) as nat) {
            Some(prev) => match section_at(b, table + (n - 1) * 40) {
                Some(s) => Some(prev.push(s)),
                None => None,
            },
            None => None,
        }
    }
}

/// Where the data directories start for an optional header with this
/// magic number: PE32 (0x10b) or PE32+ (0x20b).
pub open spec fn data_dir_start(optional_header: int, magic: u16) -> Option<int> {
    if magic == 0x10b {
        Some(optional_header + 96)
    } else if magic == 0x20b {
        Some(optional_header + 112)
    } else {
        None
    }
}

/// The headers' result once the section table has been read.
pub open spec fn pe_with_sections(secs: Option<Seq<Section>>, res: u32) -> Option<PeView> {
    match secs {
        None => None,
        Some(secs) => Some(PeView { sections: secs, resource_dir_rva: res }),
    }
}

/// The section table and resource directory of an executable, read from
/// its DOS, PE, COFF and optional headers; `None` when a signature is
/// wrong, a field lies past the end, the optional header is of an unknown
/// kind, or there are no resources.
pub open spec fn pe_headers(b: Seq<u8>) -> Option<PeView> {
    if !(b.len() >= 2 && b[0] == 0x4d && b[1] == 0x5a) {
        None
    } else {
        match le32(b, 0x3c) {
            None => None,
            Some(pe) => {
                let pe = pe as int;
                if !(pe + 4 <= b.len() && b[pe] == 0x50 && b[pe + 1] == 0x45 && b[pe + 2] == 0
                    && b[pe + 3] == 0) {
                    None
                } else {
                    let coff = pe + 4;
                    match (le16(b, coff + 2), le16(b, coff + 16)) {
                        (Some(n), Some(opt_size)) => {
                            let opt = coff + 20;
                            match le16(b, opt) {
                                None => None,
                                Some(magic) => match data_dir_start(opt, magic) {
                                    None => None,
                                    Some(dd) => match le32(b, dd + 16) {
                                        None => None,
                                        Some(res) => if res == 0 {
                                            None
                                        } else {
                                            pe_with_sections(sections_from(b, opt + opt_size, n as nat), res)
                                        },
                                    },
                                },
                            }
                        },
                        _ => None,
                    }
                }
            },
        }
    }
}

/// Reads the DOS, PE, COFF and optional headers of an executable: its
/// section table and where its resource directory is (data directory 2).
pub fn parse_pe_headers(bytes: &[u8]) -> (r: Option<PeInfo>)
    ensures
        r matches Some(info) ==> pe_headers(bytes@) == Some(info@),
        r is None <==> pe_headers(bytes@) is None,
{
    if bytes.len() < 2 || bytes[0] != 0x4d || bytes[1] != 0x5a {
        return None;
    }
    let pe_offset = match u32le(bytes, 0x3c) {
        Some(v) => v as u64,
        None => return None,
    };
    if pe_offset > bytes.len() as u64 || (bytes.len() as u64) - pe_offset < 4 {
        return None;
    }
    let p = pe_offset as usize;
    if bytes[p] != 0x50 || bytes[p + 1] != 0x45 || bytes[p + 2] != 0 || bytes[p + 3] != 0 {
        return None;
    }
    let coff = pe_offset + 4;
    let number_of_sections = match u16le(bytes, coff + 2) {
        Some(v) => v as u64,
        None => return None,
    };
    let size_of_optional_header = match u16le(bytes, coff + 16) {
        Some(v) => v as u64,
        None => return None,
    };
    let optional_header = coff + 20;
    let magic = match u16le(bytes, optional_header) {
        Some(v) => v,
        None => return None,
    };
    let data_dir_offset = if magic == 0x10b {
        optional_header + 96
    } else if magic == 0x20b {
        optional_header + 112
    } else {
        return None;
    };
    let resource_entry_offset = data_dir_offset + 2 * 8;
    let resource_dir_rva = match u32le(bytes, resource_entry_offset) {
        Some(v) => v,
        None => return None,
    };
    if resource_dir_rva == 0 {
        return None;
    }
    let section_table_offset = optional_header + size_of_optional_header;
    let mut sections: Vec<Section> = Vec::new();
    let mut i: u64 = 0;
    assert(pe_headers(bytes@) == pe_with_sections(
        sections_from(bytes@, section_table_offset as int, number_of_sections as nat),
        resource_dir_rva,
    ));
    while i < number_of_sections
        invariant
            pe_headers(bytes@) == pe_with_sections(
                sections_from(bytes@, section_table_offset as int, number_of_sections as nat),
                resource_dir_rva,
            ),
            i <= number_of_sections <= 0xffff,
            section_table_offset <= 0x1_0002_0000,
            sections_from(bytes@, section_table_offset as int, i as nat) == Some(sections@),
        decreases number_of_sections - i,
    {
        let base = section_table_offset + i * 40;
        let virtual_size = match u32le(bytes, base + 8) {
            Some(v) => v,
            None => {
                proof {
                    lemma_sections_fail(bytes@, section_table_offset as int, i as nat, number_of_sections as nat);
                }
                return None;
            },
        };
        let virtual_address = match u32le(bytes, base + 12) {
            Some(v) => v,
            None => {
                proof {
                    lemma_sections_fail(bytes@, section_table_offset as int, i as nat, number_of_sections as nat);
                }
                return None;
            },
        };
        let size_of_raw_data = match u32le(bytes, base + 16) {
            Some(v) => v,
            None => {
                proof {
                    lemma_sections_fail(bytes@, section_table_offset as int, i as nat, number_of_sections as nat);
                }
                return None;
            },
        };
        let pointer_to_raw_data = match u32le(bytes, base + 20) {
            Some(v) => v,
            None => {
                proof {
                    lemma_sections_fail(bytes@, section_table_offset as int, i as nat, number_of_sections as nat);
                }
                return None;
            },
        };
        sections.push(
            Section { virtual_address, virtual_size, size_of_raw_data, pointer_to_raw_data },
        );
        i = i + 1;
    }
    let info = PeInfo { sections, resource_dir_rva };
    Some(info)
}

/// When the entry at position `i` cannot be read, the first `n` entries
/// (for any `n > i`) cannot be read either.
proof fn lemma_sections_fail(b: Seq<u8>, table: int, i: nat, n: nat)
    requires
        i < n,
        sections_from(b, table, i) is Some,
        section_at(b, table + i * 40) is None,
    ensures
        sections_from(b, table, n) is None,
    decreases n,
{
    if n > i + 1 {
        lemma_sections_fail(b, table, i, (n - 1) as nat);
    }
}


/// An entry of a resource directory: another directory, or the data entry
/// of a resource; each at an offset in the file.
#[derive(Debug, Clone, Copy, PartialEq, Eq, Structural)]
pub enum ResourceEntry {
    Directory(u64),
    Data(u64),
}

/// Where an entry's offset field leads: its low 31 bits are relative to
/// the resource directory, its high bit tells a subdirectory from data.
pub open spec fn resolve_entry(pe: PeView, field: u32) -> Option<ResourceEntry> {
    let target = pe.resource_dir_rva + (field & 0x7fff_ffff);
    if target > u32::MAX {
        None
    } else {
        match rva_offset(pe.sections, target as u32) {
            None => None,
            Some(off) => if field & 0x8000_0000 != 0 {
                Some(ResourceEntry::Directory(off as u64))
            } else {
                Some(ResourceEntry::Data(off as u64))
            },
        }
    }
}

/// The first of the entries `i..total` (8 bytes each, from `base`) whose id
/// is `want` (any id when `want` is `None`); `None` when a field lies past
/// the end before one is found.
pub open spec fn entry_search(
    b: Seq<u8>,
    pe: PeView,
    base: int,
    i: nat,
    total: nat,
    want: Option<u32>,
) -> Option<ResourceEntry>
    decreases total - i,
{
    if i >= total {
        None
    } else {
        let eo = base + i * 8;
        match le32(b, eo) {
            None => None,
            Some(name_id) => if want matches Some(w) && (name_id & 0x7fff_ffff) != w {
                entry_search(b, pe, base, i + 1, total, want)
            } else {
                match le32(b, eo + 4) {
                    None => None,
                    Some(field) => resolve_entry(pe, field),
                }
            },
        }
    }
}

/// The first entry of the resource directory at `dir` with id `want` (or
/// the first of all), counting both its named and its id entries.
pub open spec fn directory_entry(b: Seq<u8>, pe: PeView, dir: int, want: Option<u32>) -> Option<ResourceEntry> {
    match (le16(b, dir + 12), le16(b, dir + 14)) {
        (Some(named), Some(ids)) => entry_search(b, pe, dir + 16, 0, (named + ids) as nat, want),
        _ => None,
    }
}

/// Offsets below this bound leave room for every field read after them.
pub open spec fn offset_in_range(o: u64) -> bool {
    o < 0x1_0000_0000_0000
}

/// Finds the first entry of the resource directory at `dir_file_offset`
/// whose id is `matches` (or the first entry when `matches` is `None`).
/// Offsets inside these structures are relative to the whole resource
/// directory, not to the start of the file.
pub fn first_matching_entry(
    bytes: &[u8],
    pe: &PeInfo,
    dir_file_offset: u64,
    matches: Option<u32>,
) -> (r: Option<ResourceEntry>)
    requires
        offset_in_range(dir_file_offset),
    ensures
        r == directory_entry(bytes@, pe@, dir_file_offset as int, matches),
        r matches Some(e) ==> match e {
            ResourceEntry::Directory(o) => offset_in_range(o),
            ResourceEntry::Data(o) => offset_in_range(o),
        },
{
    let named = match u16le(bytes, dir_file_offset + 12) {
        Some(v) => v as u64,
        None => return None,
    };
    let ids = match u16le(bytes, dir_file_offset + 14) {
        Some(v) => v as u64,
        None => return None,
    };
    let total = named + ids;
    let entries_base = dir_file_offset + 16;
    let mut i: u64 = 0;
    while i < total
        invariant
            offset_in_range(dir_file_offset),
            entries_base == dir_file_offset + 16,
            total <= 0x20000,
            i <= total,
            directory_entry(bytes@, pe@, dir_file_offset as int, matches) == entry_search(
                bytes@,
                pe@,
                entries_base as int,
                i as nat,
                total as nat,
                matches,
            ),
        decreases total - i,
    {
        let entry_offset = entries_base + i * 8;
        let name_id = match u32le(bytes, entry_offset) {
            Some(v) => v,
            None => return None,
        };
        let id = name_id & 0x7fff_ffff;
        let skip = match matches {
            Some(want) => id != want,
            None => false,
        };
        if !skip {
            let field = match u32le(bytes, entry_offset + 4) {
                Some(v) => v,
                None => return None,
            };
            let is_subdirectory = field & 0x8000_0000 != 0;
            let relative = field & 0x7fff_ffff;
            let target: u64 = (pe.resource_dir_rva as u64) + (relative as u64);
            if target > 0xffff_ffff {
                return None;
            }
            let off = match rva_to_file_offset(pe.sections.as_slice(), target as u32) {
                Some(o) => o,
                None => return None,
            };
            proof {
                lemma_rva_offset_bound(pe@.sections, target as u32);
            }
            return Some(
                if is_subdirectory {
                    ResourceEntry::Directory(off)
                } else {
                    ResourceEntry::Data(off)
                },
            );
        }
        i = i + 1;
    }
    None
}

/// File offsets found through the section table stay below 2^33.
pub proof fn lemma_rva_offset_bound(sections: Seq<Section>, rva: u32)
    ensures
        rva_offset(sections, rva) matches Some(o) ==> 0 <= o < 0x2_0000_0000,
    decreases sections.len(),
{
    if sections.len() > 0 {
        lemma_rva_offset_bound(sections.drop_first(), rva);
    }
}

/// The bytes of the resource whose data entry is at `entry`; `None` when
/// the entry or the data lie past the end.
pub open spec fn data_entry_bytes(b: Seq<u8>, pe: PeView, entry: int) -> Option<Seq<u8>> {
    match (le32(b, entry), le32(b, entry + 4)) {
        (Some(rva), Some(size)) => match rva_offset(pe.sections, rva) {
            None => None,
            Some(off) => if off + size <= b.len() {
                Some(b.subrange(off, off + size))
            } else {
                None
            },
        },
        _ => None,
    }
}

/// Given the file offset of a resource data entry, the raw bytes of the
/// resource it points to.
pub fn read_data_entry<'a>(bytes: &'a [u8], pe: &PeInfo, data_entry_offset: u64) -> (r: Option<&'a [u8]>)
    requires
        offset_in_range(data_entry_offset),
    ensures
        r matches Some(d) ==> data_entry_bytes(bytes@, pe@, data_entry_offset as int) == Some(d@),
        r is None <==> data_entry_bytes(bytes@, pe@, data_entry_offset as int) is None,
{
    let data_rva = match u32le(bytes, data_entry_offset) {
        Some(v) => v,
        None => return None,
    };
    let size = match u32le(bytes, data_entry_offset + 4) {
        Some(v) => v as u64,
        None => return None,
    };
    let file_offset = match rva_to_file_offset(pe.sections.as_slice(), data_rva) {
        Some(o) => o,
        None => return None,
    };
    proof {
        lemma_rva_offset_bound(pe@.sections, data_rva);
    }
    if file_offset + size > bytes.len() as u64 {
        return None;
    }
    let start = file_offset as usize;
    let end = (file_offset + size) as usize;
    let d = &bytes[start..end];
    Some(d)
}

/// The data of the first resource of type `resource_type` (and, when given,
/// name `name_id`), three directory levels down: type, name, language.
pub open spec fn first_leaf(
    b: Seq<u8>,
    pe: PeView,
    root: int,
    resource_type: u32,
    name_id: Option<u32>,
) -> Option<Seq<u8>> {
    match directory_entry(b, pe, root, Some(resource_type)) {
        Some(ResourceEntry::Directory(type_dir)) => match directory_entry(b, pe, type_dir as int, name_id) {
            Some(ResourceEntry::Directory(name_dir)) => match directory_entry(b, pe, name_dir as int, None) {
                Some(ResourceEntry::Data(leaf)) => data_entry_bytes(b, pe, leaf as int),
                _ => None,
            },
            _ => None,
        },
        _ => None,
    }
}

/// Walks down the three levels of the resource directory (type, name,
/// language) from its root to the first data leaf for `resource_type`,
/// with name `name_id` when one is given, and returns the resource's bytes.
pub fn find_first_leaf<'a>(
    bytes: &'a [u8],
    pe: &PeInfo,
    root_offset: u64,
    resource_type: u32,
    name_id: Option<u32>,
) -> (r: Option<&'a [u8]>)
    requires
        offset_in_range(root_offset),
    ensures
        r matches Some(d) ==> first_leaf(bytes@, pe@, root_offset as int, resource_type, name_id) == Some(d@),
        r is None <==> first_leaf(bytes@, pe@, root_offset as int, resource_type, name_id) is None,
{
    let type_dir = match first_matching_entry(bytes, pe, root_offset, Some(resource_type)) {
        Some(ResourceEntry::Directory(off)) => off,
        _ => return None,
    };
    let name_dir = match first_matching_entry(bytes, pe, type_dir, name_id) {
        Some(ResourceEntry::Directory(off)) => off,
        _ => return None,
    };
    let lang_leaf = match first_matching_entry(bytes, pe, name_dir, None) {
        Some(ResourceEntry::Data(off)) => off,
        _ => return None,
    };
    read_data_entry(bytes, pe, lang_leaf)
}


/// One entry of an icon group (`GRPICONDIRENTRY`): the image's size and
/// format, and the id of the `RT_ICON` resource that holds it.
#[derive(Debug, Clone, Copy, PartialEq, Eq, Structural)]
pub struct GroupIconEntry {
    pub width: u8,
    pub height: u8,
    pub color_count: u8,
    pub planes: u16,
    pub bit_count: u16,
    pub bytes_in_res: u32,
    pub id: u16,
}

/// The icon group entry at `base` (14 bytes).
pub open spec fn group_entry_at(b: Seq<u8>, base: int) -> Option<GroupIconEntry> {
    if 0 <= base && base + 3 <= b.len() {
        match (le16(b, base + 4), le16(b, base + 6), le32(b, base + 8), le16(b, base + 12)) {
            (Some(planes), Some(bit_count), Some(bytes_in_res), Some(id)) => Some(
                GroupIconEntry {
                    width: b[base],
                    height: b[base + 1],
                    color_count: b[base + 2],
                    planes,
                    bit_count,
                    bytes_in_res,
                    id,
                },
            ),
            _ => None,
        }
    } else {
        None
    }
}

/// The first `n` entries of an icon group; `None` when one of them runs
/// past the end.
pub open spec fn group_entries_from(b: Seq<u8>, n: nat) -> Option<Seq<GroupIconEntry>>
    decreases n,
{
    if n == 0 {
        Some(Seq::empty())
    } else {
        match group_entries_from(b, (n - 1) as nat) {
            Some(prev) => match group_entry_at(b, 6 + (n - 1) * 14) {
                Some(e) => Some(prev.push(e)),
                None => None,
            },
            None => None,
        }
    }
}

/// The entries of an icon group resource: a count at offset 4, then the
/// entries from offset 6.
pub open spec fn group_icon_dir(b: Seq<u8>) -> Option<Seq<GroupIconEntry>> {
    match le16(b, 4) {
        None => None,
        Some(count) => group_entries_from(b, count as nat),
    }
}

proof fn lemma_group_entries_fail(b: Seq<u8>, i: nat, n: nat)
    requires
        i < n,
        group_entries_from(b, i) is Some,
        group_entry_at(b, (6 + i * 14) as int) is None,
    ensures
        group_entries_from(b, n) is None,
    decreases n,
{
    if n > i + 1 {
        lemma_group_entries_fail(b, i, (n - 1) as nat);
    }
}

/// Reads the entries of an icon group resource (`RT_GROUP_ICON`).
pub fn parse_group_icon_dir(bytes: &[u8]) -> (r: Option<Vec<GroupIconEntry>>)
    ensures
        r matches Some(v) ==> group_icon_dir(bytes@) == Some(v@),
        r is None <==> group_icon_dir(bytes@) is None,
{
    let count = match u16le(bytes, 4) {
        Some(v) => v as u64,
        None => return None,
    };
    let mut out: Vec<GroupIconEntry> = Vec::new();
    let mut i: u64 = 0;
    while i < count
        invariant
            group_icon_dir(bytes@) == group_entries_from(bytes@, count as nat),
            i <= count <= 0xffff,
            group_entries_from(bytes@, i as nat) == Some(out@),
        decreases count - i,
    {
        let base = 6 + i * 14;
        let ghost at = group_entry_at(bytes@, base as int);
        if base + 3 > bytes.len() as u64 {
            proof {
                lemma_group_entries_fail(bytes@, i as nat, count as nat);
            }
            return None;
        }
        let b = base as usize;
        let width = bytes[b];
        let height = bytes[b + 1];
        let color_count = bytes[b + 2];
        let planes = match u16le(bytes, base + 4) {
            Some(v) => v,
            None => {
                proof {
                    lemma_group_entries_fail(bytes@, i as nat, count as nat);
                }
                return None;
            },
        };
        let bit_count = match u16le(bytes, base + 6) {
            Some(v) => v,
            None => {
                proof {
                    lemma_group_entries_fail(bytes@, i as nat, count as nat);
                }
                return None;
            },
        };
        let bytes_in_res = match u32le(bytes, base + 8) {
            Some(v) => v,
            None => {
                proof {
                    lemma_group_entries_fail(bytes@, i as nat, count as nat);
                }
                return None;
            },
        };
        let id = match u16le(bytes, base + 12) {
            Some(v) => v,
            None => {
                proof {
                    lemma_group_entries_fail(bytes@, i as nat, count as nat);
                }
                return None;
            },
        };
        out.push(GroupIconEntry { width, height, color_count, planes, bit_count, bytes_in_res, id });
        i = i + 1;
    }
    Some(out)
}

/// The side length in pixels that a size byte stands for: 0 means 256.
pub open spec fn dimension(v: u8) -> int {
    if v == 0 { 256 } else { v as int }
}

/// The number of pixels of an icon image.
pub open spec fn area(e: GroupIconEntry) -> int {
    dimension(e.width) * dimension(e.height)
}

/// `i` is the largest image of the group; among several of that size, the
/// last one (as `Iterator::max_by_key` picks).
pub open spec fn best_at(entries: Seq<GroupIconEntry>, i: int) -> bool {
    &&& 0 <= i < entries.len()
    &&& forall|j: int| 0 <= j < entries.len() ==> area(#[trigger] entries[j]) <= area(entries[i])
    &&& forall|j: int| i < j < entries.len() ==> area(#[trigger] entries[j]) < area(entries[i])
}

fn area_of(e: &GroupIconEntry) -> (r: u32)
    ensures
        r == area(*e),
{
    let w: u32 = if e.width == 0 { 256 } else { e.width as u32 };
    let h: u32 = if e.height == 0 { 256 } else { e.height as u32 };
    assert(w * h <= 65536) by (nonlinear_arith)
        requires
            w <= 256,
            h <= 256,
    ;
    w * h
}

/// Of all the resolutions in the icon group, the largest one (a size byte
/// of 0 means 256, as in the standard `.ico` format).
pub fn pick_best(entries: &[GroupIconEntry]) -> (r: Option<&GroupIconEntry>)
    ensures
        r is None <==> entries@.len() == 0,
        r matches Some(e) ==> exists|i: int| best_at(entries@, i) && entries@[i] == *e,
{
    if entries.len() == 0 {
        return None;
    }
    let mut best: usize = 0;
    let mut best_area = area_of(&entries[0]);
    let mut i: usize = 1;
    while i < entries.len()
        invariant
            entries@.len() > 0,
            1 <= i <= entries.len(),
            best < i,
            best_area == area(entries@[best as int]),
            forall|j: int| 0 <= j < i ==> area(#[trigger] entries@[j]) <= best_area,
            forall|j: int| best < j < i ==> area(#[trigger] entries@[j]) < best_area,
        decreases entries.len() - i,
    {
        let a = area_of(&entries[i]);
        if a >= best_area {
            best = i;
            best_area = a;
        }
        i = i + 1;
    }
    assert(best_at(entries@, best as int));
    Some(&entries[best])
}

/// A standalone `.ico` file holding one image: the 6-byte header, one
/// 16-byte directory entry, then the image data at offset 22.
pub open spec fn standalone_ico(e: GroupIconEntry, image: Seq<u8>) -> Seq<u8> {
    le16_bytes(0) + le16_bytes(1) + le16_bytes(1) + seq![e.width, e.height, e.color_count, 0u8]
        + le16_bytes(e.planes) + le16_bytes(e.bit_count) + le32_bytes(image.len() as u32)
        + le32_bytes(22) + image
}

/// Builds a valid standalone `.ico` file from a single image, so that an
/// `.ico` decoder can read it. The size field holds the real length of the
/// data.
pub fn build_standalone_ico(entry: &GroupIconEntry, image_data: &[u8]) -> (r: Vec<u8>)
    ensures
        r@ == standalone_ico(*entry, image_data@),
{
    let mut out: Vec<u8> = Vec::new();
    push_le16(&mut out, 0);
    push_le16(&mut out, 1);
    push_le16(&mut out, 1);
    out.push(entry.width);
    out.push(entry.height);
    out.push(entry.color_count);
    out.push(0);
    push_le16(&mut out, entry.planes);
    push_le16(&mut out, entry.bit_count);
    push_le32(&mut out, image_data.len() as u32);
    push_le32(&mut out, 22);
    let ghost head = out@;
    let mut i: usize = 0;
    while i < image_data.len()
        invariant
            i <= image_data.len(),
            out@ == head + image_data@.take(i as int),
        decreases image_data.len() - i,
    {
        out.push(image_data[i]);
        i = i + 1;
        assert(out@ =~= head + image_data@.take(i as int));
    }
    assert(image_data@.take(image_data.len() as int) =~= image_data@);
    assert(out@ =~= standalone_ico(*entry, image_data@));
    out
}


/// The `.ico` file for the main icon of an executable: the largest image
/// of its first icon group, rebuilt as a standalone file.
pub open spec fn main_icon_ico(b: Seq<u8>) -> Option<Seq<u8>> {
    match pe_headers(b) {
        None => None,
        Some(pe) => match rva_offset(pe.sections, pe.resource_dir_rva) {
            None => None,
            Some(root) => match first_leaf(b, pe, root, RT_GROUP_ICON, None) {
                None => None,
                Some(group) => match group_icon_dir(group) {
                    None => None,
                    Some(entries) => if entries.len() == 0 {
                        None
                    } else {
                        let best = entries[choose|i: int| best_at(entries, i)];
                        match first_leaf(b, pe, root, RT_ICON, Some(best.id as u32)) {
                            None => None,
                            Some(image) => Some(standalone_ico(best, image)),
                        }
                    },
                },
            },
        },
    }
}

/// Only one position is the largest image as `best_at` defines it.
proof fn lemma_best_unique(entries: Seq<GroupIconEntry>, i: int)
    requires
        best_at(entries, i),
    ensures
        (choose|k: int| best_at(entries, k)) == i,
{
    let k = choose|k: int| best_at(entries, k);
    assert(best_at(entries, k));
    if k < i {
        assert(area(entries[i]) < area(entries[k]));
        assert(area(entries[i]) <= area(entries[k]));
    } else if i < k {
        assert(area(entries[k]) < area(entries[i]));
    }
}

/// The standalone `.ico` file of the main icon of an executable, from its
/// bytes: the icon group gives the available sizes, the largest one is
/// looked up among the single icons, and its data is framed as an `.ico`.
pub fn main_icon_ico_bytes(bytes: &[u8]) -> (r: Option<Vec<u8>>)
    ensures
        r matches Some(v) ==> main_icon_ico(bytes@) == Some(v@),
        r is None <==> main_icon_ico(bytes@) is None,
{
    let pe = match parse_pe_headers(bytes) {
        Some(pe) => pe,
        None => return None,
    };
    let root_offset = match rva_to_file_offset(pe.sections.as_slice(), pe.resource_dir_rva) {
        Some(o) => o,
        None => return None,
    };
    proof {
        lemma_rva_offset_bound(pe@.sections, pe.resource_dir_rva);
    }
    let group_bytes = match find_first_leaf(bytes, &pe, root_offset, RT_GROUP_ICON, None) {
        Some(g) => g,
        None => return None,
    };
    let entries = match parse_group_icon_dir(group_bytes) {
        Some(e) => e,
        None => return None,
    };
    let best = match pick_best(entries.as_slice()) {
        Some(b) => b,
        None => return None,
    };
    proof {
        let i = choose|i: int| best_at(entries@, i) && entries@[i] == *best;
        lemma_best_unique(entries@, i);
    }
    let image_data = match find_first_leaf(bytes, &pe, root_offset, RT_ICON, Some(best.id as u32)) {
        Some(d) => d,
        None => return None,
    };
    Some(build_standalone_ico(best, image_data))
}

/// A decoded image: its size and its pixels as RGBA bytes, row by row.
#[derive(Debug)]
pub struct IconImage {
    pub width: u32,
    pub height: u32,
    pub rgba: Vec<u8>,
}

/// What the `image` crate decodes from the bytes of an `.ico` file: width,
/// height and RGBA pixels, or nothing when it cannot decode them.
pub uninterp spec fn ico_rgba(ico: Seq<u8>) -> Option<(u32, u32, Seq<u8>)>;

/// Decodes an `.ico` file with `image::load_from_memory_with_format`
/// (format `ImageFormat::Ico`, which reads both BMP and PNG images) and
/// converts the result to RGBA with `to_rgba8`. The contract claims only
/// that the outcome is a function of the bytes, named `ico_rgba`.
#[verifier::external_body]
fn decode_ico(ico: &[u8]) -> (r: Option<IconImage>)
    ensures
        match r {
            Some(img) => ico_rgba(ico@) == Some((img.width, img.height, img.rgba@)),
            None => ico_rgba(ico@) is None,
        },
{
    let decoded = image::load_from_memory_with_format(ico, image::ImageFormat::Ico).ok()?;
    let rgba = decoded.to_rgba8();
    Some(IconImage { width: rgba.width(), height: rgba.height(), rgba: rgba.into_raw() })
}

/// The main icon of an executable, decoded to RGBA pixels; `None` when it
/// has no icon, when its structures are not what was expected, or when the
/// image cannot be decoded. The caller then shows a fallback avatar.
pub fn extract_icon(exe_bytes: &[u8]) -> (r: Option<IconImage>)
    ensures
        main_icon_ico(exe_bytes@) is None ==> r is None,
        main_icon_ico(exe_bytes@) matches Some(ico) ==> match r {
            Some(img) => ico_rgba(ico) == Some((img.width, img.height, img.rgba@)),
            None => ico_rgba(ico) is None,
        },
{
    match main_icon_ico_bytes(exe_bytes) {
        None => None,
        Some(ico) => decode_ico(ico.as_slice()),
    }
}

/// The `k`-th entry of a section table read at `table` holds the four
/// little-endian fields found at `table + 40 k` (virtual size at +8,
/// virtual address at +12, raw size at +16, raw pointer at +20).
pub open spec fn section_read_at(b: Seq<u8>, table: int, k: int, s: Section) -> bool {
    &&& le32(b, table + 40 * k + 8) == Some(s.virtual_size)
    &&& le32(b, table + 40 * k + 12) == Some(s.virtual_address)
    &&& le32(b, table + 40 * k + 16) == Some(s.size_of_raw_data)
    &&& le32(b, table + 40 * k + 20) == Some(s.pointer_to_raw_data)
}

/// A section table read at `table` has `n` entries, each read at its own
/// place; when every entry lies inside the file, it is read.
proof fn lemma_sections_read(b: Seq<u8>, table: int, n: nat)
    ensures
        sections_from(b, table, n) matches Some(s) ==> s.len() == n && forall|k: int|
            0 <= k < n ==> section_read_at(b, table, k, #[trigger] s[k]),
        (forall|k: int| 0 <= k < n ==> (#[trigger] le32(b, table + 40 * k + 20)) is Some && 0 <= table + 40 * k + 8)
            ==> sections_from(b, table, n) is Some,
    decreases n,
{
    if n > 0 {
        lemma_sections_read(b, table, (n - 1) as nat);
        let k = n - 1;
        assert(table + (n - 1) * 40 == table + 40 * k);
        if forall|j: int| 0 <= j < n ==> (#[trigger] le32(b, table + 40 * j + 20)) is Some && 0 <= table + 40 * j + 8 {
            assert forall|j: int| 0 <= j < n - 1 implies (#[trigger] le32(b, table + 40 * j + 20)) is Some && 0
                <= table + 40 * j + 8 by {
                assert(0 <= j < n);
            }
            assert(le32(b, table + 40 * k + 20) is Some);
        }
        match sections_from(b, table, n) {
            Some(s) => {
                let prev = sections_from(b, table, (n - 1) as nat)->0;
                assert(s == prev.push(section_at(b, table + 40 * k)->0));
                assert forall|j: int| 0 <= j < n implies section_read_at(b, table, j, #[trigger] s[j]) by {
                    if j < n - 1 {
                        assert(s[j] == prev[j]);
                    }
                }
            },
            None => {},
        }
    }
}

/// Where the headers lead: the PE header's offset (at 0x3C), the COFF
/// header after its signature, and the optional header after the COFF one.
pub open spec fn optional_header_at(b: Seq<u8>) -> int {
    le32(b, 0x3c)->0 + 24
}

/// The SizeOfOptionalHeader field of the COFF header.
pub open spec fn optional_header_size(b: Seq<u8>) -> int {
    le16(b, le32(b, 0x3c)->0 + 4 + 16)->0 as int
}

/// The NumberOfSections field of the COFF header.
pub open spec fn section_count(b: Seq<u8>) -> int {
    le16(b, le32(b, 0x3c)->0 + 4 + 2)->0 as int
}

/// The section table is read right after the optional header, at the
/// offset that the COFF header's SizeOfOptionalHeader field gives (0xE0
/// for a usual PE32 file, 0xF0 for PE32+, but whatever the field says),
/// with as many entries as NumberOfSections; and the resource directory is
/// data directory 2 of the optional header (at +96 for PE32, +112 for
/// PE32+). When the signatures and the optional header's kind are right,
/// the resource directory is present and every section entry lies inside
/// the file, the headers are read.
pub proof fn law_section_table_after_optional_header(b: Seq<u8>)
    ensures
        pe_headers(b) matches Some(info) ==> {
            &&& info.sections.len() == section_count(b)
            &&& forall|k: int|
                0 <= k < info.sections.len() ==> section_read_at(
                    b,
                    optional_header_at(b) + optional_header_size(b),
                    k,
                    #[trigger] info.sections[k],
                )
            &&& le16(b, optional_header_at(b)) == Some(0x10bu16) ==> le32(b, optional_header_at(b) + 96 + 16)
                == Some(info.resource_dir_rva)
            &&& le16(b, optional_header_at(b)) == Some(0x20bu16) ==> le32(b, optional_header_at(b) + 112 + 16)
                == Some(info.resource_dir_rva)
        },
        ({
            &&& b.len() >= 2 && b[0] == 0x4d && b[1] == 0x5a
            &&& le32(b, 0x3c) is Some
            &&& le32(b, 0x3c)->0 + 4 <= b.len()
            &&& b[le32(b, 0x3c)->0 as int] == 0x50 && b[le32(b, 0x3c)->0 + 1] == 0x45
            &&& b[le32(b, 0x3c)->0 + 2] == 0 && b[le32(b, 0x3c)->0 + 3] == 0
            &&& le16(b, le32(b, 0x3c)->0 + 4 + 2) is Some
            &&& le16(b, le32(b, 0x3c)->0 + 4 + 16) is Some
            &&& ((le16(b, optional_header_at(b)) == Some(0x10bu16) && le32(b, optional_header_at(b) + 96 + 16) is Some
                && le32(b, optional_header_at(b) + 96 + 16)->0 != 0) || (le16(b, optional_header_at(b)) == Some(
                0x20bu16,
            ) && le32(b, optional_header_at(b) + 112 + 16) is Some && le32(b, optional_header_at(b) + 112 + 16)->0
                != 0))
            &&& forall|k: int|
                0 <= k < section_count(b) ==> (#[trigger] le32(
                    b,
                    optional_header_at(b) + optional_header_size(b) + 40 * k + 20,
                )) is Some
        }) ==> pe_headers(b) is Some,
{
    let table = optional_header_at(b) + optional_header_size(b);
    if le32(b, 0x3c) is Some && le16(b, le32(b, 0x3c)->0 + 4 + 2) is Some {
        let n = le16(b, le32(b, 0x3c)->0 + 4 + 2)->0;
        lemma_sections_read(b, table, n as nat);
        if forall|k: int| 0 <= k < section_count(b) ==> (#[trigger] le32(b, table + 40 * k + 20)) is Some {
            assert forall|k: int| 0 <= k < n implies (#[trigger] le32(b, table + 40 * k + 20)) is Some && 0 <= table
                + 40 * k + 8 by {
                assert(0 <= k < section_count(b));
            }
        }
    }
}

} // verus!

