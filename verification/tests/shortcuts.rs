use dalhin::lnk::{
    collect_ascii_strings, collect_utf16le_strings, extract_exe_path_from_lnk,
    find_case_insensitive, lnk_drive_path, normalize_separators, parse_lnk_binary, path_segments,
};

/// A shell link whose LocalBasePath field holds `path` (encoded as given),
/// optionally after an ID list of `id_list` bytes.
fn lnk_with_base_path(path: &[u8], id_list: Option<u16>) -> Vec<u8> {
    let mut b = vec![0u8; 0x200];
    let last_pos = match id_list {
        Some(size) => {
            b[0x14..0x18].copy_from_slice(&1u32.to_le_bytes());
            b[0x4c..0x4e].copy_from_slice(&size.to_le_bytes());
            size as usize + 0x4e
        }
        None => 0x18,
    };
    let lbpos: u32 = 0x1c;
    let length = lbpos as usize + path.len() + 2;
    b[last_pos..last_pos + 4].copy_from_slice(&(length as u32).to_le_bytes());
    b[last_pos + 0x10..last_pos + 0x14].copy_from_slice(&lbpos.to_le_bytes());
    let start = last_pos + lbpos as usize;
    b[start..start + path.len()].copy_from_slice(path);
    b
}

fn utf16(s: &str) -> Vec<u8> {
    s.encode_utf16().flat_map(|u| u.to_le_bytes()).collect()
}

#[test]
fn binary_base_path() {
    let b = lnk_with_base_path(b"C:\\GOG Games\\Bread & Fred Demo\\Bread&Fred.exe", None);
    assert_eq!(parse_lnk_binary(&b).as_deref(), Some("C:\\GOG Games\\Bread & Fred Demo\\Bread&Fred.exe"));
    assert_eq!(
        extract_exe_path_from_lnk(&b).as_deref(),
        Some("C:\\GOG Games\\Bread & Fred Demo\\Bread&Fred.exe")
    );
}

#[test]
fn binary_base_path_after_id_list() {
    let b = lnk_with_base_path(b"C:\\Game\\run.EXE", Some(0x20));
    assert_eq!(parse_lnk_binary(&b).as_deref(), Some("C:\\Game\\run.EXE"));
    assert_eq!(extract_exe_path_from_lnk(&b).as_deref(), Some("C:\\Game\\run.EXE"));
}

#[test]
fn binary_base_path_in_utf16() {
    // The UTF-16 bytes of "é" (E9 00) are not valid UTF-8, so the field is
    // read as UTF-16.
    let b = lnk_with_base_path(&utf16("C:\\é\\a.exe"), None);
    assert_eq!(parse_lnk_binary(&b).as_deref(), Some("C:\\é\\a.exe"));
    // Text without such bytes is taken as UTF-8, NUL bytes and all.
    let plain = lnk_with_base_path(&utf16("C:\\a.exe"), None);
    assert_eq!(parse_lnk_binary(&plain).as_deref(), Some("C\0:\0\\\0a\0.\0e\0x\0e\0"));
    let bad = lnk_with_base_path(&[0xff, 0xfe, 0x00, 0xd8], None);
    assert_eq!(parse_lnk_binary(&bad), None);
}

#[test]
fn too_short_or_empty_fields() {
    assert_eq!(parse_lnk_binary(&[0u8; 10]), None);
    let b = lnk_with_base_path(b"", None);
    assert_eq!(parse_lnk_binary(&b), None);
}

#[test]
fn fallback_on_readable_text() {
    // No usable LinkInfo: the longest readable `.exe` path wins.
    let mut b = vec![0u8; 0x18];
    b.extend_from_slice(b"\x01junk\x00C:\\A\\b.exe\x00\x00");
    b.extend(utf16("D:\\Longer\\game.exe"));
    b.extend_from_slice(&[0, 0, 0, 0]);
    b.extend_from_slice(b"noslash.exe\x00");
    assert_eq!(extract_exe_path_from_lnk(&b).as_deref(), Some("D:\\Longer\\game.exe"));
    assert_eq!(extract_exe_path_from_lnk(b"nothing here"), None);
}

#[test]
fn ascii_runs() {
    let mut out = vec!["x".to_string()];
    collect_ascii_strings(b"abcd\x00hello world\x01abcdef", &mut out);
    assert_eq!(out, vec!["x", "hello world", "abcdef"]);
}

#[test]
fn utf16_runs() {
    let mut out = Vec::new();
    let mut b = utf16("abcd");
    b.extend_from_slice(&[0, 0]);
    b.extend(utf16("hello"));
    b.push(0x41);
    collect_utf16le_strings(&b, &mut out);
    assert_eq!(out, vec!["hello"]);
}

#[test]
fn separators_and_drive() {
    let n = normalize_separators("C:\\GOG Games\\x.exe");
    assert_eq!(n, "C:/GOG Games/x.exe");
    assert_eq!(lnk_drive_path(&n).as_deref(), Some("GOG Games/x.exe"));
    assert_eq!(lnk_drive_path("C://a").as_deref(), Some("a"));
    assert_eq!(lnk_drive_path("C:"), None);
    assert_eq!(lnk_drive_path("relative/x.exe"), None);
    assert_eq!(lnk_drive_path("Ж:/x"), None);
}

#[test]
fn segments() {
    assert_eq!(path_segments("a//b/c/"), vec!["a", "b", "c"]);
    assert!(path_segments("").is_empty());
}

#[test]
fn case_insensitive_lookup() {
    let names = vec!["Program Files".to_string(), "GOG Games".to_string(), "gog games".to_string()];
    assert_eq!(find_case_insensitive(&names, "gog GAMES"), Some(1));
    assert_eq!(find_case_insensitive(&names, "Steam"), None);
}
