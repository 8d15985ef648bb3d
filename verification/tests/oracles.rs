//! The library's text and byte handling compared, on many inputs, with
//! what std's own string and path functions give.

use dalhin::i18n::Lang;
use dalhin::lnk::{
    collect_ascii_strings, collect_utf16le_strings, extract_exe_path_from_lnk, lnk_drive_path,
    parse_lnk_binary, path_segments,
};
use dalhin::prefix::{detect_arch, is_safe_name};
use dalhin::programs::looks_like_installer_artifact;
use dalhin::style::thumbnail_index;

/// A small deterministic generator of pseudo-random numbers.
struct Lcg(u64);

impl Lcg {
    fn next(&mut self) -> u64 {
        self.0 = self.0.wrapping_mul(6364136223846793005).wrapping_add(1442695040888963407);
        self.0 >> 33
    }

    fn below(&mut self, n: u64) -> u64 {
        self.next() % n
    }
}

/// Byte strings mixing printable ASCII, NULs, UTF-16 text and noise.
fn byte_samples() -> Vec<Vec<u8>> {
    let mut rng = Lcg(7);
    let pieces: Vec<Vec<u8>> = vec![
        b"C:\\Games\\run.exe".to_vec(),
        b"short".to_vec(),
        b"abcd".to_vec(),
        b"tool.EXE".to_vec(),
        b"D:\\x.exe".to_vec(),
        "E:\\Juego\\j.exe".encode_utf16().flat_map(|u| u.to_le_bytes()).collect(),
        "C:\\é\\a.exe".encode_utf16().flat_map(|u| u.to_le_bytes()).collect(),
        vec![0],
        vec![0, 0, 0],
        vec![0xff, 0xfe],
        vec![0x7f, 0x1f, 0x20],
    ];
    let mut out = Vec::new();
    for _ in 0..400 {
        let mut b = Vec::new();
        let n = rng.below(7);
        for _ in 0..n {
            let k = rng.below(pieces.len() as u64 + 1) as usize;
            if k == pieces.len() {
                let len = rng.below(6);
                for _ in 0..len {
                    b.push(rng.below(256) as u8);
                }
            } else {
                b.extend_from_slice(&pieces[k]);
            }
        }
        out.push(b);
    }
    out
}

fn ascii_runs_by_std(bytes: &[u8]) -> Vec<String> {
    bytes
        .split(|b| !(b.is_ascii_graphic() || *b == b' '))
        .filter(|run| run.len() >= 5)
        .map(|run| String::from_utf8(run.to_vec()).unwrap())
        .collect()
}

fn utf16_runs_by_std(bytes: &[u8]) -> Vec<String> {
    let units: Vec<u16> = bytes.chunks_exact(2).map(|c| u16::from_le_bytes([c[0], c[1]])).collect();
    units
        .split(|u| !(0x20..0x7f).contains(u))
        .filter(|run| run.len() >= 5)
        .map(|run| String::from_utf16(run).unwrap())
        .collect()
}

#[test]
fn readable_runs_agree_with_std_splitting() {
    for b in byte_samples() {
        let mut ascii = vec!["kept".to_string()];
        collect_ascii_strings(&b, &mut ascii);
        let mut want = vec!["kept".to_string()];
        want.extend(ascii_runs_by_std(&b));
        assert_eq!(ascii, want, "ascii runs of {b:?}");

        let mut wide = Vec::new();
        collect_utf16le_strings(&b, &mut wide);
        assert_eq!(wide, utf16_runs_by_std(&b), "utf-16 runs of {b:?}");
    }
}

/// A shell link whose LinkInfo section holds `field` as LocalBasePath,
/// followed by `tail`.
fn link(field: &[u8], tail: &[u8]) -> Vec<u8> {
    let mut b = vec![0u8; 0x18];
    let lbpos: u32 = 0x1c;
    let length = lbpos as usize + field.len() + 2;
    let mut info = vec![0u8; lbpos as usize];
    info[0..4].copy_from_slice(&(length as u32).to_le_bytes());
    info[0x10..0x14].copy_from_slice(&lbpos.to_le_bytes());
    b.extend(info);
    b.extend_from_slice(field);
    b.extend_from_slice(&[0, 0]);
    b.extend_from_slice(tail);
    b
}

#[test]
fn shortcut_target_prefers_binary_field_then_longest_text() {
    for (i, tail) in byte_samples().into_iter().enumerate() {
        let field: Vec<u8> = match i % 4 {
            0 => b"C:\\Prog\\game.exe".to_vec(),
            1 => b"C:\\Prog\\readme.txt".to_vec(),
            2 => Vec::new(),
            _ => tail.iter().take(9).copied().collect(),
        };
        let b = link(&field, &tail);
        let binary = parse_lnk_binary(&b);
        let mut texts = ascii_runs_by_std(&b);
        texts.extend(utf16_runs_by_std(&b));
        let by_text = texts
            .into_iter()
            .filter(|s| s.to_lowercase().ends_with(".exe") && s.contains('\\'))
            .max_by_key(|s| s.len());
        let want = match &binary {
            Some(p) if p.to_lowercase().ends_with(".exe") => Some(p.clone()),
            _ => by_text,
        };
        assert_eq!(extract_exe_path_from_lnk(&b), want, "target of {b:?}");
        // Without a link structure only the text counts.
        let mut raw = vec![0xffu8; 0x18];
        raw.extend_from_slice(&tail);
        let mut texts = ascii_runs_by_std(&raw);
        texts.extend(utf16_runs_by_std(&raw));
        let want = texts
            .into_iter()
            .filter(|s| s.to_lowercase().ends_with(".exe") && s.contains('\\'))
            .max_by_key(|s| s.len());
        if parse_lnk_binary(&raw).is_none() {
            assert_eq!(extract_exe_path_from_lnk(&raw), want, "text target of {raw:?}");
        }
    }
}

#[test]
fn drive_paths_and_segments_agree_with_std() {
    let samples = [
        "C:/GOG Games/x.exe", "c:///a//b", "C:", "C:/", "ab:/x", "é:/x", "/x/y", "x", "", "D:x.exe",
        "Z://", "a/b//c/", "//", "C:/a/./b",
    ];
    for s in samples {
        let want = if s.len() > 2 && s.as_bytes()[1] == b':' {
            Some(s[2..].trim_start_matches('/').to_string())
        } else {
            None
        };
        assert_eq!(lnk_drive_path(s), want, "drive path of {s:?}");
        let segs: Vec<String> = s.split('/').filter(|x| !x.is_empty()).map(String::from).collect();
        assert_eq!(path_segments(s), segs, "segments of {s:?}");
    }
}

#[test]
fn arch_line_agrees_with_std_lines() {
    let mut samples = vec![
        String::new(),
        "#arch=win32".to_string(),
        "WINE REGISTRY Version 2\r\n;; All keys relative to \\\\Machine\r\n\r\n#arch=win32\r\n".to_string(),
        "#arch=  win64  \n".to_string(),
        "#arch=\n#arch=win32\n".to_string(),
        " #arch=win32\n".to_string(),
        "#ARCH=win32\n".to_string(),
        "\n\n#arch=x".to_string(),
    ];
    let mut late = String::new();
    for k in 0..25 {
        late.push_str(&format!("line {k}\n"));
        if k == 18 || k == 21 {
            late.push_str("#arch=win32\n");
        }
    }
    samples.push(late);
    let mut later = String::new();
    for k in 0..22 {
        later.push_str(&format!("x{k}\r\n"));
    }
    later.push_str("#arch=win32\n");
    samples.push(later);
    for c in samples {
        let want = c
            .lines()
            .take(20)
            .find_map(|l| l.strip_prefix("#arch="))
            .map(|a| a.trim().to_string())
            .unwrap_or_else(|| "win64".to_string());
        assert_eq!(detect_arch(&c), want, "arch of {c:?}");
    }
}

#[test]
fn locale_strings_agree_with_std_parsing() {
    let samples = [
        "es_AR.UTF-8", "en_US", "pt_BR:en_US", "fr_FR:ru_RU", " RU ", "de", "", ":", "fr:es", "PT",
        "e", "en:es", "C.UTF-8", "  es_ES.UTF-8  :en",
    ];
    for raw in samples {
        let want = raw.split(':').find_map(|c| {
            let l = c.trim().to_lowercase();
            if l.starts_with("ru") {
                Some(Lang::Ru)
            } else if l.starts_with("pt") {
                Some(Lang::PtBr)
            } else if l.starts_with("es") {
                Some(Lang::Es)
            } else if l.starts_with("en") {
                Some(Lang::En)
            } else {
                None
            }
        });
        assert_eq!(Lang::from_locale_str(raw), want, "language of {raw:?}");
    }
}

#[test]
fn names_and_hashes_agree_with_std() {
    let names = [
        "", ".", "..", "a", ".a", "a/b", "a\\b", "Juegos", "GOG Games", "a..b", "ñandú", "x/", "...",
        "Setup.EXE", "UNINS000.exe", "game.exe", "Readme", "vc_redist.x64.exe", "Web Site.url",
    ];
    for n in names {
        let safe = !n.is_empty()
            && !n.contains('/')
            && !n.contains('\\')
            && n != "."
            && n != ".."
            && !n.starts_with('.');
        assert_eq!(is_safe_name(n), safe, "safety of {n:?}");
        let hints = [
            "unins", "uninstall", "setup", "install", "redist", "vcredist", "dxsetup", "directx",
            "dotnetfx", "dotnet-", "oalinst", "vc_redist", "vcruntime", "ucrtbase", "crashpad",
            "crashreport", "crashhandler", "updater", "update.exe", "debug", "report", "err",
            "website", "web site", "user_manual",
        ];
        let lower = n.to_lowercase();
        assert_eq!(looks_like_installer_artifact(n), hints.iter().any(|h| lower.contains(h)), "{n:?}");
        let hash = n.bytes().fold(0u32, |acc, b| acc.wrapping_mul(31).wrapping_add(b as u32));
        assert_eq!(thumbnail_index(n), (hash as usize) % 7, "slot of {n:?}");
    }
}
