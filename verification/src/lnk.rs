//! Windows shortcuts (`.lnk`): the program a shortcut points to, read from
//! the binary Shell Link structure, with readable text inside the file as
//! the fallback; and the path arithmetic that maps the Windows path onto
//! the prefix's `drive_c`.

use vstd::prelude::*;
use vstd::utf8::{decode_utf8, valid_utf8};
use crate::bytes::{le16, le32, u16le, u32le};
use crate::text::{
    chars_contain, chars_end_with, chars_of, contains_seq, is_suffix_of, lowercased, push_char,
    string_of, to_lower,
};

verus! {

/// Decodes UTF-8 with `std::str::from_utf8`: `Some` exactly for valid
/// UTF-8, holding the characters it encodes.
#[verifier::external_body]
fn utf8_to_string(b: &[u8]) -> (r: Option<String>)
    ensures
        r is Some <==> valid_utf8(b@),
        r matches Some(s) ==> s@ == decode_utf8(b@),
{
    match std::str::from_utf8(b) {
        Ok(s) => Some(s.to_string()),
        Err(_) => None,
    }
}

/// The characters of UTF-16 code units, as `String::from_utf16` decodes
/// them: a unit outside the surrogate range is one character, a high
/// surrogate followed by a low one is one character, anything else is an
/// error.
pub open spec fn utf16_decode(u: Seq<u16>) -> Option<Seq<char>>
    decreases u.len(),
{
    if u.len() == 0 {
        Some(Seq::empty())
    } else if u[0] < 0xd800 || u[0] > 0xdfff {
        match utf16_decode(u.drop_first()) {
            Some(rest) => Some(seq![u[0] as char] + rest),
            None => None,
        }
    } else if u[0] <= 0xdbff && u.len() >= 2 && 0xdc00 <= u[1] <= 0xdfff {
        let c = 0x10000 + (u[0] - 0xd800) * 0x400 + (u[1] - 0xdc00);
        match utf16_decode(u.skip(2)) {
            Some(rest) => Some(seq![c as char] + rest),
            None => None,
        }
    } else {
        None
    }
}

/// Decodes UTF-16 with `String::from_utf16`, as `utf16_decode` states.
#[verifier::external_body]
fn utf16_to_string(u: &[u16]) -> (r: Option<String>)
    ensures
        r is Some <==> utf16_decode(u@) is Some,
        r matches Some(s) ==> utf16_decode(u@) == Some(s@),
{
    String::from_utf16(u).ok()
}

/// The little-endian 16-bit units of a byte string; an odd last byte is
/// dropped.
pub open spec fn utf16_units(b: Seq<u8>) -> Seq<u16> {
    Seq::new(b.len() / 2, |k: int| (b[2 * k] + 256 * b[2 * k + 1]) as u16)
}

fn units_of(b: &[u8]) -> (r: Vec<u16>)
    ensures
        r@ == utf16_units(b@),
{
    let mut out: Vec<u16> = Vec::new();
    let n = b.len() / 2;
    let mut k: usize = 0;
    while k < n
        invariant
            n == b.len() / 2,
            k <= n,
            out@ == utf16_units(b@).take(k as int),
        decreases n - k,
    {
        let lo: u16 = b[2 * k] as u16;
        let hi: u16 = b[2 * k + 1] as u16;
        out.push(lo + hi * 256);
        k = k + 1;
        assert(out@ =~= utf16_units(b@).take(k as int));
    }
    assert(utf16_units(b@).take(n as int) =~= utf16_units(b@));
    out
}

/// Where the LocalBasePath string of a shell link lies, per the Shell Link
/// format: after the header (20 bytes) come the link flags at 0x14; when
/// bit 0 is set an ID list follows whose size is at 0x4C; then the
/// LinkInfo section, whose size is its first field and whose
/// LocalBasePathOffset is its fifth; the string ends two bytes before the
/// section does.
pub open spec fn lnk_base_path_range(b: Seq<u8>) -> Option<(int, int)> {
    match le32(b, 0x14) {
        None => None,
        Some(flags) => {
            let start = if flags & 1 == 1 {
                match le16(b, 0x4c) {
                    Some(size) => Some(size + 0x4e),
                    None => None,
                }
            } else {
                Some(0x18int)
            };
            match start {
                None => None,
                Some(last_pos) => match (le32(b, last_pos), le32(b, last_pos + 0x10)) {
                    (Some(length), Some(lbpos)) => {
                        let position = last_pos + lbpos;
                        let end = length + last_pos - 2;
                        if end < 0 || position >= end || end > b.len() {
                            None
                        } else {
                            Some((position, end))
                        }
                    },
                    _ => None,
                },
            }
        },
    }
}

/// The target path stored in a shell link's LocalBasePath field: as UTF-8
/// when that decodes to a non-empty string, else as UTF-16.
pub open spec fn lnk_base_path(b: Seq<u8>) -> Option<Seq<char>> {
    match lnk_base_path_range(b) {
        None => None,
        Some((start, end)) => {
            let field = b.subrange(start, end);
            if valid_utf8(field) && decode_utf8(field).len() > 0 {
                Some(decode_utf8(field))
            } else {
                match utf16_decode(utf16_units(field)) {
                    Some(s) => if s.len() > 0 { Some(s) } else { None },
                    None => None,
                }
            }
        },
    }
}

/// Reads the LocalBasePath field of the LinkInfo section of a binary shell
/// link (`.lnk`), going straight to its documented offsets.
pub fn parse_lnk_binary(bytes: &[u8]) -> (r: Option<String>)
    ensures
        r is Some <==> lnk_base_path(bytes@) is Some,
        r matches Some(s) ==> lnk_base_path(bytes@) == Some(s@),
{
    let lflags = match u32le(bytes, 0x14) {
        Some(v) => v,
        None => return None,
    };
    let mut position: u64 = 0x18;
    if lflags & 1 == 1 {
        let id_list_size = match u16le(bytes, 0x4c) {
            Some(v) => v as u64,
            None => return None,
        };
        position = id_list_size + 0x4e;
    }
    let last_pos = position;
    position = position + 0x04;
    let length = match u32le(bytes, last_pos) {
        Some(v) => v as u64,
        None => return None,
    };
    position = position + 0x0c;
    let lbpos = match u32le(bytes, position) {
        Some(v) => v as u64,
        None => return None,
    };
    position = last_pos + lbpos;
    if length + last_pos < 2 {
        return None;
    }
    let end = length + last_pos - 2;
    if position >= end || end > bytes.len() as u64 {
        return None;
    }
    let slice = &bytes[position as usize..end as usize];
    assert(slice@ == bytes@.subrange(position as int, end as int));
    if let Some(s) = utf8_to_string(slice) {
        if s.unicode_len() > 0 {
            return Some(s);
        }
    }
    let units = units_of(slice);
    match utf16_to_string(units.as_slice()) {
        Some(s) => if s.unicode_len() > 0 {
            Some(s)
        } else {
            None
        },
        None => None,
    }
}


/// A code that counts as readable text: printable ASCII or a space.
pub open spec fn readable(v: int) -> bool {
    0x20 <= v <= 0x7e
}

/// Scanning codes left to right: the finished runs of readable text that
/// were at least 5 long, and the run still open.
pub open spec fn text_runs_scan(codes: Seq<int>) -> (Seq<Seq<char>>, Seq<char>)
    decreases codes.len(),
{
    if codes.len() == 0 {
        (Seq::empty(), Seq::empty())
    } else {
        let (done, cur) = text_runs_scan(codes.drop_last());
        let c = codes.last();
        if readable(c) {
            (done, cur.push(c as char))
        } else if cur.len() >= 5 {
            (done.push(cur), Seq::empty())
        } else {
            (done, Seq::empty())
        }
    }
}

/// The runs of at least 5 readable codes, in order.
pub open spec fn text_runs(codes: Seq<int>) -> Seq<Seq<char>> {
    let (done, cur) = text_runs_scan(codes);
    if cur.len() >= 5 {
        done.push(cur)
    } else {
        done
    }
}

/// The bytes as codes.
pub open spec fn byte_codes(b: Seq<u8>) -> Seq<int> {
    b.map_values(|x: u8| x as int)
}

/// The 16-bit units as codes.
pub open spec fn unit_codes(u: Seq<u16>) -> Seq<int> {
    u.map_values(|x: u16| x as int)
}

/// Collects, in order, the runs of at least 5 readable codes.
fn collect_runs(codes: &Vec<u32>, out: &mut Vec<String>)
    requires
        forall|k: int| 0 <= k < codes@.len() ==> codes@[k] <= 0xffff,
    ensures
        crate::text::views(final(out)@) == crate::text::views(old(out)@) + text_runs(
            codes@.map_values(|x: u32| x as int),
        ),
{
    let ghost cs = codes@.map_values(|x: u32| x as int);
    let ghost start = crate::text::views(out@);
    let mut current: Vec<char> = Vec::new();
    let mut i: usize = 0;
    while i < codes.len()
        invariant
            cs == codes@.map_values(|x: u32| x as int),
            forall|k: int| 0 <= k < codes@.len() ==> codes@[k] <= 0xffff,
            i <= codes.len(),
            crate::text::views(out@) == start + text_runs_scan(cs.take(i as int)).0,
            current@ == text_runs_scan(cs.take(i as int)).1,
        decreases codes.len() - i,
    {
        assert(cs.take(i + 1).drop_last() =~= cs.take(i as int));
        assert(cs.take(i + 1).last() == codes@[i as int] as int);
        let c = codes[i];
        if 0x20 <= c && c <= 0x7e {
            let b: u8 = c as u8;
            current.push(b as char);
        } else {
            if current.len() >= 5 {
                let ghost before = crate::text::views(out@);
                let s = string_of(current.as_slice());
                out.push(s);
                assert(crate::text::views(out@) =~= before.push(current@));
            }
            current = Vec::new();
        }
        i = i + 1;
    }
    assert(cs.take(codes.len() as int) =~= cs);
    if current.len() >= 5 {
        let ghost before = crate::text::views(out@);
        let s = string_of(current.as_slice());
        out.push(s);
        assert(crate::text::views(out@) =~= before.push(current@));
    }
}

/// Appends to `out` every run of at least 5 readable ASCII characters
/// (printable or space) found in the bytes, in order.
pub fn collect_ascii_strings(bytes: &[u8], out: &mut Vec<String>)
    ensures
        crate::text::views(final(out)@) == crate::text::views(old(out)@) + text_runs(byte_codes(bytes@)),
{
    let mut codes: Vec<u32> = Vec::new();
    let mut i: usize = 0;
    while i < bytes.len()
        invariant
            i <= bytes.len(),
            codes@.len() == i,
            codes@.map_values(|x: u32| x as int) == byte_codes(bytes@).take(i as int),
            forall|k: int| 0 <= k < codes@.len() ==> codes@[k] <= 0xffff,
        decreases bytes.len() - i,
    {
        codes.push(bytes[i] as u32);
        i = i + 1;
        assert(codes@.map_values(|x: u32| x as int) =~= byte_codes(bytes@).take(i as int));
    }
    assert(byte_codes(bytes@).take(bytes.len() as int) =~= byte_codes(bytes@));
    collect_runs(&codes, out);
}

/// Appends to `out` every run of at least 5 readable ASCII characters found
/// in the bytes read as little-endian UTF-16, in order.
pub fn collect_utf16le_strings(bytes: &[u8], out: &mut Vec<String>)
    ensures
        crate::text::views(final(out)@) == crate::text::views(old(out)@) + text_runs(
            unit_codes(utf16_units(bytes@)),
        ),
{
    let units = units_of(bytes);
    let mut codes: Vec<u32> = Vec::new();
    let mut i: usize = 0;
    while i < units.len()
        invariant
            units@ == utf16_units(bytes@),
            i <= units.len(),
            codes@.len() == i,
            codes@.map_values(|x: u32| x as int) == unit_codes(units@).take(i as int),
            forall|k: int| 0 <= k < codes@.len() ==> codes@[k] <= 0xffff,
        decreases units.len() - i,
    {
        codes.push(units[i] as u32);
        i = i + 1;
        assert(codes@.map_values(|x: u32| x as int) =~= unit_codes(units@).take(i as int));
    }
    assert(unit_codes(units@).take(units.len() as int) =~= unit_codes(units@));
    collect_runs(&codes, out);
}


/// A path that names an `.exe`, whatever the case of the extension.
pub open spec fn names_exe(s: Seq<char>) -> bool {
    is_suffix_of(".exe"@, lowercased(s))
}

/// Readable text that looks like a Windows path to an executable.
pub open spec fn exe_path_text(s: Seq<char>) -> bool {
    names_exe(s) && s.contains('\\')
}

/// The readable runs of a shortcut file: the ASCII ones, then the UTF-16
/// ones.
pub open spec fn lnk_text(b: Seq<u8>) -> Seq<Seq<char>> {
    text_runs(byte_codes(b)) + text_runs(unit_codes(utf16_units(b)))
}

/// `i` is the longest text that looks like an executable's path; among
/// several of that length, the last one (as `Iterator::max_by_key` picks).
pub open spec fn longest_exe_text_at(c: Seq<Seq<char>>, i: int) -> bool {
    &&& 0 <= i < c.len()
    &&& exe_path_text(c[i])
    &&& forall|j: int| 0 <= j < c.len() && exe_path_text(#[trigger] c[j]) ==> c[j].len() <= c[i].len()
    &&& forall|j: int| i < j < c.len() && exe_path_text(#[trigger] c[j]) ==> c[j].len() < c[i].len()
}

/// The program a shortcut points to: its LocalBasePath when that names an
/// `.exe`; else the longest readable text in the file that looks like a
/// Windows path to an `.exe`; else nothing.
pub open spec fn lnk_target(b: Seq<u8>) -> Option<Seq<char>> {
    match lnk_base_path(b) {
        Some(p) if names_exe(p) => Some(p),
        _ => {
            let c = lnk_text(b);
            if exists|i: int| 0 <= i < c.len() && exe_path_text(#[trigger] c[i]) {
                Some(c[choose|i: int| longest_exe_text_at(c, i)])
            } else {
                None
            }
        },
    }
}

fn names_exe_str(s: &str) -> (r: bool)
    ensures
        r == names_exe(s@),
{
    let lower = to_lower(s);
    let l = chars_of(lower.as_str());
    let ext = chars_of(".exe");
    chars_end_with(&l, &ext)
}

proof fn lemma_longest_unique(c: Seq<Seq<char>>, i: int)
    requires
        longest_exe_text_at(c, i),
    ensures
        (choose|k: int| longest_exe_text_at(c, k)) == i,
{
    let k = choose|k: int| longest_exe_text_at(c, k);
    assert(longest_exe_text_at(c, k));
    if k < i {
        assert(c[i].len() < c[k].len());
    } else if i < k {
        assert(c[k].len() < c[i].len());
    }
}

/// The path of the program that a shortcut's bytes point to. The binary
/// structure is tried first (see `parse_lnk_binary`); when it does not give
/// an `.exe`, readable text in the file that ends in `.exe` and holds a
/// backslash is used instead, the longest such text winning.
pub fn extract_exe_path_from_lnk(bytes: &[u8]) -> (r: Option<String>)
    ensures
        r is Some <==> lnk_target(bytes@) is Some,
        r matches Some(s) ==> lnk_target(bytes@) == Some(s@),
{
    if let Some(path) = parse_lnk_binary(bytes) {
        if names_exe_str(path.as_str()) {
            return Some(path);
        }
    }
    let mut candidates: Vec<String> = Vec::new();
    collect_ascii_strings(bytes, &mut candidates);
    collect_utf16le_strings(bytes, &mut candidates);
    let ghost c = crate::text::views(candidates@);
    assert(c =~= lnk_text(bytes@));
    let mut best: Option<usize> = None;
    let mut i: usize = 0;
    while i < candidates.len()
        invariant
            c == crate::text::views(candidates@),
            i <= candidates.len(),
            best is None ==> forall|j: int| 0 <= j < i ==> !exe_path_text(#[trigger] c[j]),
            best matches Some(b) ==> {
                &&& b < i
                &&& exe_path_text(c[b as int])
                &&& forall|j: int| 0 <= j < i && exe_path_text(#[trigger] c[j]) ==> c[j].len() <= c[b as int].len()
                &&& forall|j: int| b < j < i && exe_path_text(#[trigger] c[j]) ==> c[j].len() < c[b as int].len()
            },
        decreases candidates.len() - i,
    {
        let s = candidates[i].as_str();
        assert(s@ == c[i as int]);
        if names_exe_str(s) && crate::text::str_has_char(s, '\\') {
            match best {
                None => {
                    best = Some(i);
                },
                Some(b) => {
                    if s.unicode_len() >= candidates[b].as_str().unicode_len() {
                        best = Some(i);
                    }
                },
            }
        }
        i = i + 1;
    }
    match best {
        None => {
            assert(!exists|i: int| 0 <= i < c.len() && exe_path_text(#[trigger] c[i]));
            None
        },
        Some(b) => {
            assert(longest_exe_text_at(c, b as int));
            proof {
                lemma_longest_unique(c, b as int);
            }
            Some(candidates[b].clone())
        },
    }
}


/// The path with every backslash turned into a slash.
pub open spec fn with_slashes(raw: Seq<char>) -> Seq<char> {
    raw.map_values(|c: char| if c == '\\' { '/' } else { c })
}

/// Replaces the Windows separators of a path with `/`.
pub fn normalize_separators(raw: &str) -> (r: String)
    ensures
        r@ == with_slashes(raw@),
{
    let cs = chars_of(raw);
    let mut out = String::new();
    let mut i: usize = 0;
    while i < cs.len()
        invariant
            cs@ == raw@,
            i <= cs.len(),
            out@ == with_slashes(raw@).take(i as int),
        decreases cs.len() - i,
    {
        let c = if cs[i] == '\\' { '/' } else { cs[i] };
        push_char(&mut out, c);
        i = i + 1;
        assert(out@ =~= with_slashes(raw@).take(i as int));
    }
    assert(with_slashes(raw@).take(cs.len() as int) =~= with_slashes(raw@));
    out
}

/// `s` without its leading slashes.
pub open spec fn without_leading_slashes(s: Seq<char>) -> Seq<char>
    decreases s.len(),
{
    if s.len() > 0 && s[0] == '/' {
        without_leading_slashes(s.drop_first())
    } else {
        s
    }
}

/// For a normalized path that starts with a drive letter (`C:/...`), the
/// rest of the path below the drive, without leading slashes.
pub open spec fn drive_relative(normalized: Seq<char>) -> Option<Seq<char>> {
    if normalized.len() >= 3 && (normalized[0] as u32) < 0x80 && normalized[1] == ':' {
        Some(without_leading_slashes(normalized.skip(2)))
    } else {
        None
    }
}

/// The part of a normalized shortcut target below its drive letter, when
/// it has one (`C:/GOG Games/x.exe` gives `GOG Games/x.exe`).
pub fn lnk_drive_path(normalized: &str) -> (r: Option<String>)
    ensures
        r is Some <==> drive_relative(normalized@) is Some,
        r matches Some(s) ==> drive_relative(normalized@) == Some(s@),
{
    let cs = chars_of(normalized);
    if cs.len() < 3 || (cs[0] as u32) >= 0x80 || cs[1] != ':' {
        return None;
    }
    let mut start: usize = 2;
    assert(without_leading_slashes(normalized@.skip(2)) == without_leading_slashes(cs@.skip(start as int)));
    while start < cs.len() && cs[start] == '/'
        invariant
            cs@ == normalized@,
            2 <= start <= cs.len(),
            without_leading_slashes(normalized@.skip(2)) == without_leading_slashes(cs@.skip(start as int)),
        decreases cs.len() - start,
    {
        assert(cs@.skip(start as int).drop_first() =~= cs@.skip(start + 1));
        start = start + 1;
    }
    let rest = string_of(&cs.as_slice()[start..cs.len()]);
    assert(cs@.subrange(start as int, cs.len() as int) =~= cs@.skip(start as int));
    Some(rest)
}

/// The non-empty pieces of a `/`-separated path.
pub open spec fn segments(rest: Seq<char>) -> Seq<Seq<char>> {
    crate::i18n::split_on(rest, '/').filter(|s: Seq<char>| s.len() > 0)
}

/// The non-empty `/`-separated pieces of a path, in order.
pub fn path_segments(rest: &str) -> (r: Vec<String>)
    ensures
        crate::text::views(r@) == segments(rest@),
{
    let cs = chars_of(rest);
    let pieces = crate::i18n::split_chars(&cs, '/');
    let ghost all = crate::i18n::split_on(rest@, '/');
    let ghost pred = |s: Seq<char>| s.len() > 0;
    let mut out: Vec<String> = Vec::new();
    let mut i: usize = 0;
    while i < pieces.len()
        invariant
            all == crate::i18n::split_on(rest@, '/'),
            pred == |s: Seq<char>| s.len() > 0,
            pieces@.len() == all.len(),
            forall|k: int| 0 <= k < pieces@.len() ==> #[trigger] pieces@[k]@ == all[k],
            i <= pieces.len(),
            crate::text::views(out@) == all.take(i as int).filter(pred),
        decreases pieces.len() - i,
    {
        let ghost before = crate::text::views(out@);
        proof {
            reveal(Seq::filter);
            assert(all.take(i + 1).drop_last() =~= all.take(i as int));
            assert(all.take(i + 1).last() == all[i as int]);
        }
        if pieces[i].len() > 0 {
            let s = string_of(pieces[i].as_slice());
            out.push(s);
            assert(crate::text::views(out@) =~= before.push(all[i as int]));
        }
        i = i + 1;
    }
    assert(all.take(pieces.len() as int) =~= all);
    out
}

/// `k` is the first name equal to `name` once both are lowercased.
pub open spec fn first_case_insensitive_at(names: Seq<Seq<char>>, name: Seq<char>, k: int) -> bool {
    &&& 0 <= k < names.len()
    &&& lowercased(names[k]) == lowercased(name)
    &&& forall|j: int| 0 <= j < k ==> lowercased(#[trigger] names[j]) != lowercased(name)
}

/// Among the entries of a folder, the first whose name equals `name`
/// without regard to case (Windows ignores case; Linux does not).
pub fn find_case_insensitive(entry_names: &[String], name: &str) -> (r: Option<usize>)
    ensures
        r matches Some(k) ==> first_case_insensitive_at(crate::text::views(entry_names@), name@, k as int),
        r is None ==> forall|j: int| 0 <= j < entry_names@.len() ==> lowercased(
            #[trigger] entry_names@[j]@,
        ) != lowercased(name@),
{
    let target = to_lower(name);
    let mut k: usize = 0;
    while k < entry_names.len()
        invariant
            target@ == lowercased(name@),
            k <= entry_names.len(),
            forall|j: int| 0 <= j < k ==> lowercased(#[trigger] entry_names@[j]@) != lowercased(name@),
        decreases entry_names.len() - k,
    {
        let lower = to_lower(entry_names[k].as_str());
        if crate::text::str_eq(lower.as_str(), target.as_str()) {
            return Some(k);
        }
        k = k + 1;
    }
    None
}

} // verus!
