//! A mod's identity as declared inside its archive: its identifier, an
//! optional display name, and a version, with the version placeholder
//! resolved from the archive's manifest entry when necessary.

use vstd::prelude::*;
use vstd::utf8::{decode_utf8, valid_utf8};
use crate::rename::{str_chars, string_from_chars};
use crate::resolver::{opt_view, str_eq};

verus! {

/// The normalized identity of one mod archive.
#[derive(Debug, Clone)]
pub struct ModInfo {
    pub mod_id: String,
    pub display_name: Option<String>,
    pub version: String,
}

/// Why extracting a mod's identity from an archive failed. Each failure is
/// fatal for that archive alone; the caller is expected to continue with
/// the next one.
#[derive(Debug, PartialEq, Eq)]
pub enum ExtractError {
    /// The file could not be read as an archive container.
    ArchiveCorrupt,
    /// The archive holds no mods metadata entry.
    ManifestMissing,
    /// The mods metadata entry does not parse, declares no mod, or declares
    /// an empty mod identifier.
    ManifestMalformed,
}

/// Whether a character counts as ASCII whitespace for trimming.
pub open spec fn is_ws_char(c: char) -> bool {
    c == ' ' || c == '\t' || c == '\r' || c == '\n' || c == '\u{b}' || c == '\u{c}'
}

/// A sequence with its leading whitespace dropped.
pub open spec fn trim_start_spec(s: Seq<char>) -> Seq<char>
    decreases s.len(),
{
    if s.len() > 0 && is_ws_char(s[0]) {
        trim_start_spec(s.drop_first())
    } else {
        s
    }
}

/// A sequence with its trailing whitespace dropped.
pub open spec fn trim_end_spec(s: Seq<char>) -> Seq<char>
    decreases s.len(),
{
    if s.len() > 0 && is_ws_char(s.last()) {
        trim_end_spec(s.drop_last())
    } else {
        s
    }
}

/// A sequence with whitespace dropped at both ends.
pub open spec fn trim_spec(s: Seq<char>) -> Seq<char> {
    trim_end_spec(trim_start_spec(s))
}

/// The index of the first occurrence of a character, or the sequence's
/// length when it does not occur.
pub open spec fn find_char(s: Seq<char>, c: char) -> int
    decreases s.len(),
{
    if s.len() == 0 {
        0
    } else if s[0] == c {
        0
    } else {
        1 + find_char(s.drop_first(), c)
    }
}

/// `find_char` is the first occurrence: nothing before it matches, and it
/// points at a match unless the character is absent.
pub proof fn lemma_find_char(s: Seq<char>, c: char)
    ensures
        0 <= find_char(s, c) <= s.len(),
        forall|i: int| 0 <= i < find_char(s, c) ==> s[i] != c,
        find_char(s, c) < s.len() ==> s[find_char(s, c)] == c,
    decreases s.len(),
{
    if s.len() > 0 && s[0] != c {
        lemma_find_char(s.drop_first(), c);
        assert forall|i: int| 0 <= i < find_char(s, c) implies s[i] != c by {
            if i > 0 {
                assert(s.drop_first()[i - 1] == s[i]);
            }
        }
    }
}

/// A scan that passes over non-matching characters and stops at a match or
/// the end pins `find_char` down.
pub proof fn lemma_find_char_at(s: Seq<char>, c: char, idx: int)
    requires
        0 <= idx <= s.len(),
        forall|i: int| 0 <= i < idx ==> s[i] != c,
        idx < s.len() ==> s[idx] == c,
    ensures
        find_char(s, c) == idx,
    decreases idx,
{
    if s.len() == 0 {
    } else if idx == 0 {
    } else {
        assert(s[0] != c);
        lemma_find_char_at(s.drop_first(), c, idx - 1);
    }
}

/// Leading whitespace up to the first non-whitespace index is exactly what
/// `trim_start_spec` drops.
pub proof fn lemma_trim_start_at(s: Seq<char>, k: int)
    requires
        0 <= k <= s.len(),
        forall|i: int| 0 <= i < k ==> is_ws_char(s[i]),
        k < s.len() ==> !is_ws_char(s[k]),
    ensures
        trim_start_spec(s) == s.skip(k),
    decreases k,
{
    if k == 0 {
        if s.len() > 0 && is_ws_char(s[0]) {
            assert(false);
        }
        assert(s.skip(0) =~= s);
    } else {
        assert(is_ws_char(s[0]));
        lemma_trim_start_at(s.drop_first(), k - 1);
        assert(s.drop_first().skip(k - 1) =~= s.skip(k));
    }
}

/// Trailing whitespace after the last non-whitespace index is exactly what
/// `trim_end_spec` drops.
pub proof fn lemma_trim_end_at(s: Seq<char>, k: int)
    requires
        0 <= k <= s.len(),
        forall|i: int| k <= i < s.len() ==> is_ws_char(s[i]),
        k > 0 ==> !is_ws_char(s[k - 1]),
    ensures
        trim_end_spec(s) == s.take(k),
    decreases s.len() - k,
{
    if k == s.len() {
        if s.len() > 0 && is_ws_char(s.last()) {
            assert(false);
        }
        assert(s.take(k) =~= s);
    } else {
        assert(is_ws_char(s.last()));
        lemma_trim_end_at(s.drop_last(), k);
        assert(s.drop_last().take(k) =~= s.take(k));
    }
}

/// The manifest key whose line carries the real version.
pub open spec fn iv_prefix() -> Seq<char> {
    "Implementation-Version:"@
}

/// A line with a trailing carriage return dropped.
pub open spec fn strip_cr(l: Seq<char>) -> Seq<char> {
    if l.len() > 0 && l.last() == '\r' {
        l.drop_last()
    } else {
        l
    }
}

/// Whether a manifest line begins with the version key.
pub open spec fn line_matches(l: Seq<char>) -> bool {
    l.len() >= iv_prefix().len() && l.take(iv_prefix().len() as int) == iv_prefix()
}

/// The version a line-oriented manifest text declares: the first line
/// beginning with the version key yields the trimmed remainder after the
/// key's colon; `None` when no line matches.
pub open spec fn manifest_version_spec(s: Seq<char>) -> Option<Seq<char>>
    decreases s.len(),
    via manifest_version_spec_dec
{
    if s.len() == 0 {
        None
    } else {
        let nl = find_char(s, '\n');
        let line = strip_cr(s.take(nl));
        if line_matches(line) {
            Some(trim_spec(line.skip(iv_prefix().len() as int)))
        } else if nl >= s.len() {
            None
        } else {
            manifest_version_spec(s.skip(nl + 1))
        }
    }
}

#[via_fn]
proof fn manifest_version_spec_dec(s: Seq<char>) {
    lemma_find_char(s, '\n');
}

/// Whether a character is ASCII whitespace.
fn is_ws(c: char) -> (b: bool)
    ensures
        b == is_ws_char(c),
{
    c == ' ' || c == '\t' || c == '\r' || c == '\n' || c == '\u{b}' || c == '\u{c}'
}

/// Whether the characters of `pat` occur in `text` starting at `start`.
fn chars_match_at(text: &Vec<char>, start: usize, pat: &Vec<char>) -> (r: bool)
    requires
        start + pat@.len() <= text@.len(),
    ensures
        r == (text@.subrange(start as int, start as int + pat@.len() as int) == pat@),
{
    let m = pat.len();
    let tlen = text.len();
    let mut k: usize = 0;
    while k < m
        invariant
            k <= m,
            m == pat@.len(),
            tlen == text@.len(),
            start + m <= tlen,
            forall|i: int| 0 <= i < k ==> text@[start + i] == pat@[i],
        decreases m - k,
    {
        if text[start + k] != pat[k] {
            proof {
                assert(text@.subrange(start as int, start as int + m as int)[k as int] == text@[
                    start + k
                ]);
            }
            return false;
        }
        k += 1;
    }
    proof {
        assert(text@.subrange(start as int, start as int + m as int) =~= pat@);
    }
    true
}

/// The characters of `text` between `lo` (inclusive) and `hi` (exclusive).
fn collect_range(text: &Vec<char>, lo: usize, hi: usize) -> (r: Vec<char>)
    requires
        lo <= hi <= text@.len(),
    ensures
        r@ == text@.subrange(lo as int, hi as int),
{
    let mut r: Vec<char> = Vec::new();
    let mut i: usize = lo;
    proof {
        assert(r@ =~= text@.subrange(lo as int, lo as int));
    }
    while i < hi
        invariant
            lo <= i <= hi <= text@.len(),
            r@ == text@.subrange(lo as int, i as int),
        decreases hi - i,
    {
        r.push(text[i]);
        proof {
            assert(text@.subrange(lo as int, i as int + 1) =~= text@.subrange(
                lo as int,
                i as int,
            ).push(text@[i as int]));
        }
        i += 1;
    }
    r
}

/// Scans a manifest text for the first line beginning with the version key
/// and returns the trimmed remainder after the key.
#[verifier::rlimit(80)]
pub fn manifest_version(text: &Vec<char>) -> (r: Option<Vec<char>>)
    ensures
        match r {
            Some(v) => manifest_version_spec(text@) == Some(v@),
            None => manifest_version_spec(text@) is None,
        },
{
    let prefix: Vec<char> = str_chars("Implementation-Version:");
    let pl = prefix.len();
    let n = text.len();
    let mut pos: usize = 0;
    proof {
        assert(text@.skip(0) =~= text@);
    }
    loop
        invariant
            pos <= n,
            n == text@.len(),
            prefix@ == iv_prefix(),
            pl == prefix@.len(),
            manifest_version_spec(text@) == manifest_version_spec(text@.skip(pos as int)),
        decreases n - pos,
    {
        let ghost sp = text@.skip(pos as int);
        if pos == n {
            proof {
                assert(sp =~= Seq::<char>::empty());
            }
            return None;
        }
        let mut j: usize = pos;
        while j < n && text[j] != '\n'
            invariant
                pos <= j <= n,
                n == text@.len(),
                forall|k: int| pos <= k < j ==> text@[k] != '\n',
            decreases n - j,
        {
            j += 1;
        }
        let ghost nl = j - pos as int;
        proof {
            assert forall|i: int| 0 <= i < nl implies sp[i] != '\n' by {
                assert(sp[i] == text@[pos + i]);
            }
            if j < n {
                assert(sp[nl] == text@[j as int]);
            }
            lemma_find_char_at(sp, '\n', nl);
        }
        let line_end = if j > pos && text[j - 1] == '\r' {
            j - 1
        } else {
            j
        };
        let ghost line = strip_cr(sp.take(nl));
        proof {
            assert(sp.take(nl) =~= text@.subrange(pos as int, j as int));
            if sp.take(nl).len() > 0 {
                assert(sp.take(nl).last() == text@[j - 1]);
            }
            assert(line =~= text@.subrange(pos as int, line_end as int));
        }
        let llen = line_end - pos;
        let matched = if llen >= pl {
            let hit = chars_match_at(text, pos, &prefix);
            proof {
                assert(line.take(pl as int) =~= text@.subrange(pos as int, pos as int + pl as int));
            }
            hit
        } else {
            false
        };
        if matched {
            let vstart = pos + pl;
            let mut lo = vstart;
            while lo < line_end && is_ws(text[lo])
                invariant
                    vstart <= lo <= line_end <= n,
                    n == text@.len(),
                    forall|k: int| vstart <= k < lo ==> is_ws_char(text@[k]),
                decreases line_end - lo,
            {
                lo += 1;
            }
            let mut hi = line_end;
            while hi > lo && is_ws(text[hi - 1])
                invariant
                    lo <= hi <= line_end <= n,
                    n == text@.len(),
                    forall|k: int| hi <= k < line_end ==> is_ws_char(text@[k]),
                decreases hi,
            {
                hi -= 1;
            }
            let res = collect_range(text, lo, hi);
            proof {
                let tail = line.skip(pl as int);
                assert(tail =~= text@.subrange(vstart as int, line_end as int));
                assert forall|i: int| 0 <= i < lo - vstart implies is_ws_char(tail[i]) by {
                    assert(tail[i] == text@[vstart + i]);
                }
                if lo < line_end {
                    assert(tail[lo - vstart] == text@[lo as int]);
                }
                lemma_trim_start_at(tail, lo - vstart as int);
                let mid = tail.skip(lo - vstart as int);
                assert(mid =~= text@.subrange(lo as int, line_end as int));
                assert forall|i: int| hi - lo <= i < mid.len() implies is_ws_char(mid[i]) by {
                    assert(mid[i] == text@[lo + i]);
                }
                if hi > lo {
                    assert(mid[hi - lo - 1] == text@[hi - 1]);
                }
                lemma_trim_end_at(mid, hi - lo as int);
                assert(mid.take(hi - lo as int) =~= text@.subrange(lo as int, hi as int));
                assert(trim_spec(tail) == res@);
                assert(manifest_version_spec(sp) == Some(res@));
            }
            return Some(res);
        }
        proof {
            assert(!line_matches(line));
        }
        if j == n {
            proof {
                assert(nl >= sp.len());
            }
            return None;
        }
        proof {
            assert(sp.skip(nl + 1) =~= text@.skip(j as int + 1));
        }
        pos = j + 1;
    }
}

/// The build-time placeholder a declared version may hold.
pub open spec fn placeholder() -> Seq<char> {
    "${file.jarVersion}"@
}

/// The resolved version: a declared version other than the placeholder
/// passes through unchanged; the placeholder is answered from the manifest
/// text, and any failure of that lookup falls back to `unknown`.
pub open spec fn resolve_version_spec(declared: Seq<char>, manifest: Option<Seq<char>>) -> Seq<
    char,
> {
    if declared != placeholder() {
        declared
    } else {
        match manifest {
            Some(m) => match manifest_version_spec(m) {
                Some(v) => v,
                None => "unknown"@,
            },
            None => "unknown"@,
        }
    }
}

/// Resolves a declared version against the archive's optional manifest
/// text.
pub fn resolve_version(declared: String, manifest_text: Option<&String>) -> (r: String)
    ensures
        r@ == resolve_version_spec(
            declared@,
            match manifest_text {
                Some(m) => Some(m@),
                None => None,
            },
        ),
{
    if !str_eq(declared.as_str(), "${file.jarVersion}") {
        declared
    } else {
        match manifest_text {
            Some(m) => {
                let chars = str_chars(m.as_str());
                match manifest_version(&chars) {
                    Some(v) => string_from_chars(&v),
                    None => "unknown".to_owned(),
                }
            },
            None => "unknown".to_owned(),
        }
    }
}

/// How looking one entry up in an archive container ends.
enum EntryLookup {
    /// The entry's full contents.
    Found(Vec<u8>),
    /// The container is readable but holds no entry of that name.
    Absent,
    /// The container cannot be read.
    Corrupt,
}

/// The contents of a named entry of an archive given as bytes:
/// `Some(Some(bytes))` when the entry is present, `Some(None)` when the
/// container is readable but has no such entry, `None` when the container
/// cannot be read.
pub uninterp spec fn zip_entry_of(archive: Seq<u8>, name: Seq<char>) -> Option<Option<Seq<u8>>>;

/// Relies on `zip::ZipArchive::new` and `ZipArchive::by_name`: reading a
/// named entry of a byte container is a function of the bytes and the name;
/// `ZipError::FileNotFound` tells a missing entry apart from an unreadable
/// container.
#[verifier::external_body]
fn zip_read_entry(archive: &Vec<u8>, name: &str) -> (r: EntryLookup)
    ensures
        match r {
            EntryLookup::Found(v) => zip_entry_of(archive@, name@) == Some(Some(v@)),
            EntryLookup::Absent => zip_entry_of(archive@, name@) == Some(None::<Seq<u8>>),
            EntryLookup::Corrupt => zip_entry_of(archive@, name@) is None,
        },
{
    let cursor = std::io::Cursor::new(archive.as_slice());
    let mut za = match zip::ZipArchive::new(cursor) {
        Ok(z) => z,
        Err(_) => return EntryLookup::Corrupt,
    };
    let mut entry = match za.by_name(name) {
        Ok(e) => e,
        Err(zip::result::ZipError::FileNotFound) => return EntryLookup::Absent,
        Err(_) => return EntryLookup::Corrupt,
    };
    let mut buf: Vec<u8> = Vec::new();
    match std::io::Read::read_to_end(&mut entry, &mut buf) {
        Ok(_) => EntryLookup::Found(buf),
        Err(_) => EntryLookup::Corrupt,
    }
}

/// The first mod entry a mods metadata text declares, as its identifier,
/// its declared version and its optional display name; `None` when the
/// text is not valid UTF-8, does not parse, or lacks a first mod entry
/// with string identifier and version fields.
pub uninterp spec fn toml_first_mod_of(text: Seq<u8>) -> Option<
    (Seq<char>, Seq<char>, Option<Seq<char>>),
>;

/// Relies on `toml::from_str` and `toml::Value::{get, as_array, as_str}`:
/// parsing a metadata text and reading the `mods` list's first entry is a
/// function of the text alone.
#[verifier::external_body]
fn parse_mods_toml(text: &Vec<u8>) -> (r: Option<(String, String, Option<String>)>)
    ensures
        match r {
            Some(e) => toml_first_mod_of(text@) == Some((e.0@, e.1@, opt_view(e.2))),
            None => toml_first_mod_of(text@) is None,
        },
{
    let s = std::str::from_utf8(text.as_slice()).ok()?;
    let v: toml::Value = toml::from_str(s).ok()?;
    let m = v.get("mods")?.as_array()?.first()?;
    let mod_id = m.get("modId")?.as_str()?.to_string();
    let version = m.get("version")?.as_str()?.to_string();
    let display_name = match m.get("displayName") {
        Some(d) => Some(d.as_str()?.to_string()),
        None => None,
    };
    Some((mod_id, version, display_name))
}

/// Relies on `String::from_utf8`: it succeeds exactly on valid UTF-8 and
/// yields the decoded characters.
#[verifier::external_body]
fn string_from_utf8(v: Vec<u8>) -> (r: Option<String>)
    ensures
        match r {
            Some(s) => valid_utf8(v@) && s@ == decode_utf8(v@),
            None => !valid_utf8(v@),
        },
{
    match String::from_utf8(v) {
        Ok(s) => Some(s),
        Err(_) => None,
    }
}

/// The archive entry that declares the mods metadata.
pub open spec fn mods_entry_name() -> Seq<char> {
    "META-INF/neoforge.mods.toml"@
}

/// The archive entry that may carry the real version.
pub open spec fn manifest_entry_name() -> Seq<char> {
    "META-INF/MANIFEST.MF"@
}

/// The manifest text of an archive: its manifest entry decoded as UTF-8;
/// `None` when the entry is absent, unreadable, or not valid UTF-8.
pub open spec fn manifest_text_of(archive: Seq<u8>) -> Option<Seq<char>> {
    match zip_entry_of(archive, manifest_entry_name()) {
        Some(Some(mb)) => if valid_utf8(mb) {
            Some(decode_utf8(mb))
        } else {
            None
        },
        _ => None,
    }
}

/// Extracts the normalized identity of the mod an archive declares: the
/// first mod entry of its mods metadata, with the version placeholder
/// resolved against the manifest entry. A failing manifest lookup softly
/// falls back to `unknown`; a missing or malformed mods metadata entry is
/// an error.
pub fn get_mod_info(archive: &Vec<u8>) -> (r: Result<ModInfo, ExtractError>)
    ensures
        ({
            let t = zip_entry_of(archive@, mods_entry_name());
            match r {
                Ok(info) => t matches Some(Some(tb)) && toml_first_mod_of(tb) matches Some(e)
                    && e.0.len() > 0 && info.mod_id@ == e.0 && opt_view(info.display_name) == e.2
                    && info.version@ == resolve_version_spec(e.1, manifest_text_of(archive@)),
                Err(ExtractError::ArchiveCorrupt) => t is None,
                Err(ExtractError::ManifestMissing) => t == Some(None::<Seq<u8>>),
                Err(ExtractError::ManifestMalformed) => t matches Some(Some(tb)) && (
                toml_first_mod_of(tb) is None || (toml_first_mod_of(tb) matches Some(e) && e.0.len()
                    == 0)),
            }
        }),
{
    let toml_bytes = match zip_read_entry(archive, "META-INF/neoforge.mods.toml") {
        EntryLookup::Found(b) => b,
        EntryLookup::Absent => {
            return Err(ExtractError::ManifestMissing);
        },
        EntryLookup::Corrupt => {
            return Err(ExtractError::ArchiveCorrupt);
        },
    };
    let (mod_id, declared_version, display_name) = match parse_mods_toml(&toml_bytes) {
        Some(e) => e,
        None => {
            return Err(ExtractError::ManifestMalformed);
        },
    };
    if mod_id.as_str().is_empty() {
        return Err(ExtractError::ManifestMalformed);
    }
    let manifest_text = match zip_read_entry(archive, "META-INF/MANIFEST.MF") {
        EntryLookup::Found(mb) => string_from_utf8(mb),
        EntryLookup::Absent => None,
        EntryLookup::Corrupt => None,
    };
    let version = resolve_version(declared_version, manifest_text.as_ref());
    Ok(ModInfo { mod_id, display_name, version })
}

} // verus!
