//! The rename executor's verified half: strips filesystem-unsafe
//! characters from a composed file name and decides whether a rename is
//! performed, skipped as redundant, or skipped to avoid a conflict.

use vstd::prelude::*;
use crate::resolver::{str_eq, ResolvedLabel};

verus! {

/// Whether a character is stripped from file names: one of the characters
/// that at least one common platform refuses in a file name.
pub open spec fn is_unsafe_char(c: char) -> bool {
    c == '/' || c == '\\' || c == ':' || c == '*' || c == '?' || c == '"' || c == '<' || c == '>'
        || c == '|'
}

/// A file name with every unsafe character deleted.
pub open spec fn strip_spec(s: Seq<char>) -> Seq<char> {
    s.filter(|c: char| !is_unsafe_char(c))
}

/// Appending one character to the input appends either that character or
/// nothing to the stripped result.
proof fn lemma_strip_push(s: Seq<char>, c: char)
    ensures
        strip_spec(s.push(c)) == if is_unsafe_char(c) {
            strip_spec(s)
        } else {
            strip_spec(s).push(c)
        },
{
    reveal(Seq::filter);
    assert(s.push(c).drop_last() =~= s);
    assert(s.push(c).last() == c);
    if !is_unsafe_char(c) {
        assert(strip_spec(s.push(c)) =~= strip_spec(s).push(c));
    }
}

/// Stripping is idempotent: applying it twice yields the same result as
/// applying it once.
pub proof fn lemma_strip_idempotent(s: Seq<char>)
    ensures
        strip_spec(strip_spec(s)) == strip_spec(s),
    decreases s.len(),
{
    reveal(Seq::filter);
    if s.len() == 0 {
        assert(strip_spec(s) =~= s);
        assert(strip_spec(strip_spec(s)) =~= s);
    } else {
        let d = s.drop_last();
        let c = s.last();
        lemma_strip_idempotent(d);
        assert(s == d.push(c));
        lemma_strip_push(d, c);
        if is_unsafe_char(c) {
            assert(strip_spec(s) == strip_spec(d));
        } else {
            assert(strip_spec(s) == strip_spec(d).push(c));
            lemma_strip_push(strip_spec(d), c);
        }
    }
}

/// The character sequence of a string slice, as a vector of characters.
pub fn str_chars(s: &str) -> (r: Vec<char>)
    ensures
        r@ == s@,
{
    let n = s.unicode_len();
    let mut r: Vec<char> = Vec::new();
    let mut i: usize = 0;
    while i < n
        invariant
            n == s@.len(),
            i <= n,
            r@ == s@.take(i as int),
        decreases n - i,
    {
        r.push(s.get_char(i));
        proof {
            assert(s@.take(i as int + 1) =~= s@.take(i as int).push(s@[i as int]));
        }
        i += 1;
    }
    proof {
        assert(s@.take(n as int) =~= s@);
    }
    r
}

/// Relies on `String: FromIterator<char>`: collecting characters yields the
/// string holding exactly that character sequence.
#[verifier::external_body]
pub(crate) fn string_from_chars(v: &Vec<char>) -> (r: String)
    ensures
        r@ == v@,
{
    v.iter().collect()
}

/// Deletes every unsafe character from a composed file name.
pub fn strip_unsafe(s: &str) -> (r: String)
    ensures
        r@ == strip_spec(s@),
{
    let chars = str_chars(s);
    let n = chars.len();
    let mut kept: Vec<char> = Vec::new();
    let mut i: usize = 0;
    proof {
        reveal(Seq::filter);
        assert(s@.take(0) =~= Seq::<char>::empty());
        assert(kept@ =~= strip_spec(s@.take(0)));
    }
    while i < n
        invariant
            n == s@.len(),
            chars@ == s@,
            i <= n,
            kept@ == strip_spec(s@.take(i as int)),
        decreases n - i,
    {
        let c = chars[i];
        let keep = !(c == '/' || c == '\\' || c == ':' || c == '*' || c == '?' || c == '"' || c
            == '<' || c == '>' || c == '|');
        if keep {
            kept.push(c);
        }
        proof {
            assert(s@.take(i as int + 1) =~= s@.take(i as int).push(s@[i as int]));
            lemma_strip_push(s@.take(i as int), s@[i as int]);
        }
        i += 1;
    }
    proof {
        assert(s@.take(n as int) =~= s@);
    }
    string_from_chars(&kept)
}

/// The filesystem-safe rename target for a resolved label: its final name
/// with every unsafe character deleted.
pub fn target_file_name(label: &ResolvedLabel) -> (r: String)
    ensures
        r@ == strip_spec(label.final_name@),
{
    strip_unsafe(label.final_name.as_str())
}

/// What the rename executor does with one archive.
#[derive(Debug, PartialEq, Eq)]
pub enum RenameAction {
    /// The file is renamed to the target name.
    Perform,
    /// The target equals the source: nothing to do.
    SkipSameName,
    /// A different file already holds the target name: the rename is
    /// skipped to avoid overwriting it.
    SkipTargetExists,
}

/// The rename decision: a target equal to the source is a no-op, an
/// occupied target is skipped, and anything else is performed.
pub open spec fn rename_action_spec(
    source: Seq<char>,
    target: Seq<char>,
    target_exists: bool,
) -> RenameAction {
    if source == target {
        RenameAction::SkipSameName
    } else if target_exists {
        RenameAction::SkipTargetExists
    } else {
        RenameAction::Perform
    }
}

/// Decides what the rename executor does, from the source file name, the
/// target file name, and whether a file already exists at the target.
pub fn decide_rename(source_name: &String, target_name: &String, target_exists: bool) -> (a:
    RenameAction)
    ensures
        a == rename_action_spec(source_name@, target_name@, target_exists),
{
    if str_eq(source_name.as_str(), target_name.as_str()) {
        RenameAction::SkipSameName
    } else if target_exists {
        RenameAction::SkipTargetExists
    } else {
        RenameAction::Perform
    }
}

} // verus!
