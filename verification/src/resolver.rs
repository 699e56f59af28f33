//! The tag and name resolver: a pure function from a mod's identity, an
//! optional localized name, an optional registry record and a category
//! translation map to the fully resolved naming components.

use vstd::prelude::*;
use crate::identity::ModInfo;
use crate::modrinthapi::ModrinthProject;

verus! {

/// Exact character-sequence equality of two string slices.
pub fn str_eq(a: &str, b: &str) -> (r: bool)
    ensures
        r == (a@ == b@),
{
    let sa: String = a.to_owned();
    let sb: String = b.to_owned();
    sa == sb
}

/// The character sequences of a sequence of strings.
pub open spec fn views_of(v: Seq<String>) -> Seq<Seq<char>> {
    v.map_values(|s: String| s@)
}

/// The character sequence of an optional string.
pub open spec fn opt_view(o: Option<String>) -> Option<Seq<char>> {
    match o {
        Some(s) => Some(s@),
        None => None,
    }
}

/// The integer code of one side-support axis value: `unsupported` is -1,
/// `optional` is 0, `required` is 1, and anything else is -99 (unknown).
pub open spec fn side_code_spec(s: Seq<char>) -> int {
    if s == "unsupported"@ {
        -1
    } else if s == "optional"@ {
        0
    } else if s == "required"@ {
        1
    } else {
        -99
    }
}

/// Maps one side-support axis value to its integer code.
pub fn side_code(s: &str) -> (r: i32)
    ensures
        r as int == side_code_spec(s@),
{
    if str_eq(s, "unsupported") {
        -1
    } else if str_eq(s, "optional") {
        0
    } else if str_eq(s, "required") {
        1
    } else {
        -99
    }
}

/// Whether a `(client, server)` code pair is one of the seven listed pairs
/// that carry a non-empty side tag.
pub open spec fn listed_side_pair(c: int, s: int) -> bool {
    ||| (c == 1 && s == 1)
    ||| (c == 0 && s == 0)
    ||| (c == -1 && s == -1)
    ||| (c == 1 && s == 0)
    ||| (c == 0 && s == 1)
    ||| (c == 1 && s == -1)
    ||| (c == -1 && s == 1)
}

/// The side tag for a `(client, server)` code pair; every pair outside the
/// seven-row table yields the empty tag.
pub open spec fn side_tag_spec(c: int, s: int) -> Seq<char> {
    if c == 1 && s == 1 {
        "[C&S]"@
    } else if c == 0 && s == 0 {
        "[C|S]"@
    } else if c == -1 && s == -1 {
        "[Toxic]"@
    } else if c == 1 && s == 0 {
        "[C]"@
    } else if c == 0 && s == 1 {
        "[S]"@
    } else if c == 1 && s == -1 {
        "[!S]"@
    } else if c == -1 && s == 1 {
        "[!C]"@
    } else {
        Seq::<char>::empty()
    }
}

/// A `(client, server)` code pair outside the seven-row table always yields
/// the empty side tag; in particular the all-unknown pair (-99, -99) does.
pub proof fn lemma_unlisted_pair_empty_side_tag(c: int, s: int)
    requires
        !listed_side_pair(c, s),
    ensures
        side_tag_spec(c, s) == Seq::<char>::empty(),
{
}

/// Builds the side tag of a `(client, server)` code pair.
pub fn side_tag(c: i32, s: i32) -> (r: String)
    ensures
        r@ == side_tag_spec(c as int, s as int),
{
    if c == 1 && s == 1 {
        "[C&S]".to_owned()
    } else if c == 0 && s == 0 {
        "[C|S]".to_owned()
    } else if c == -1 && s == -1 {
        "[Toxic]".to_owned()
    } else if c == 1 && s == 0 {
        "[C]".to_owned()
    } else if c == 0 && s == 1 {
        "[S]".to_owned()
    } else if c == 1 && s == -1 {
        "[!S]".to_owned()
    } else if c == -1 && s == 1 {
        "[!C]".to_owned()
    } else {
        String::new()
    }
}

/// A read-only mapping from category identifiers to localized strings.
/// Entries added later take precedence over earlier ones with the same key.
pub struct TranslationMap {
    entries: Vec<(String, String)>,
}

/// The map held by a sequence of key/value pairs, where an earlier pair
/// wins over a later pair with the same key.
pub open spec fn entries_map(s: Seq<(String, String)>) -> Map<Seq<char>, Seq<char>>
    decreases s.len(),
{
    if s.len() == 0 {
        Map::<Seq<char>, Seq<char>>::empty()
    } else {
        entries_map(s.drop_first()).insert(s[0].0@, s[0].1@)
    }
}

impl TranslationMap {
    pub closed spec fn view(&self) -> Map<Seq<char>, Seq<char>> {
        entries_map(self.entries@)
    }

    /// An empty translation map.
    pub fn new() -> (r: Self)
        ensures
            r@ == Map::<Seq<char>, Seq<char>>::empty(),
    {
        TranslationMap { entries: Vec::new() }
    }

    /// Adds one category translation; an existing entry for the same key is
    /// overridden.
    pub fn insert(&mut self, key: String, value: String)
        ensures
            final(self)@ == old(self)@.insert(key@, value@),
    {
        let ghost before = self.entries@;
        self.entries.insert(0, (key, value));
        proof {
            assert(self.entries@.drop_first() =~= before);
        }
    }

    /// Looks a category identifier up; `None` means the map holds no entry
    /// for it.
    pub fn get(&self, key: &String) -> (r: Option<&String>)
        ensures
            match r {
                Some(v) => self@.contains_key(key@) && self@[key@] == v@,
                None => !self@.contains_key(key@),
            },
    {
        let n = self.entries.len();
        let mut i: usize = 0;
        proof {
            assert(self.entries@.skip(0) =~= self.entries@);
        }
        while i < n
            invariant
                n == self.entries@.len(),
                i <= n,
                entries_map(self.entries@).contains_key(key@) == entries_map(
                    self.entries@.skip(i as int),
                ).contains_key(key@),
                entries_map(self.entries@).contains_key(key@) ==> entries_map(self.entries@)[key@]
                    == entries_map(self.entries@.skip(i as int))[key@],
            decreases n - i,
        {
            let ghost rest = self.entries@.skip(i as int);
            proof {
                assert(rest.drop_first() =~= self.entries@.skip(i as int + 1));
                assert(rest[0] == self.entries@[i as int]);
            }
            if str_eq(self.entries[i].0.as_str(), key.as_str()) {
                return Some(&self.entries[i].1);
            }
            i += 1;
        }
        proof {
            assert(self.entries@.skip(n as int) =~= Seq::<(String, String)>::empty());
        }
        None
    }
}

/// The value a category identifier resolves to: its entry in the
/// translation map if one is present, else the identifier itself.
pub open spec fn translate_cat_spec(m: Map<Seq<char>, Seq<char>>, c: Seq<char>) -> Seq<char> {
    if m.contains_key(c) {
        m[c]
    } else {
        c
    }
}

/// One category identifier wrapped in brackets.
pub open spec fn bracketed(s: Seq<char>) -> Seq<char> {
    seq!['['] + s + seq![']']
}

/// The category tag: every category, in order, translated through the map
/// and individually bracketed; an empty sequence yields the empty tag.
pub open spec fn category_tag_spec(cats: Seq<Seq<char>>, m: Map<Seq<char>, Seq<char>>) -> Seq<char>
    decreases cats.len(),
{
    if cats.len() == 0 {
        Seq::<char>::empty()
    } else {
        bracketed(translate_cat_spec(m, cats[0])) + category_tag_spec(cats.drop_first(), m)
    }
}

/// Appending one category to the sequence appends its bracketed translation
/// to the tag.
pub proof fn lemma_category_tag_snoc(cats: Seq<Seq<char>>, m: Map<Seq<char>, Seq<char>>, x: Seq<char>)
    ensures
        category_tag_spec(cats.push(x), m) == category_tag_spec(cats, m) + bracketed(
            translate_cat_spec(m, x),
        ),
    decreases cats.len(),
{
    if cats.len() == 0 {
        let t = bracketed(translate_cat_spec(m, x));
        assert(cats.push(x).drop_first() =~= Seq::<Seq<char>>::empty());
        assert(category_tag_spec(Seq::<Seq<char>>::empty(), m) == Seq::<char>::empty());
        assert(cats.push(x)[0] == x);
        assert(category_tag_spec(cats.push(x), m) == t + Seq::<char>::empty());
        assert(category_tag_spec(cats, m) == Seq::<char>::empty());
        assert(t + Seq::<char>::empty() =~= Seq::<char>::empty() + t);
    } else {
        let rest = cats.drop_first();
        let t = bracketed(translate_cat_spec(m, x));
        let h = bracketed(translate_cat_spec(m, cats[0]));
        assert(cats.push(x).drop_first() =~= rest.push(x));
        lemma_category_tag_snoc(rest, m, x);
        assert(cats.push(x)[0] == cats[0]);
        assert(category_tag_spec(cats.push(x), m) == h + category_tag_spec(rest.push(x), m));
        assert(category_tag_spec(rest.push(x), m) == category_tag_spec(rest, m) + t);
        assert(category_tag_spec(cats, m) == h + category_tag_spec(rest, m));
        assert(h + (category_tag_spec(rest, m) + t) =~= (h + category_tag_spec(rest, m)) + t);
    }
}

/// How often a character occurs in a sequence.
pub open spec fn count_char(s: Seq<char>, c: char) -> int
    decreases s.len(),
{
    if s.len() == 0 {
        0
    } else {
        (if s[0] == c {
            1int
        } else {
            0int
        }) + count_char(s.drop_first(), c)
    }
}

/// Character counts add up over concatenation.
pub proof fn lemma_count_char_add(a: Seq<char>, b: Seq<char>, c: char)
    ensures
        count_char(a + b, c) == count_char(a, c) + count_char(b, c),
    decreases a.len(),
{
    if a.len() == 0 {
        assert(a + b =~= b);
    } else {
        assert((a + b).drop_first() =~= a.drop_first() + b);
        assert((a + b)[0] == a[0]);
        lemma_count_char_add(a.drop_first(), b, c);
    }
}

/// A character absent from a sequence has count zero.
pub proof fn lemma_count_char_absent(s: Seq<char>, c: char)
    requires
        !s.contains(c),
    ensures
        count_char(s, c) == 0,
    decreases s.len(),
{
    if s.len() > 0 {
        assert(s[0] != c);
        assert(!s.drop_first().contains(c)) by {
            if s.drop_first().contains(c) {
                let i = choose|i: int| 0 <= i < s.drop_first().len() && s.drop_first()[i] == c;
                assert(s[i + 1] == c);
            }
        }
        lemma_count_char_absent(s.drop_first(), c);
    }
}

/// A non-empty category sequence whose resolved entries hold no bracket
/// characters yields a tag with exactly one bracket pair per category,
/// order preserved and each entry substituted independently through the
/// map.
pub proof fn lemma_category_tag_bracket_count(cats: Seq<Seq<char>>, m: Map<Seq<char>, Seq<char>>)
    requires
        forall|i: int| 0 <= i < cats.len() ==> !#[trigger] translate_cat_spec(m, cats[i]).contains(
            '[',
        ) && !translate_cat_spec(m, cats[i]).contains(']'),
    ensures
        count_char(category_tag_spec(cats, m), '[') == cats.len(),
        count_char(category_tag_spec(cats, m), ']') == cats.len(),
    decreases cats.len(),
{
    if cats.len() == 0 {
    } else {
        let t = translate_cat_spec(m, cats[0]);
        let rest = cats.drop_first();
        assert(forall|i: int|
            0 <= i < rest.len() ==> rest[i] == cats[i + 1] && !#[trigger] translate_cat_spec(
                m,
                rest[i],
            ).contains('[') && !translate_cat_spec(m, rest[i]).contains(']'));
        lemma_category_tag_bracket_count(rest, m);
        let open_b = seq!['['];
        let close_b = seq![']'];
        assert(count_char(open_b, '[') == 1 && count_char(open_b, ']') == 0 && count_char(
            close_b,
            '[',
        ) == 0 && count_char(close_b, ']') == 1) by {
            assert(count_char(Seq::<char>::empty(), '[') == 0);
            assert(count_char(Seq::<char>::empty(), ']') == 0);
            assert(open_b.drop_first() =~= Seq::<char>::empty());
            assert(close_b.drop_first() =~= Seq::<char>::empty());
        }
        lemma_count_char_absent(t, '[');
        lemma_count_char_absent(t, ']');
        lemma_count_char_add(open_b, t, '[');
        lemma_count_char_add(open_b + t, close_b, '[');
        lemma_count_char_add(bracketed(t), category_tag_spec(rest, m), '[');
        lemma_count_char_add(open_b, t, ']');
        lemma_count_char_add(open_b + t, close_b, ']');
        lemma_count_char_add(bracketed(t), category_tag_spec(rest, m), ']');
        assert(bracketed(t) =~= (open_b + t) + close_b);
    }
}

/// Builds the category tag of a category sequence under a translation map.
pub fn category_tag(cats: &Vec<String>, map: &TranslationMap) -> (r: String)
    ensures
        r@ == category_tag_spec(views_of(cats@), map@),
{
    let mut r = String::new();
    let n = cats.len();
    let mut i: usize = 0;
    while i < n
        invariant
            n == cats@.len(),
            i <= n,
            r@ == category_tag_spec(views_of(cats@).take(i as int), map@),
        decreases n - i,
    {
        let ghost done = views_of(cats@).take(i as int);
        r.append("[");
        match map.get(&cats[i]) {
            Some(v) => r.append(v.as_str()),
            None => r.append(cats[i].as_str()),
        }
        r.append("]");
        proof {
            reveal_strlit("[");
            reveal_strlit("]");
            assert("["@ =~= seq!['[']);
            assert("]"@ =~= seq![']']);
            let cs = views_of(cats@);
            assert(cs[i as int] == cats@[i as int]@);
            lemma_category_tag_snoc(done, map@, cs[i as int]);
            assert(cs.take(i as int + 1) =~= done.push(cs[i as int]));
            assert(r@ =~= category_tag_spec(cs.take(i as int + 1), map@));
        }
        i += 1;
    }
    proof {
        assert(views_of(cats@).take(n as int) =~= views_of(cats@));
    }
    r
}

/// The resolved display string: the first non-empty of the localized name,
/// the declared display name, and the mod identifier.
pub open spec fn resolved_name_spec(
    localized: Option<Seq<char>>,
    display: Option<Seq<char>>,
    mod_id: Seq<char>,
) -> Seq<char> {
    if localized is Some && localized->Some_0.len() > 0 {
        localized->Some_0
    } else if display is Some && display->Some_0.len() > 0 {
        display->Some_0
    } else {
        mod_id
    }
}

/// A non-empty localized name always overrides the display name and the mod
/// identifier; an empty or absent localized name falls back to a non-empty
/// display name; when both are empty or absent the mod identifier is used.
pub proof fn lemma_name_precedence(
    localized: Option<Seq<char>>,
    display: Option<Seq<char>>,
    mod_id: Seq<char>,
)
    ensures
        localized is Some && localized->Some_0.len() > 0 ==> resolved_name_spec(
            localized,
            display,
            mod_id,
        ) == localized->Some_0,
        (localized is None || localized->Some_0.len() == 0) && display is Some
            && display->Some_0.len() > 0 ==> resolved_name_spec(localized, display, mod_id)
            == display->Some_0,
        (localized is None || localized->Some_0.len() == 0) && (display is None
            || display->Some_0.len() == 0) ==> resolved_name_spec(localized, display, mod_id)
            == mod_id,
        mod_id.len() > 0 ==> resolved_name_spec(localized, display, mod_id).len() > 0,
{
}

/// Picks the resolved display string of a mod.
pub fn resolve_name(localized: &Option<String>, display: &Option<String>, mod_id: &String) -> (r:
    String)
    ensures
        r@ == resolved_name_spec(opt_view(*localized), opt_view(*display), mod_id@),
{
    match localized {
        Some(l) if !l.as_str().is_empty() => l.clone(),
        _ => match display {
            Some(d) if !d.as_str().is_empty() => d.clone(),
            _ => mod_id.clone(),
        },
    }
}

/// The fully resolved naming components for one archive.
#[derive(Debug, Clone)]
pub struct ResolvedLabel {
    pub side_tag: String,
    pub category_tag: String,
    pub final_name: String,
    pub version: String,
}

/// The `(client, server)` code pair of an optional registry record; an
/// absent record counts as unknown on both axes.
pub open spec fn record_codes(r: Option<ModrinthProject>) -> (int, int) {
    match r {
        Some(p) => (side_code_spec(p.client_side@), side_code_spec(p.server_side@)),
        None => (-99, -99),
    }
}

/// The category sequence of an optional registry record; an absent record
/// has none.
pub open spec fn record_categories(r: Option<ModrinthProject>) -> Seq<Seq<char>> {
    match r {
        Some(p) => views_of(p.categories@),
        None => Seq::<Seq<char>>::empty(),
    }
}

/// The final file name composed from the tags, the resolved display string
/// and the version; absent tags contribute the empty string, with no extra
/// delimiters.
pub open spec fn final_name_spec(
    side_tag: Seq<char>,
    category_tag: Seq<char>,
    name: Seq<char>,
    version: Seq<char>,
) -> Seq<char> {
    side_tag + category_tag + name + "-"@ + version + ".jar"@
}

/// Combines a mod's identity, an optional localized name, an optional
/// registry record and the category translation map into the resolved
/// naming components.
pub fn resolve_label(
    info: &ModInfo,
    localized: &Option<String>,
    record: &Option<ModrinthProject>,
    map: &TranslationMap,
) -> (r: ResolvedLabel)
    ensures
        r.side_tag@ == side_tag_spec(record_codes(*record).0, record_codes(*record).1),
        r.category_tag@ == category_tag_spec(record_categories(*record), map@),
        r.version@ == info.version@,
        r.final_name@ == final_name_spec(
            r.side_tag@,
            r.category_tag@,
            resolved_name_spec(
                opt_view(*localized),
                opt_view(info.display_name),
                info.mod_id@,
            ),
            info.version@,
        ),
        r.final_name@.len() > 0,
{
    let name = resolve_name(localized, &info.display_name, &info.mod_id);
    let (stag, ctag) = match record {
        Some(p) => (
            side_tag(side_code(p.client_side.as_str()), side_code(p.server_side.as_str())),
            category_tag(&p.categories, map),
        ),
        None => (String::new(), String::new()),
    };
    let mut full = stag.clone();
    full.append(ctag.as_str());
    full.append(name.as_str());
    full.append("-");
    full.append(info.version.as_str());
    full.append(".jar");
    proof {
        if record is None {
            assert(category_tag_spec(record_categories(*record), map@) == Seq::<char>::empty());
        }
        reveal_strlit(".jar");
    }
    ResolvedLabel { side_tag: stag, category_tag: ctag, final_name: full, version: info.version.clone() }
}

} // verus!
