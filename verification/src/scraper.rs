//! What the page scraper reads out of HTML: the JSON text that
//! server-rendered pages embed, and the page's title and meta tags.

use vstd::prelude::*;

use crate::pattern::{
    get_group, get_group_or_empty, group, group_or_empty, regex_all_captures, regex_captures,
    regex_captures_all, regex_compiles, regex_first_captures,
};
use crate::text::{concat2, concat3, str_equal};

verus! {

/// Group 1 of the first match of `pattern` in `html`, when the pattern
/// compiles, matches, and the group took part.
pub open spec fn first_group_text(pattern: Seq<char>, html: Seq<char>) -> Option<Seq<char>> {
    if !regex_compiles(pattern) {
        None
    } else {
        match regex_first_captures(pattern, html) {
            Some(groups) => group(groups, 1),
            None => None,
        }
    }
}

/// Group 1 of the first match of `pattern` in `html`.
pub fn first_group(pattern: &str, html: &str) -> (r: Option<String>)
    ensures
        match r {
            Some(t) => first_group_text(pattern@, html@) == Some(t@),
            None => first_group_text(pattern@, html@) is None,
        },
{
    match regex_captures(pattern, html) {
        Some(Some(groups)) => get_group(&groups, 1),
        _ => None,
    }
}

/// The pattern of the `<script id="__NEXT_DATA__" type="application/json">`
/// element of a server-rendered page.
pub open spec fn next_data_pattern() -> Seq<char> {
    r#"<script[^>]*id="__NEXT_DATA__"[^>]*type="application/json"[^>]*>(.*?)</script>"#@
}

/// The JSON text inside the page's `__NEXT_DATA__` script element; the
/// caller parses it (`None` there, too, when it is not valid JSON).
pub fn next_data_text(html: &str) -> (r: Option<String>)
    ensures
        match r {
            Some(t) => first_group_text(next_data_pattern(), html@) == Some(t@),
            None => first_group_text(next_data_pattern(), html@) is None,
        },
{
    first_group(
        r#"<script[^>]*id="__NEXT_DATA__"[^>]*type="application/json"[^>]*>(.*?)</script>"#,
        html,
    )
}

/// The pattern of the assignment `window.__{var_name}__ = {...};`
/// (`var_name` is written into the pattern as it is).
pub open spec fn initial_state_pattern(var_name: Seq<char>) -> Seq<char> {
    r"window\.__"@ + var_name + r"__\s*=\s*(\{.*?\})\s*;"@
}

/// The JSON text assigned to the global `window.__{var_name}__`; the caller
/// parses it.
pub fn initial_state_text(html: &str, var_name: &str) -> (r: Option<String>)
    ensures
        match r {
            Some(t) => first_group_text(initial_state_pattern(var_name@), html@) == Some(t@),
            None => first_group_text(initial_state_pattern(var_name@), html@) is None,
        },
{
    let pattern = concat3(r"window\.__", var_name, r"__\s*=\s*(\{.*?\})\s*;");
    first_group(pattern.as_str(), html)
}

/// Position `i` holds the entry named `k`.
pub open spec fn has_key_at(s: Seq<(String, String)>, k: Seq<char>, i: int) -> bool {
    0 <= i < s.len() && s[i].0@ == k
}

/// The position of the entry named `key`, scanning from the front.
fn find_key(entries: &Vec<(String, String)>, key: &str) -> (r: Option<usize>)
    ensures
        match r {
            Some(i) => i < entries@.len() && entries@[i as int].0@ == key@ && forall|j: int|
                0 <= j < i ==> entries@[j].0@ != key@,
            None => forall|j: int| 0 <= j < entries@.len() ==> entries@[j].0@ != key@,
        },
{
    let mut i: usize = 0;
    while i < entries.len()
        invariant
            i <= entries.len(),
            forall|j: int| 0 <= j < i ==> entries@[j].0@ != key@,
        decreases entries.len() - i,
    {
        if str_equal(entries[i].0.as_str(), key) {
            return Some(i);
        }
        i = i + 1;
    }
    None
}

/// A text-to-text map with one entry per key.
pub struct MetaMap {
    entries: Vec<(String, String)>,
}

impl View for MetaMap {
    type V = Map<Seq<char>, Seq<char>>;

    closed spec fn view(&self) -> Map<Seq<char>, Seq<char>> {
        Map::new(
            |k: Seq<char>| exists|i: int| #[trigger] has_key_at(self.entries@, k, i),
            |k: Seq<char>| self.entries@[choose|i: int| #[trigger] has_key_at(self.entries@, k, i)].1@,
        )
    }
}

impl MetaMap {
    #[verifier::type_invariant]
    closed spec fn keys_distinct(&self) -> bool {
        forall|i: int, j: int|
            0 <= i < j < self.entries@.len() ==> #[trigger] self.entries@[i].0@ != #[trigger] self.entries@[j].0@
    }

    /// An empty map.
    pub fn new() -> (r: MetaMap)
        ensures
            r@ == Map::<Seq<char>, Seq<char>>::empty(),
    {
        let r = MetaMap { entries: Vec::new() };
        assert(r@ =~= Map::<Seq<char>, Seq<char>>::empty());
        r
    }

    /// The number of keys.
    pub fn len(&self) -> (r: usize)
        ensures
            r == self@.len(),
    {
        proof {
            use_type_invariant(self);
            self.lemma_len();
        }
        self.entries.len()
    }

    proof fn lemma_len(&self)
        requires
            forall|i: int, j: int|
                0 <= i < j < self.entries@.len() ==> #[trigger] self.entries@[i].0@ != #[trigger] self.entries@[j].0@,
        ensures
            self@.len() == self.entries@.len(),
            self@.dom().finite(),
    {
        let keys = self.entries@.map_values(|e: (String, String)| e.0@);
        assert forall|i: int, j: int| 0 <= i < j < keys.len() implies keys[i] != keys[j] by {
            assert(keys[i] == self.entries@[i].0@);
            assert(keys[j] == self.entries@[j].0@);
        }
        assert(keys.no_duplicates());
        assert(self@.dom() =~= keys.to_set()) by {
            assert forall|k: Seq<char>| self@.dom().contains(k) implies keys.to_set().contains(k) by {
                let i = choose|i: int| #[trigger] has_key_at(self.entries@, k, i);
                assert(keys[i] == k);
            }
            assert forall|k: Seq<char>| keys.to_set().contains(k) implies self@.dom().contains(k) by {
                let i = choose|i: int| 0 <= i < keys.len() && keys[i] == k;
                assert(has_key_at(self.entries@, k, i));
            }
        }
        keys.unique_seq_to_set();
    }

    /// The value under `key`.
    pub fn get(&self, key: &str) -> (r: Option<&String>)
        ensures
            match r {
                Some(v) => self@.contains_key(key@) && self@[key@] == v@,
                None => !self@.contains_key(key@),
            },
    {
        proof {
            use_type_invariant(self);
        }
        match find_key(&self.entries, key) {
            Some(i) => {
                proof {
                    assert(has_key_at(self.entries@, key@, i as int));
                    let j = choose|j: int| #[trigger] has_key_at(self.entries@, key@, j);
                    if j != i {
                        assert(self.entries@[j].0@ == self.entries@[i as int].0@);
                    }
                }
                Some(&self.entries[i].1)
            },
            None => None,
        }
    }

    /// Sets `key` to `value`, replacing any earlier value.
    pub fn insert(&mut self, key: String, value: String)
        ensures
            final(self)@ == old(self)@.insert(key@, value@),
    {
        proof {
            use_type_invariant(&*self);
        }
        let ghost old_map = self@;
        let mut entries: Vec<(String, String)> = Vec::new();
        std::mem::swap(&mut entries, &mut self.entries);
        let ghost s = entries@;
        assert(forall|a: int, b: int| 0 <= a < b < s.len() ==> #[trigger] s[a].0@ != #[trigger] s[b].0@);
        let found = find_key(&entries, key.as_str());
        let i: usize = match found {
            Some(i) => i,
            None => entries.len(),
        };
        let ghost k = key@;
        let ghost val = value@;
        if i < entries.len() {
            entries.set(i, (key, value));
        } else {
            entries.push((key, value));
        }
        let ghost w = entries@;
        proof {
            assert forall|a: int, b: int| 0 <= a < b < w.len() implies #[trigger] w[a].0@ != #[trigger] w[b].0@ by {
                if i < s.len() {
                    if a == i {
                        assert(s[b].0@ != s[a].0@);
                    } else if b == i {
                        assert(s[b].0@ != s[a].0@);
                    }
                } else if b == s.len() {
                    assert(s[a].0@ != k);
                }
            }
        }
        self.entries = entries;
        proof {
            assert forall|k2: Seq<char>| #![auto] self@.contains_key(k2) == old_map.insert(k, val).contains_key(k2) by {
                if exists|j: int| #[trigger] has_key_at(s, k2, j) {
                    let j = choose|j: int| #[trigger] has_key_at(s, k2, j);
                    if i < s.len() && j == i {
                        assert(has_key_at(w, k2, j));
                    } else if i < s.len() {
                        assert(has_key_at(w, k2, j));
                    } else {
                        assert(has_key_at(w, k2, j));
                    }
                }
                if k2 == k {
                    if i < s.len() {
                        assert(has_key_at(w, k2, i as int));
                    } else {
                        assert(has_key_at(w, k2, s.len() as int));
                    }
                }
                if exists|j: int| #[trigger] has_key_at(w, k2, j) {
                    let j = choose|j: int| #[trigger] has_key_at(w, k2, j);
                    if k2 != k {
                        assert(j < s.len() && j != i);
                        assert(has_key_at(s, k2, j));
                    }
                }
            }
            assert forall|k2: Seq<char>| #![auto] self@.contains_key(k2) implies self@[k2] == old_map.insert(k, val)[k2] by {
                let j = choose|j: int| #[trigger] has_key_at(w, k2, j);
                if k2 == k {
                    let m: int = if i < s.len() { i as int } else { s.len() as int };
                    assert(has_key_at(w, k2, m));
                    if j != m {
                        assert(w[j].0@ != w[m].0@);
                    }
                } else {
                    assert(j < s.len() && j != i);
                    assert(w[j] == s[j]);
                    assert(has_key_at(s, k2, j));
                    let j2 = choose|j2: int| #[trigger] has_key_at(s, k2, j2);
                    if j2 != j {
                        assert(s[j].0@ != s[j2].0@);
                    }
                }
            }
            assert(self@ =~= old_map.insert(k, val));
        }
    }
}


/// Applies the insertions in order; a later value for a key replaces an
/// earlier one.
pub open spec fn apply_inserts(
    m: Map<Seq<char>, Seq<char>>,
    pairs: Seq<(Seq<char>, Seq<char>)>,
) -> Map<Seq<char>, Seq<char>>
    decreases pairs.len(),
{
    if pairs.len() == 0 {
        m
    } else {
        apply_inserts(m, pairs.drop_last()).insert(pairs.last().0, pairs.last().1)
    }
}

/// The `<title>` pattern.
pub open spec fn title_pattern() -> Seq<char> {
    r"<title[^>]*>(.*?)</title>"@
}

/// The Open Graph `<meta property="og:..." content="...">` pattern.
pub open spec fn og_pattern() -> Seq<char> {
    r#"<meta[^>]*property="og:(\w+)"[^>]*content="([^"]*)"[^>]*>"#@
}

/// The `<meta name="description" content="...">` pattern.
pub open spec fn description_pattern() -> Seq<char> {
    r#"<meta[^>]*name="description"[^>]*content="([^"]*)"[^>]*>"#@
}

/// The entry named `name` made from group 1 of the first match of
/// `pattern`, if the pattern compiles and matches.
pub open spec fn single_entry(pattern: Seq<char>, name: Seq<char>, html: Seq<char>) -> Seq<(Seq<char>, Seq<char>)> {
    if regex_compiles(pattern) && regex_first_captures(pattern, html) is Some {
        seq![(name, group_or_empty(regex_first_captures(pattern, html).unwrap(), 1))]
    } else {
        Seq::empty()
    }
}

/// The entries `"og:{property}" -> content` of every Open Graph tag, in order.
pub open spec fn og_entries(html: Seq<char>) -> Seq<(Seq<char>, Seq<char>)> {
    if regex_compiles(og_pattern()) {
        regex_all_captures(og_pattern(), html).map_values(
            |g: Seq<Option<Seq<char>>>| ("og:"@ + group_or_empty(g, 1), group_or_empty(g, 2)),
        )
    } else {
        Seq::empty()
    }
}

/// What `extract_meta` reads from `html`: the title, then every Open Graph
/// property, then the description; a later entry replaces an earlier one
/// with the same key.
pub open spec fn page_meta(html: Seq<char>) -> Map<Seq<char>, Seq<char>> {
    let m1 = apply_inserts(Map::empty(), single_entry(title_pattern(), "title"@, html));
    let m2 = apply_inserts(m1, og_entries(html));
    apply_inserts(m2, single_entry(description_pattern(), "description"@, html))
}

fn insert_single(meta: &mut MetaMap, pattern: &str, name: &str, html: &str)
    ensures
        final(meta)@ == apply_inserts(old(meta)@, single_entry(pattern@, name@, html@)),
{
    let ghost before = meta@;
    let ghost pairs = single_entry(pattern@, name@, html@);
    match regex_captures(pattern, html) {
        Some(Some(groups)) => {
            let value = get_group_or_empty(&groups, 1);
            assert(pairs == seq![(name@, value@)]);
            meta.insert(name.to_owned(), value);
            assert(pairs.drop_last() =~= Seq::<(Seq<char>, Seq<char>)>::empty());
            assert(apply_inserts(before, pairs.drop_last()) == before);
        },
        _ => {
            assert(pairs =~= Seq::<(Seq<char>, Seq<char>)>::empty());
        },
    }
}

/// Reads a page's title, Open Graph properties (as `"og:{name}"`) and
/// description.
pub fn extract_meta(html: &str) -> (r: MetaMap)
    ensures
        r@ == page_meta(html@),
{
    let mut meta = MetaMap::new();
    insert_single(&mut meta, r"<title[^>]*>(.*?)</title>", "title", html);
    let ghost m1 = meta@;
    match regex_captures_all(r#"<meta[^>]*property="og:(\w+)"[^>]*content="([^"]*)"[^>]*>"#, html) {
        Some(all) => {
            let ghost pairs = og_entries(html@);
            let mut i: usize = 0;
            while i < all.len()
                invariant
                    i <= all.len(),
                    pairs.len() == all.len(),
                    pairs == og_entries(html@),
                    regex_compiles(og_pattern()),
                    all.deep_view() == regex_all_captures(og_pattern(), html@),
                    meta@ == apply_inserts(m1, pairs.take(i as int)),
                decreases all.len() - i,
            {
                let groups = &all[i];
                assert(groups.deep_view() == all.deep_view()[i as int]);
                let property = get_group_or_empty(groups, 1);
                let content = get_group_or_empty(groups, 2);
                let key = concat2("og:", property.as_str());
                meta.insert(key, content);
                assert(pairs.take(i + 1).drop_last() =~= pairs.take(i as int));
                i = i + 1;
            }
            assert(pairs.take(all.len() as int) =~= pairs);
        },
        None => {
            assert(og_entries(html@) =~= Seq::<(Seq<char>, Seq<char>)>::empty());
        },
    }
    insert_single(
        &mut meta,
        r#"<meta[^>]*name="description"[^>]*content="([^"]*)"[^>]*>"#,
        "description",
        html,
    );
    meta
}

} // verus!
