//! The registry of the platforms in use: lookup by id, listing in id order,
//! and searching several platforms at once.

use vstd::prelude::*;

use crate::model::{
    ChapterContent, NovelDetail, NovelId, PlatformError, PlatformId, PlatformMeta, SearchResult,
};
use crate::platform::NovelPlatform;
use crate::text::{chars_of, extend_chars, str_equal, string_from_chars};

verus! {

/// Code-point order on texts, the order of a `BTreeMap` keyed by `&str`
/// (byte order of UTF-8 is code-point order).
pub open spec fn str_less(a: Seq<char>, b: Seq<char>) -> bool
    decreases a.len(),
{
    if a.len() == 0 {
        b.len() > 0
    } else if b.len() == 0 {
        false
    } else if (a[0] as u32) < (b[0] as u32) {
        true
    } else if a[0] == b[0] {
        str_less(a.drop_first(), b.drop_first())
    } else {
        false
    }
}

pub proof fn lemma_str_less_irreflexive(a: Seq<char>)
    ensures
        !str_less(a, a),
    decreases a.len(),
{
    if a.len() > 0 {
        lemma_str_less_irreflexive(a.drop_first());
    }
}

pub proof fn lemma_str_less_transitive(a: Seq<char>, b: Seq<char>, c: Seq<char>)
    requires
        str_less(a, b),
        str_less(b, c),
    ensures
        str_less(a, c),
    decreases a.len(),
{
    if a.len() > 0 && b.len() > 0 && c.len() > 0 {
        if a[0] == b[0] && b[0] == c[0] {
            lemma_str_less_transitive(a.drop_first(), b.drop_first(), c.drop_first());
        }
    }
}

pub proof fn lemma_str_less_total(a: Seq<char>, b: Seq<char>)
    requires
        a != b,
    ensures
        str_less(a, b) || str_less(b, a),
    decreases a.len(),
{
    if a.len() > 0 && b.len() > 0 {
        if a[0] == b[0] {
            assert(a =~= seq![a[0]] + a.drop_first());
            assert(b =~= seq![b[0]] + b.drop_first());
            lemma_str_less_total(a.drop_first(), b.drop_first());
        } else {
            if (a[0] as u32) == (b[0] as u32) {
                vstd::utf8::char_u32_cast(a[0], a[0] as u32);
                vstd::utf8::char_u32_cast(b[0], b[0] as u32);
            }
        }
    } else if a.len() == 0 && b.len() == 0 {
        assert(a =~= b);
    }
}

pub proof fn lemma_str_less_asymmetric(a: Seq<char>, b: Seq<char>)
    requires
        str_less(a, b),
    ensures
        !str_less(b, a),
{
    if str_less(b, a) {
        lemma_str_less_transitive(a, b, a);
        lemma_str_less_irreflexive(a);
    }
}

/// Compares two texts in code-point order.
pub fn str_less_exec(a: &str, b: &str) -> (r: bool)
    ensures
        r == str_less(a@, b@),
{
    let x = chars_of(a);
    let y = chars_of(b);
    let mut i: usize = 0;
    assert(x@.skip(0) =~= x@);
    assert(y@.skip(0) =~= y@);
    while i < x.len() && i < y.len()
        invariant
            i <= x.len(),
            i <= y.len(),
            x@ == a@,
            y@ == b@,
            str_less(x@, y@) == str_less(x@.skip(i as int), y@.skip(i as int)),
        decreases x.len() - i,
    {
        let c = x[i];
        let d = y[i];
        assert(x@.skip(i as int)[0] == c);
        assert(y@.skip(i as int)[0] == d);
        if (c as u32) < (d as u32) {
            return true;
        }
        if c != d {
            return false;
        }
        assert(x@.skip(i as int).drop_first() =~= x@.skip(i + 1));
        assert(y@.skip(i as int).drop_first() =~= y@.skip(i + 1));
        i = i + 1;
    }
    i < y.len()
}

/// The ids of a registry's entries, in order.
pub open spec fn keys_of<P>(v: Seq<(Seq<char>, P)>) -> Seq<Seq<char>> {
    v.map_values(|e: (Seq<char>, P)| e.0)
}

/// Entries are in strictly increasing id order (so no id occurs twice).
pub open spec fn sorted_by_id<P>(v: Seq<(Seq<char>, P)>) -> bool {
    forall|i: int, j: int| 0 <= i < j < v.len() ==> str_less(#[trigger] v[i].0, #[trigger] v[j].0)
}

/// The position of the entry with id `k`.
pub open spec fn index_of_id<P>(v: Seq<(Seq<char>, P)>, k: Seq<char>) -> Option<int> {
    if exists|i: int| #[trigger] has_id_at(v, k, i) {
        Some(choose|i: int| #[trigger] has_id_at(v, k, i))
    } else {
        None
    }
}

/// Position `i` holds the entry with id `k`.
pub open spec fn has_id_at<P>(v: Seq<(Seq<char>, P)>, k: Seq<char>, i: int) -> bool {
    0 <= i < v.len() && v[i].0 == k
}

/// The platform registered under `k`.
pub open spec fn lookup<P>(v: Seq<(Seq<char>, P)>, k: Seq<char>) -> Option<P> {
    match index_of_id(v, k) {
        Some(i) => Some(v[i].1),
        None => None,
    }
}

/// Where an entry with id `k` goes: after every smaller id, before the rest.
pub open spec fn insertion_point<P>(v: Seq<(Seq<char>, P)>, k: Seq<char>) -> int {
    choose|i: int| #[trigger] is_insertion_point(v, k, i)
}

/// Every id before position `i` is smaller than `k`, and none from `i` on is.
pub open spec fn is_insertion_point<P>(v: Seq<(Seq<char>, P)>, k: Seq<char>, i: int) -> bool {
    &&& 0 <= i <= v.len()
    &&& forall|j: int| 0 <= j < i ==> str_less(#[trigger] v[j].0, k)
    &&& forall|j: int| i <= j < v.len() ==> !str_less(#[trigger] v[j].0, k)
}

/// The entries after registering `p` under `k`: it replaces the entry with
/// that id, or is placed in id order.
pub open spec fn insert_entry<P>(v: Seq<(Seq<char>, P)>, k: Seq<char>, p: P) -> Seq<(Seq<char>, P)> {
    let i = insertion_point(v, k);
    if i < v.len() && v[i].0 == k {
        v.update(i, (k, p))
    } else {
        v.insert(i, (k, p))
    }
}

/// The indices of the entries `search_across` asks, in order: every entry
/// when `only` is empty, else the entry of each id of `only` that is
/// registered, in the order of `only` (an id listed twice is asked twice).
pub open spec fn search_targets<P>(v: Seq<(Seq<char>, P)>, only: Seq<Seq<char>>) -> Seq<int> {
    if only.len() == 0 {
        Seq::new(v.len(), |i: int| i)
    } else {
        listed_targets(v, only)
    }
}

pub open spec fn listed_targets<P>(v: Seq<(Seq<char>, P)>, only: Seq<Seq<char>>) -> Seq<int>
    decreases only.len(),
{
    if only.len() == 0 {
        Seq::<int>::empty()
    } else {
        let r = listed_targets(v, only.drop_last());
        match index_of_id(v, only.last()) {
            Some(i) => r.push(i),
            None => r,
        }
    }
}

/// The hits of the searches that succeeded, in order.
pub open spec fn successful_hits(outcomes: Seq<Result<Vec<SearchResult>, PlatformError>>) -> Seq<
    SearchResult,
>
    decreases outcomes.len(),
{
    if outcomes.len() == 0 {
        Seq::<SearchResult>::empty()
    } else {
        let r = successful_hits(outcomes.drop_last());
        match outcomes.last() {
            Ok(found) => r + found@,
            Err(_) => r,
        }
    }
}

/// The texts of a list of ids.
pub open spec fn names_of(only: Seq<String>) -> Seq<Seq<char>> {
    only.map_values(|s: String| s@)
}

/// `outcomes[j]` is an answer that the platform of entry `targets[j]` can
/// give when asked to search for `keyword`, for every target in turn.
pub open spec fn answers_searches<P: NovelPlatform>(
    v: Seq<(Seq<char>, P)>,
    targets: Seq<int>,
    keyword: &str,
    outcomes: Seq<Result<Vec<SearchResult>, PlatformError>>,
) -> bool {
    &&& outcomes.len() == targets.len()
    &&& forall|j: int|
        0 <= j < targets.len() ==> call_ensures(P::search, (&v[targets[j]].1, keyword), #[trigger] outcomes[j])
}

/// The hits of the searches that succeeded, in the order of the searches.
pub fn gather_hits(outcomes: Vec<Result<Vec<SearchResult>, PlatformError>>) -> (r: Vec<SearchResult>)
    ensures
        r@ == successful_hits(outcomes@),
{
    let ghost all = outcomes@;
    let mut hits: Vec<SearchResult> = Vec::new();
    let mut rest = outcomes;
    let n = rest.len();
    let mut k: usize = 0;
    assert(all.skip(0) =~= all);
    while k < n
        invariant
            k <= n,
            n == all.len(),
            rest@ == all.skip(k as int),
            hits@ == successful_hits(all.take(k as int)),
        decreases n - k,
    {
        let ghost before = all.take(k as int);
        let o = rest.remove(0);
        assert(o == all[k as int]);
        assert(rest@ =~= all.skip(k + 1));
        assert(all.take(k + 1).drop_last() =~= before);
        assert(all.take(k + 1).last() == o);
        match o {
            Ok(mut found) => {
                let ghost got = found@;
                hits.append(&mut found);
                assert(hits@ == successful_hits(before) + got);
            },
            Err(_) => {},
        }
        k = k + 1;
    }
    assert(all.take(n as int) =~= all);
    hits
}

/// The message of the error for an id that is not registered.
pub open spec fn unknown_platform_message(id: Seq<char>) -> Seq<char> {
    "未知平台: "@ + id
}

/// The error for an id that is not registered.
pub fn unknown_platform(id: &str) -> (r: PlatformError)
    ensures
        r.message@ == unknown_platform_message(id@),
{
    let mut v = chars_of("未知平台: ");
    let w = chars_of(id);
    extend_chars(&mut v, &w);
    PlatformError { message: string_from_chars(&v) }
}

/// `r` is an id that `p` reports: a call of `p.id()` can give it.
pub open spec fn reports<P: NovelPlatform>(p: P, r: PlatformId) -> bool {
    call_ensures(P::id, (&p,), r)
}

/// Every call of `p.id()` gives `k`: `p` goes by the one id `k`.
pub open spec fn reports_id<P: NovelPlatform>(p: P, k: Seq<char>) -> bool {
    forall|r: PlatformId| #[trigger] reports(p, r) ==> r@ == k
}

/// Entry `i` is filed under an id that its platform reported.
pub open spec fn filed_at<P: NovelPlatform>(v: Seq<(Seq<char>, P)>, i: int) -> bool {
    exists|r: PlatformId| #[trigger] reports(v[i].1, r) && r@ == v[i].0
}

/// Every entry is filed under an id that its platform reported.
pub open spec fn filed_under_own_id<P: NovelPlatform>(v: Seq<(Seq<char>, P)>) -> bool {
    forall|i: int| 0 <= i < v.len() ==> #[trigger] filed_at(v, i)
}

/// `t` is what listing `p` gives: an id `p` reports, and the display name
/// and domain of a description `p` gives.
pub open spec fn listed_as<P: NovelPlatform>(p: P, t: (PlatformId, String, String)) -> bool {
    &&& reports(p, t.0)
    &&& exists|m: &PlatformMeta| #[trigger] call_ensures(P::meta, (&p,), m) && t.1@ == m.name@ && t.2@ == m.domain@
}

/// The platforms in use, kept in id order with one platform per id, each
/// under an id it reported.
pub struct PlatformRegistry<P: NovelPlatform> {
    entries: Vec<(PlatformId, P)>,
}

impl<P: NovelPlatform> View for PlatformRegistry<P> {
    type V = Seq<(Seq<char>, P)>;

    closed spec fn view(&self) -> Seq<(Seq<char>, P)> {
        self.entries@.map_values(|e: (PlatformId, P)| (e.0@, e.1))
    }
}

impl<P: NovelPlatform> PlatformRegistry<P> {
    #[verifier::type_invariant]
    closed spec fn well_formed(&self) -> bool {
        sorted_by_id(self@) && filed_under_own_id(self@)
    }
}

impl<P: NovelPlatform> PlatformRegistry<P> {
    /// An empty registry.
    pub fn new() -> (r: Self)
        ensures
            r@ == Seq::<(Seq<char>, P)>::empty(),
            sorted_by_id(r@),
            filed_under_own_id(r@),
    {
        let r = PlatformRegistry { entries: Vec::new() };
        assert(r@ =~= Seq::<(Seq<char>, P)>::empty());
        r
    }

    /// Registers `platform` under the id it reports, replacing any platform
    /// registered under that id. For a platform that always reports the same
    /// id: afterwards that id finds `platform`, every other id finds what it
    /// found before, and the count grows by one only for a new id.
    pub fn register(&mut self, platform: P)
        ensures
            exists|id: PlatformId| #[trigger] reports(platform, id) && final(self)@ == insert_entry(
                old(self)@,
                id@,
                platform,
            ),
            forall|k: Seq<char>|
                #[trigger] reports_id(platform, k) ==> {
                    &&& final(self)@ == insert_entry(old(self)@, k, platform)
                    &&& lookup(final(self)@, k) == Some(platform)
                    &&& forall|other: Seq<char>|
                        other != k ==> #[trigger] lookup(final(self)@, other) == lookup(old(self)@, other)
                    &&& final(self)@.len() == old(self)@.len() + (if lookup(old(self)@, k) is Some {
                        0int
                    } else {
                        1int
                    })
                },
            sorted_by_id(old(self)@),
            filed_under_own_id(old(self)@),
            sorted_by_id(final(self)@),
            filed_under_own_id(final(self)@),
    {
        proof {
            use_type_invariant(&*self);
        }
        let ghost v = self@;
        let ghost pg = platform;
        let id = platform.id();
        self.insert(id, platform);
        proof {
            use_type_invariant(&*self);
            assert(reports(pg, id));
            assert forall|k: Seq<char>| #[trigger] reports_id(pg, k) implies {
                &&& self@ == insert_entry(v, k, pg)
                &&& lookup(self@, k) == Some(pg)
                &&& forall|other: Seq<char>|
                    other != k ==> #[trigger] lookup(self@, other) == lookup(v, other)
                &&& self@.len() == v.len() + (if lookup(v, k) is Some { 0int } else { 1int })
            } by {
                assert(id@ == k);
                law_lookup_after_register(v, k, pg);
                law_register_len(v, k, pg);
                assert forall|other: Seq<char>| other != k implies #[trigger] lookup(self@, other) == lookup(
                    v,
                    other,
                ) by {
                    law_register_keeps_others(v, k, pg, other);
                }
            }
        }
    }

    /// Files `platform` under `id`, an id it reported.
    fn insert(&mut self, id: PlatformId, platform: P)
        requires
            reports(platform, id),
        ensures
            final(self)@ == insert_entry(old(self)@, id@, platform),
    {
        proof {
            use_type_invariant(&*self);
        }
        let ghost v = self@;
        let mut entries: Vec<(PlatformId, P)> = Vec::new();
        std::mem::swap(&mut entries, &mut self.entries);
        assert(v == entries@.map_values(|e: (PlatformId, P)| (e.0@, e.1)));
        let mut i: usize = 0;
        while i < entries.len() && str_less_exec(entries[i].0, id)
            invariant
                i <= entries.len(),
                v == entries@.map_values(|e: (PlatformId, P)| (e.0@, e.1)),
                forall|j: int| 0 <= j < i ==> str_less(#[trigger] v[j].0, id@),
            decreases entries.len() - i,
        {
            i = i + 1;
        }
        proof {
            assert forall|j: int| i <= j < v.len() implies !str_less(#[trigger] v[j].0, id@) by {
                if str_less(v[j].0, id@) && j > i {
                    lemma_str_less_transitive(v[i as int].0, v[j].0, id@);
                }
            }
            assert(is_insertion_point(v, id@, i as int));
            let k = insertion_point(v, id@);
            if k < i {
                assert(!str_less(v[k].0, id@));
            } else if k > i {
                assert(str_less(v[i as int].0, id@));
            }
            assert(k == i);
            lemma_insert_entry_sorted(v, id@, platform);
            lemma_insert_entry_filed(v, id, platform);
        }
        if i < entries.len() && str_equal(entries[i].0, id) {
            entries.set(i, (id, platform));
        } else {
            entries.insert(i, (id, platform));
        }
        assert(entries@.map_values(|e: (PlatformId, P)| (e.0@, e.1)) =~= insert_entry(v, id@, platform));
        self.entries = entries;
    }

    /// The position of the entry registered under `id`.
    pub fn position(&self, id: &str) -> (r: Option<usize>)
        ensures
            match r {
                Some(i) => index_of_id(self@, id@) == Some(i as int) && i < self@.len(),
                None => index_of_id(self@, id@) is None,
            },
            sorted_by_id(self@),
            filed_under_own_id(self@),
    {
        proof {
            use_type_invariant(self);
        }
        let mut i: usize = 0;
        while i < self.entries.len()
            invariant
                i <= self.entries.len(),
                sorted_by_id(self@),
                filed_under_own_id(self@),
                forall|j: int| 0 <= j < i ==> self@[j].0 != id@,
            decreases self.entries.len() - i,
        {
            if str_equal(self.entries[i].0, id) {
                proof {
                    assert(self@[i as int].0 == id@);
                    let k = choose|k: int| has_id_at(self@, id@, k);
                    assert(has_id_at(self@, id@, i as int));
                    if k != i {
                        lemma_distinct_ids(self@, k, i as int);
                    }
                }
                return Some(i);
            }
            i = i + 1;
        }
        None
    }

    /// The platform registered under `id`, or the unknown-platform error.
    pub fn get(&self, id: &str) -> (r: Result<&P, PlatformError>)
        ensures
            match r {
                Ok(p) => lookup(self@, id@) == Some(*p),
                Err(e) => lookup(self@, id@) is None && e.message@ == unknown_platform_message(id@),
            },
    {
        match self.position(id) {
            Some(i) => Ok(&self.entries[i].1),
            None => Err(unknown_platform(id)),
        }
    }

    /// The registered ids in id order.
    pub fn ids(&self) -> (r: Vec<PlatformId>)
        ensures
            r@.map_values(|k: PlatformId| k@) == keys_of(self@),
            forall|i: int, j: int| 0 <= i < j < r.len() ==> str_less(#[trigger] r@[i]@, #[trigger] r@[j]@),
            filed_under_own_id(self@),
    {
        proof {
            use_type_invariant(self);
        }
        let mut out: Vec<PlatformId> = Vec::new();
        let mut i: usize = 0;
        while i < self.entries.len()
            invariant
                i <= self.entries.len(),
                out@.map_values(|k: PlatformId| k@) =~= keys_of(self@).take(i as int),
            decreases self.entries.len() - i,
        {
            let ghost before = out@;
            out.push(self.entries[i].0);
            assert(out@.map_values(|k: PlatformId| k@) =~= before.map_values(|k: PlatformId| k@).push(
                self@[i as int].0,
            ));
            assert(keys_of(self@).take(i + 1) =~= keys_of(self@).take(i as int).push(self@[i as int].0));
            i = i + 1;
        }
        assert(keys_of(self@).take(self.entries.len() as int) =~= keys_of(self@));
        proof {
            assert forall|i: int, j: int| 0 <= i < j < out.len() implies str_less(
                #[trigger] out@[i]@,
                #[trigger] out@[j]@,
            ) by {
                assert(out@.map_values(|k: PlatformId| k@)[i] == self@[i].0);
                assert(out@.map_values(|k: PlatformId| k@)[j] == self@[j].0);
            }
        }
        out
    }

    /// For every registered platform, in id order: its id, display name and
    /// domain, as the platform reports them.
    pub fn list_all(&self) -> (r: Vec<(PlatformId, String, String)>)
        ensures
            r.len() == self@.len(),
            forall|i: int| 0 <= i < r.len() ==> #[trigger] listed_as(self@[i].1, r@[i]),
            sorted_by_id(self@),
            filed_under_own_id(self@),
    {
        proof {
            use_type_invariant(self);
        }
        let mut out: Vec<(PlatformId, String, String)> = Vec::new();
        let mut i: usize = 0;
        while i < self.entries.len()
            invariant
                i <= self.entries.len(),
                self.entries.len() == self@.len(),
                out.len() == i,
                forall|j: int| 0 <= j < i ==> #[trigger] listed_as(self@[j].1, out@[j]),
            decreases self.entries.len() - i,
        {
            let p = &self.entries[i].1;
            assert(self@[i as int].1 == *p);
            let m = p.meta();
            let id = p.id();
            let name = m.name.to_owned();
            let domain = m.domain.to_owned();
            let ghost t = (id, name, domain);
            assert(call_ensures(P::meta, (&self@[i as int].1,), m));
            assert(listed_as(self@[i as int].1, t));
            out.push((id, name, domain));
            i = i + 1;
        }
        out
    }

    /// The indices of the entries that `search_across` asks, in order.
    pub fn search_targets(&self, only: &[String]) -> (r: Vec<usize>)
        ensures
            r@.map_values(|i: usize| i as int) == search_targets(self@, only@.map_values(|s: String| s@)),
            forall|k: int| 0 <= k < r.len() ==> #[trigger] r@[k] < self@.len(),
    {
        let ghost names = only@.map_values(|s: String| s@);
        let mut out: Vec<usize> = Vec::new();
        if only.len() == 0 {
            let mut i: usize = 0;
            while i < self.entries.len()
                invariant
                    i <= self.entries.len(),
                    self.entries.len() == self@.len(),
                    out@.map_values(|i: usize| i as int) =~= Seq::new(i as nat, |k: int| k),
                    forall|k: int| 0 <= k < out.len() ==> #[trigger] out@[k] < self@.len(),
                decreases self.entries.len() - i,
            {
                let ghost before = out@;
                out.push(i);
                assert(out@.map_values(|i: usize| i as int) =~= before.map_values(|i: usize| i as int).push(
                    i as int,
                ));
                i = i + 1;
            }
            return out;
        }
        let mut n: usize = 0;
        while n < only.len()
            invariant
                n <= only.len(),
                names == only@.map_values(|s: String| s@),
                out@.map_values(|i: usize| i as int) == listed_targets(self@, names.take(n as int)),
                forall|k: int| 0 <= k < out.len() ==> #[trigger] out@[k] < self@.len(),
            decreases only.len() - n,
        {
            assert(names.take(n + 1).drop_last() =~= names.take(n as int));
            let ghost before = out@;
            match self.position(only[n].as_str()) {
                Some(i) => {
                    out.push(i);
                    assert(out@.map_values(|i: usize| i as int) =~= before.map_values(
                        |i: usize| i as int,
                    ).push(i as int));
                },
                None => {},
            }
            n = n + 1;
        }
        assert(names.take(only.len() as int) =~= names);
        out
    }

    /// Searches the listed platforms (all of them when `only` is empty) for
    /// `keyword` and gathers the hits in order; a platform whose search fails
    /// contributes nothing. Each target of `search_targets` is asked once, in
    /// that order, with `keyword` as given.
    pub fn search_across(&self, keyword: &str, only: &[String]) -> (r: Vec<SearchResult>)
        ensures
            exists|outcomes: Seq<Result<Vec<SearchResult>, PlatformError>>|
                #[trigger] answers_searches(
                    self@,
                    search_targets(self@, names_of(only@)),
                    keyword,
                    outcomes,
                ) && r@ == successful_hits(outcomes),
    {
        let targets = self.search_targets(only);
        let ghost tseq = targets@.map_values(|i: usize| i as int);
        let mut outcomes: Vec<Result<Vec<SearchResult>, PlatformError>> = Vec::new();
        let mut k: usize = 0;
        while k < targets.len()
            invariant
                k <= targets.len(),
                tseq == targets@.map_values(|i: usize| i as int),
                forall|j: int| 0 <= j < targets.len() ==> #[trigger] targets@[j] < self@.len(),
                self.entries.len() == self@.len(),
                outcomes.len() == k,
                forall|j: int|
                    0 <= j < k ==> call_ensures(
                        P::search,
                        (&self@[tseq[j]].1, keyword),
                        #[trigger] outcomes@[j],
                    ),
            decreases targets.len() - k,
        {
            let t = targets[k];
            let res = self.entries[t].1.search(keyword);
            assert(self@[tseq[k as int]].1 == self.entries@[t as int].1);
            outcomes.push(res);
            k = k + 1;
        }
        let ghost seen = outcomes@;
        assert(tseq == search_targets(self@, names_of(only@)));
        assert(answers_searches(self@, tseq, keyword, seen));
        let r = gather_hits(outcomes);
        assert(r@ == successful_hits(seen));
        r
    }

    /// Fetches a book's details from the platform named in its id: an
    /// unregistered platform gives the unknown-platform error, a registered
    /// one is asked for the book's own id and its answer is passed on.
    pub fn fetch_detail(&self, novel_id: &NovelId) -> (r: Result<NovelDetail, PlatformError>)
        ensures
            match lookup(self@, novel_id.platform@) {
                None => r matches Err(e) && e.message@ == unknown_platform_message(novel_id.platform@),
                Some(p) => exists|raw: &str|
                    raw@ == novel_id.raw@ && #[trigger] call_ensures(P::fetch_detail, (&p, raw), r),
            },
    {
        match self.get(novel_id.platform.as_str()) {
            Ok(platform) => {
                let raw = novel_id.raw.as_str();
                let r = platform.fetch_detail(raw);
                proof {
                    let p = lookup(self@, novel_id.platform@)->0;
                    assert(p == *platform);
                    assert(call_ensures(P::fetch_detail, (&p, raw), r));
                }
                r
            },
            Err(e) => Err(e),
        }
    }

    /// Fetches a chapter from the platform named in the book's id: an
    /// unregistered platform gives the unknown-platform error, a registered
    /// one is asked for the chapter of the book's own id and its answer is
    /// passed on.
    pub fn fetch_chapter(&self, novel_id: &NovelId, chapter_id: &str, chapter_title: &str) -> (r:
        Result<ChapterContent, PlatformError>)
        ensures
            match lookup(self@, novel_id.platform@) {
                None => r matches Err(e) && e.message@ == unknown_platform_message(novel_id.platform@),
                Some(p) => exists|raw: &str|
                    raw@ == novel_id.raw@ && #[trigger] call_ensures(
                        P::fetch_chapter,
                        (&p, raw, chapter_id, chapter_title),
                        r,
                    ),
            },
    {
        match self.get(novel_id.platform.as_str()) {
            Ok(platform) => {
                let raw = novel_id.raw.as_str();
                let r = platform.fetch_chapter(raw, chapter_id, chapter_title);
                proof {
                    let p = lookup(self@, novel_id.platform@)->0;
                    assert(p == *platform);
                    assert(call_ensures(P::fetch_chapter, (&p, raw, chapter_id, chapter_title), r));
                }
                r
            },
            Err(e) => Err(e),
        }
    }

    /// The number of registered platforms.
    pub fn len(&self) -> (r: usize)
        ensures
            r == self@.len(),
            sorted_by_id(self@),
            filed_under_own_id(self@),
    {
        proof {
            use_type_invariant(self);
        }
        self.entries.len()
    }

    /// Whether no platform is registered.
    pub fn is_empty(&self) -> (r: bool)
        ensures
            r == (self@.len() == 0),
    {
        self.entries.len() == 0
    }
}

impl<P: NovelPlatform> Default for PlatformRegistry<P> {
    /// An empty registry.
    fn default() -> (r: Self)
        ensures
            r@ == Seq::<(Seq<char>, P)>::empty(),
    {
        Self::new()
    }
}

/// Ids in a sorted registry are distinct.
pub proof fn lemma_distinct_ids<P>(v: Seq<(Seq<char>, P)>, i: int, j: int)
    requires
        sorted_by_id(v),
        0 <= i < v.len(),
        0 <= j < v.len(),
        i != j,
    ensures
        v[i].0 != v[j].0,
{
    if i < j {
        assert(str_less(v[i].0, v[j].0));
        if v[i].0 == v[j].0 {
            lemma_str_less_irreflexive(v[i].0);
        }
    } else {
        assert(str_less(v[j].0, v[i].0));
        if v[i].0 == v[j].0 {
            lemma_str_less_irreflexive(v[i].0);
        }
    }
}

proof fn lemma_insertion_point_from<P>(v: Seq<(Seq<char>, P)>, k: Seq<char>, i: int)
    requires
        sorted_by_id(v),
        0 <= i <= v.len(),
        forall|j: int| 0 <= j < i ==> str_less(#[trigger] v[j].0, k),
    ensures
        exists|m: int| #[trigger] is_insertion_point(v, k, m),
    decreases v.len() - i,
{
    if i < v.len() && str_less(v[i].0, k) {
        lemma_insertion_point_from(v, k, i + 1);
    } else {
        assert forall|j: int| i <= j < v.len() implies !str_less(#[trigger] v[j].0, k) by {
            if str_less(v[j].0, k) && j > i {
                lemma_str_less_transitive(v[i].0, v[j].0, k);
            }
        }
        assert(is_insertion_point(v, k, i));
    }
}

proof fn lemma_insertion_point<P>(v: Seq<(Seq<char>, P)>, k: Seq<char>)
    requires
        sorted_by_id(v),
    ensures
        0 <= insertion_point(v, k) <= v.len(),
        forall|j: int| 0 <= j < insertion_point(v, k) ==> str_less(#[trigger] v[j].0, k),
        forall|j: int| insertion_point(v, k) <= j < v.len() ==> !str_less(#[trigger] v[j].0, k),
{
    lemma_insertion_point_from(v, k, 0);
}

/// Registering keeps the entries in strictly increasing id order.
pub proof fn lemma_insert_entry_sorted<P>(v: Seq<(Seq<char>, P)>, k: Seq<char>, p: P)
    requires
        sorted_by_id(v),
    ensures
        sorted_by_id(insert_entry(v, k, p)),
{
    lemma_insertion_point(v, k);
    let i = insertion_point(v, k);
    let w = insert_entry(v, k, p);
    if i < v.len() && v[i].0 == k {
        assert forall|a: int, b: int| 0 <= a < b < w.len() implies str_less(
            #[trigger] w[a].0,
            #[trigger] w[b].0,
        ) by {
            assert(w[a].0 == v[a].0);
            assert(w[b].0 == v[b].0);
        }
    } else {
        if i < v.len() {
            lemma_str_less_total(v[i].0, k);
        }
        assert forall|a: int, b: int| 0 <= a < b < w.len() implies str_less(
            #[trigger] w[a].0,
            #[trigger] w[b].0,
        ) by {
            if b < i {
                assert(w[a].0 == v[a].0 && w[b].0 == v[b].0);
            } else if b == i {
                assert(w[a].0 == v[a].0);
            } else if a == i {
                assert(w[b].0 == v[b - 1].0);
                assert(!str_less(v[b - 1].0, k));
                if v[b - 1].0 != k {
                    lemma_str_less_total(v[b - 1].0, k);
                } else {
                    assert(b - 1 > i || b - 1 == i);
                    if b - 1 > i {
                        assert(str_less(v[i].0, v[b - 1].0));
                        assert(!str_less(v[i].0, k));
                    }
                }
            } else if a < i {
                assert(w[a].0 == v[a].0 && w[b].0 == v[b - 1].0);
                if a < b - 1 {
                } else {
                    assert(a == b - 1);
                    assert(str_less(v[a].0, k));
                    assert(!str_less(v[b - 1].0, k));
                }
            } else {
                assert(w[a].0 == v[a - 1].0 && w[b].0 == v[b - 1].0);
            }
        }
    }
}

/// Filing a platform under an id it reported keeps every entry under an id
/// its platform reported.
pub proof fn lemma_insert_entry_filed<P: NovelPlatform>(v: Seq<(Seq<char>, P)>, id: PlatformId, p: P)
    requires
        sorted_by_id(v),
        filed_under_own_id(v),
        reports(p, id),
    ensures
        filed_under_own_id(insert_entry(v, id@, p)),
{
    let k = id@;
    lemma_insertion_point(v, k);
    let i = insertion_point(v, k);
    let w = insert_entry(v, k, p);
    assert forall|j: int| 0 <= j < w.len() implies #[trigger] filed_at(w, j) by {
        if j == i {
            assert(w[j] == (k, p));
            assert(reports(w[j].1, id));
        } else if i < v.len() && v[i].0 == k {
            assert(w[j] == v[j]);
            assert(filed_at(v, j));
        } else if j < i {
            assert(w[j] == v[j]);
            assert(filed_at(v, j));
        } else {
            assert(w[j] == v[j - 1]);
            assert(filed_at(v, j - 1));
        }
    }
}

/// In a registry whose entries are filed under reported ids, a platform that
/// goes by one id is filed under that id.
pub proof fn law_stable_id_is_key<P: NovelPlatform>(v: Seq<(Seq<char>, P)>, i: int, k: Seq<char>)
    requires
        filed_under_own_id(v),
        0 <= i < v.len(),
        reports_id(v[i].1, k),
    ensures
        v[i].0 == k,
{
    assert(filed_at(v, i));
}

/// In a registry without repeated ids, an entry holding `k` is the one
/// `lookup` finds.
pub proof fn lemma_lookup_at<P>(v: Seq<(Seq<char>, P)>, i: int)
    requires
        sorted_by_id(v),
        0 <= i < v.len(),
    ensures
        index_of_id(v, v[i].0) == Some(i),
        lookup(v, v[i].0) == Some(v[i].1),
{
    let k = v[i].0;
    assert(has_id_at(v, k, i));
    let j = choose|j: int| has_id_at(v, k, j);
    if j != i {
        lemma_distinct_ids(v, i, j);
    }
}

/// After registering `p` under `k`, looking up `k` gives `p`.
pub proof fn law_lookup_after_register<P>(v: Seq<(Seq<char>, P)>, k: Seq<char>, p: P)
    requires
        sorted_by_id(v),
    ensures
        lookup(insert_entry(v, k, p), k) == Some(p),
{
    lemma_insertion_point(v, k);
    lemma_insert_entry_sorted(v, k, p);
    let w = insert_entry(v, k, p);
    let i = insertion_point(v, k);
    assert(w[i].0 == k && w[i].1 == p);
    lemma_lookup_at(w, i);
}

/// Registering under `k` leaves what every other id finds unchanged.
pub proof fn law_register_keeps_others<P>(v: Seq<(Seq<char>, P)>, k: Seq<char>, p: P, other: Seq<char>)
    requires
        sorted_by_id(v),
        other != k,
    ensures
        lookup(insert_entry(v, k, p), other) == lookup(v, other),
{
    lemma_insertion_point(v, k);
    lemma_insert_entry_sorted(v, k, p);
    let w = insert_entry(v, k, p);
    let i = insertion_point(v, k);
    let replaced = i < v.len() && v[i].0 == k;
    if exists|j: int| has_id_at(v, other, j) {
        let j = choose|j: int| has_id_at(v, other, j);
        lemma_lookup_at(v, j);
        if replaced {
            assert(j != i);
            assert(w[j] == v[j]);
            lemma_lookup_at(w, j);
        } else if j < i {
            assert(w[j] == v[j]);
            lemma_lookup_at(w, j);
        } else {
            assert(w[j + 1] == v[j]);
            lemma_lookup_at(w, j + 1);
        }
    } else {
        assert forall|j: int| #![trigger has_id_at(w, other, j)] 0 <= j < w.len() implies w[j].0 != other by {
            if replaced {
                if j != i {
                    assert(w[j] == v[j]);
                    assert(!has_id_at(v, other, j));
                } else {
                    assert(w[j].0 == k);
                }
            } else if j < i {
                assert(w[j] == v[j]);
                assert(!has_id_at(v, other, j));
            } else if j > i {
                assert(w[j] == v[j - 1]);
                assert(!has_id_at(v, other, j - 1));
            } else {
                assert(w[j].0 == k);
            }
        }
    }
}

/// Registering adds one entry for a new id and none for a registered one.
pub proof fn law_register_len<P>(v: Seq<(Seq<char>, P)>, k: Seq<char>, p: P)
    requires
        sorted_by_id(v),
    ensures
        insert_entry(v, k, p).len() == v.len() + (if lookup(v, k) is Some { 0int } else { 1int }),
{
    lemma_insertion_point(v, k);
    let i = insertion_point(v, k);
    if i < v.len() && v[i].0 == k {
        lemma_lookup_at(v, i);
    } else {
        if exists|j: int| has_id_at(v, k, j) {
            let j = choose|j: int| has_id_at(v, k, j);
            if j < i {
                assert(str_less(v[j].0, k));
                lemma_str_less_irreflexive(k);
            } else if j > i {
                lemma_str_less_total(v[i].0, k);
                assert(str_less(v[i].0, v[j].0));
            }
        }
    }
}


/// The hits of two runs of searches, one after the other, are the hits of
/// the first followed by those of the second.
pub proof fn law_hits_concatenate(
    a: Seq<Result<Vec<SearchResult>, PlatformError>>,
    b: Seq<Result<Vec<SearchResult>, PlatformError>>,
)
    ensures
        successful_hits(a + b) == successful_hits(a) + successful_hits(b),
    decreases b.len(),
{
    if b.len() == 0 {
        assert(a + b =~= a);
        assert(successful_hits(a) + successful_hits(b) =~= successful_hits(a));
    } else {
        law_hits_concatenate(a, b.drop_last());
        assert((a + b).drop_last() =~= a + b.drop_last());
        assert((a + b).last() == b.last());
        match b.last() {
            Ok(found) => {
                assert(successful_hits(a) + successful_hits(b.drop_last()) + found@ =~= successful_hits(a)
                    + (successful_hits(b.drop_last()) + found@));
            },
            Err(_) => {},
        }
    }
}

/// A search that succeeded contributes all of its hits, in its own order.
pub proof fn law_hits_of_successful_search(found: Vec<SearchResult>)
    ensures
        successful_hits(seq![Ok::<Vec<SearchResult>, PlatformError>(found)]) == found@,
{
    reveal_with_fuel(successful_hits, 2);
    let o = seq![Ok::<Vec<SearchResult>, PlatformError>(found)];
    assert(o.drop_last() =~= Seq::<Result<Vec<SearchResult>, PlatformError>>::empty());
    assert(Seq::<SearchResult>::empty() + found@ =~= found@);
}

/// A search that failed contributes no hits.
pub proof fn law_hits_of_failed_search(e: PlatformError)
    ensures
        successful_hits(seq![Err::<Vec<SearchResult>, PlatformError>(e)]) == Seq::<SearchResult>::empty(),
{
    reveal_with_fuel(successful_hits, 2);
    let f = seq![Err::<Vec<SearchResult>, PlatformError>(e)];
    assert(f.drop_last() =~= Seq::<Result<Vec<SearchResult>, PlatformError>>::empty());
}

/// The hits after a first search are that search's hits (all of them when
/// it succeeded, none when it failed) followed by the hits of the rest.
pub proof fn law_hits_after_first_search(
    first: Result<Vec<SearchResult>, PlatformError>,
    rest: Seq<Result<Vec<SearchResult>, PlatformError>>,
)
    ensures
        successful_hits(seq![first] + rest) == (match first {
            Ok(found) => found@ + successful_hits(rest),
            Err(_) => successful_hits(rest),
        }),
{
    law_hits_concatenate(seq![first], rest);
    match first {
        Ok(found) => {
            law_hits_of_successful_search(found);
        },
        Err(e) => {
            law_hits_of_failed_search(e);
            assert(Seq::<SearchResult>::empty() + successful_hits(rest) =~= successful_hits(rest));
        },
    }
}

/// The number of hits is the total number of hits of the searches that
/// succeeded.
pub proof fn law_hits_count(outcomes: Seq<Result<Vec<SearchResult>, PlatformError>>)
    ensures
        successful_hits(outcomes).len() == outcomes.fold_left(
            0int,
            |n: int, o: Result<Vec<SearchResult>, PlatformError>| match o {
                Ok(found) => n + found@.len(),
                Err(_) => n,
            },
        ),
    decreases outcomes.len(),
{
    if outcomes.len() > 0 {
        law_hits_count(outcomes.drop_last());
    }
}

/// A platform whose search fails changes nothing in the hits of the others.
pub proof fn law_failed_search_contributes_nothing(
    before: Seq<Result<Vec<SearchResult>, PlatformError>>,
    e: PlatformError,
    after: Seq<Result<Vec<SearchResult>, PlatformError>>,
)
    ensures
        successful_hits(before + seq![Err(e)] + after) == successful_hits(before + after),
{
    law_hits_concatenate(before + seq![Err(e)], after);
    law_hits_concatenate(before, after);
    assert((before + seq![Err(e)]).drop_last() =~= before);
}

/// Registering two platforms under one id, one after the other, is the same
/// as registering the second alone: the last registration wins, and the
/// count and the ids are as after that one registration.
pub proof fn law_register_twice<P>(v: Seq<(Seq<char>, P)>, k: Seq<char>, p1: P, p2: P)
    requires
        sorted_by_id(v),
    ensures
        insert_entry(insert_entry(v, k, p1), k, p2) == insert_entry(v, k, p2),
{
    lemma_insertion_point(v, k);
    lemma_insert_entry_sorted(v, k, p1);
    let i = insertion_point(v, k);
    let w = insert_entry(v, k, p1);
    assert(w[i] == (k, p1));
    lemma_insertion_point(w, k);
    let m = insertion_point(w, k);
    if m < i {
        assert(w[m] == v[m]);
        assert(str_less(w[m].0, k));
    }
    if m > i {
        lemma_str_less_irreflexive(k);
        assert(str_less(w[i].0, k));
    }
    assert(m == i);
    if i < v.len() && v[i].0 == k {
        assert(w.update(i, (k, p2)) =~= v.update(i, (k, p2)));
    } else {
        assert(w.update(i, (k, p2)) =~= v.insert(i, (k, p2)));
    }
}

proof fn lemma_listed_prefix<P>(v: Seq<(Seq<char>, P)>, n: int)
    requires
        sorted_by_id(v),
        0 <= n <= v.len(),
    ensures
        listed_targets(v, keys_of(v).take(n)) == Seq::new(n as nat, |i: int| i),
    decreases n,
{
    if n > 0 {
        lemma_listed_prefix(v, n - 1);
        assert(keys_of(v).take(n).drop_last() =~= keys_of(v).take(n - 1));
        assert(keys_of(v).take(n).last() == v[n - 1].0);
        lemma_lookup_at(v, n - 1);
        assert(Seq::new(n as nat, |i: int| i) =~= Seq::new((n - 1) as nat, |i: int| i).push(n - 1));
    } else {
        assert(keys_of(v).take(0) =~= Seq::<Seq<char>>::empty());
        assert(Seq::new(0, |i: int| i) =~= Seq::<int>::empty());
    }
}

/// Searching with no filter asks the same platforms, in the same order, as
/// searching with the list of every registered id.
pub proof fn law_all_ids_same_targets<P>(v: Seq<(Seq<char>, P)>)
    requires
        sorted_by_id(v),
    ensures
        search_targets(v, Seq::<Seq<char>>::empty()) == search_targets(v, keys_of(v)),
{
    if v.len() > 0 {
        lemma_listed_prefix(v, v.len() as int);
        assert(keys_of(v).take(v.len() as int) =~= keys_of(v));
    } else {
        assert(keys_of(v) =~= Seq::<Seq<char>>::empty());
    }
}

} // verus!
