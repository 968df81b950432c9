//! Character-level helpers shared by the adapters.

use vstd::prelude::*;

verus! {

/// Collects the characters of `s` into a vector.
pub fn chars_of(s: &str) -> (r: Vec<char>)
    ensures
        r@ == s@,
{
    let mut out: Vec<char> = Vec::new();
    for c in it: s.chars()
        invariant
            out@ == it.seq().take(it.index() as int),
            it.seq() == s@,
    {
        out.push(c);
    }
    out
}


/// Builds a `String` from the characters of `v` by collecting them
/// (`String: FromIterator<&char>`); std documents that the string holds the
/// characters in iteration order, which is what the contract claims.
#[verifier::external_body]
pub fn string_from_chars(v: &Vec<char>) -> (r: String)
    ensures
        r@ == v@,
{
    v.iter().collect::<String>()
}

/// Whether two string slices hold the same characters.
pub fn str_equal(a: &str, b: &str) -> (r: bool)
    ensures
        r == (a@ == b@),
{
    let x = a.to_owned();
    let y = b.to_owned();
    x == y
}

/// The Unicode `White_Space` property, the set of characters that
/// `char::is_whitespace` and the `trim` family of `str` treat as blank.
pub open spec fn is_white_space(c: char) -> bool {
    let n = c as u32;
    ||| 9 <= n <= 13
    ||| n == 32
    ||| n == 0x85
    ||| n == 0xA0
    ||| n == 0x1680
    ||| 0x2000 <= n <= 0x200A
    ||| n == 0x2028
    ||| n == 0x2029
    ||| n == 0x202F
    ||| n == 0x205F
    ||| n == 0x3000
}

pub fn is_white_space_char(c: char) -> (r: bool)
    ensures
        r == is_white_space(c),
{
    let n = c as u32;
    (9 <= n && n <= 13) || n == 32 || n == 0x85 || n == 0xA0 || n == 0x1680 || (0x2000 <= n
        && n <= 0x200A) || n == 0x2028 || n == 0x2029 || n == 0x202F || n == 0x205F || n
        == 0x3000
}

/// `s` without its leading white space.
pub open spec fn trim_start(s: Seq<char>) -> Seq<char>
    decreases s.len(),
{
    if s.len() > 0 && is_white_space(s[0]) {
        trim_start(s.drop_first())
    } else {
        s
    }
}

/// `s` without its trailing white space.
pub open spec fn trim_end(s: Seq<char>) -> Seq<char>
    decreases s.len(),
{
    if s.len() > 0 && is_white_space(s.last()) {
        trim_end(s.drop_last())
    } else {
        s
    }
}

/// `s` without leading and trailing white space, as `str::trim` gives it.
pub open spec fn trim(s: Seq<char>) -> Seq<char> {
    trim_end(trim_start(s))
}

/// Removes leading and trailing white space.
pub fn trim_chars(s: &Vec<char>) -> (r: Vec<char>)
    ensures
        r@ == trim(s@),
{
    let len = s.len();
    let mut a: usize = 0;
    assert(s@.subrange(0, len as int) =~= s@);
    while a < len && is_white_space_char(s[a])
        invariant
            a <= len,
            len == s@.len(),
            trim_start(s@) == trim_start(s@.subrange(a as int, len as int)),
        decreases len - a,
    {
        assert(s@.subrange(a as int, len as int).drop_first() =~= s@.subrange(
            a + 1,
            len as int,
        ));
        a = a + 1;
    }
    let ghost t = s@.subrange(a as int, len as int);
    assert(trim_start(s@) == t);
    let mut b: usize = len;
    while b > a && is_white_space_char(s[b - 1])
        invariant
            a <= b <= len,
            len == s@.len(),
            t == s@.subrange(a as int, len as int),
            trim_end(t) == trim_end(s@.subrange(a as int, b as int)),
        decreases b - a,
    {
        assert(s@.subrange(a as int, b as int).drop_last() =~= s@.subrange(
            a as int,
            b - 1,
        ));
        b = b - 1;
    }
    let mut out: Vec<char> = Vec::new();
    let mut i: usize = a;
    while i < b
        invariant
            a <= i <= b <= len,
            len == s@.len(),
            out@ =~= s@.subrange(a as int, i as int),
        decreases b - i,
    {
        out.push(s[i]);
        i = i + 1;
    }
    out
}

/// `s` with its leading and trailing white space removed.
pub fn trim_str(s: &str) -> (r: String)
    ensures
        r@ == trim(s@),
{
    let v = chars_of(s);
    let t = trim_chars(&v);
    string_from_chars(&t)
}


/// `s` with every non-overlapping occurrence of `pat`, found from left to
/// right, replaced by `rep` (what `str::replace` does for a non-empty pattern).
pub open spec fn replace_all(s: Seq<char>, pat: Seq<char>, rep: Seq<char>) -> Seq<char>
    decreases s.len(),
{
    if s.len() == 0 || pat.len() == 0 {
        s
    } else if pat.is_prefix_of(s) {
        rep + replace_all(s.skip(pat.len() as int), pat, rep)
    } else {
        seq![s[0]] + replace_all(s.drop_first(), pat, rep)
    }
}

/// Whether `pat` occurs in `s` at position `at`.
pub fn occurs_at(s: &Vec<char>, at: usize, pat: &Vec<char>) -> (r: bool)
    requires
        at <= s.len(),
    ensures
        r == pat@.is_prefix_of(s@.skip(at as int)),
{
    if pat.len() > s.len() - at {
        return false;
    }
    let mut j: usize = 0;
    while j < pat.len()
        invariant
            j <= pat.len(),
            at + pat.len() <= s.len(),
            forall|k: int| 0 <= k < j ==> pat@[k] == s@[at + k],
        decreases pat.len() - j,
    {
        if pat[j] != s[at + j] {
            assert(pat@[j as int] != s@.skip(at as int).subrange(0, pat.len() as int)[j as int]);
            return false;
        }
        j = j + 1;
    }
    assert(pat@ =~= s@.skip(at as int).subrange(0, pat.len() as int));
    true
}

/// Appends the characters of `src` to `dst`.
pub fn extend_chars(dst: &mut Vec<char>, src: &Vec<char>)
    ensures
        final(dst)@ == old(dst)@ + src@,
{
    let mut i: usize = 0;
    while i < src.len()
        invariant
            i <= src.len(),
            dst@ =~= old(dst)@ + src@.take(i as int),
        decreases src.len() - i,
    {
        dst.push(src[i]);
        i = i + 1;
    }
    assert(src@.take(src.len() as int) =~= src@);
}

/// Replaces every occurrence of `pat` in `s` by `rep`, scanning left to right.
pub fn replace_chars(s: &Vec<char>, pat: &Vec<char>, rep: &Vec<char>) -> (r: Vec<char>)
    requires
        pat.len() > 0,
    ensures
        r@ == replace_all(s@, pat@, rep@),
{
    let mut out: Vec<char> = Vec::new();
    let mut i: usize = 0;
    assert(s@.skip(0) =~= s@);
    while i < s.len()
        invariant
            i <= s.len(),
            pat.len() > 0,
            out@ + replace_all(s@.skip(i as int), pat@, rep@) == replace_all(s@, pat@, rep@),
        decreases s.len() - i,
    {
        if occurs_at(s, i, pat) {
            let ghost before = out@;
            extend_chars(&mut out, rep);
            assert(before + (rep@ + replace_all(s@.skip(i + pat.len()), pat@, rep@)) =~= out@
                + replace_all(s@.skip(i + pat.len()), pat@, rep@));
            assert(s@.skip(i as int).skip(pat.len() as int) =~= s@.skip(i + pat.len()));
            i = i + pat.len();
        } else {
            let ghost before = out@;
            out.push(s[i]);
            assert(s@.skip(i as int).drop_first() =~= s@.skip(i + 1));
            assert(before + (seq![s@[i as int]] + replace_all(s@.skip(i + 1), pat@, rep@)) =~= out@
                + replace_all(s@.skip(i + 1), pat@, rep@));
            i = i + 1;
        }
    }
    assert(replace_all(s@.skip(i as int), pat@, rep@) =~= Seq::<char>::empty());
    assert(out@ + Seq::<char>::empty() =~= out@);
    out
}

/// Replaces every occurrence of `pat` in `s` by `rep`, as `str::replace` does.
pub fn replace_str(s: &str, pat: &str, rep: &str) -> (r: String)
    requires
        pat@.len() > 0,
    ensures
        r@ == replace_all(s@, pat@, rep@),
{
    let sv = chars_of(s);
    let pv = chars_of(pat);
    let rv = chars_of(rep);
    let out = replace_chars(&sv, &pv, &rv);
    string_from_chars(&out)
}


/// The pieces of `s` between occurrences of `sep`, as `str::split` with a
/// character pattern gives them (always at least one piece).
pub open spec fn split_on(s: Seq<char>, sep: char) -> Seq<Seq<char>>
    decreases s.len(),
{
    if s.len() == 0 {
        seq![Seq::<char>::empty()]
    } else {
        let p = split_on(s.drop_last(), sep);
        if s.last() == sep {
            p.push(Seq::<char>::empty())
        } else {
            p.update(p.len() - 1, p.last().push(s.last()))
        }
    }
}

pub proof fn lemma_split_on_nonempty(s: Seq<char>, sep: char)
    ensures
        split_on(s, sep).len() >= 1,
    decreases s.len(),
{
    if s.len() > 0 {
        lemma_split_on_nonempty(s.drop_last(), sep);
    }
}

/// The views of a sequence of character vectors.
pub open spec fn views(v: Seq<Vec<char>>) -> Seq<Seq<char>> {
    v.map_values(|x: Vec<char>| x@)
}

/// `parts` joined with `sep` between neighbours, as `[T]::join` gives it.
pub open spec fn join(parts: Seq<Seq<char>>, sep: Seq<char>) -> Seq<char>
    decreases parts.len(),
{
    if parts.len() == 0 {
        Seq::<char>::empty()
    } else if parts.len() == 1 {
        parts[0]
    } else {
        join(parts.drop_last(), sep) + sep + parts.last()
    }
}

/// Joins the parts with `sep` between neighbours.
pub fn join_chars(parts: &Vec<Vec<char>>, sep: &Vec<char>) -> (r: Vec<char>)
    ensures
        r@ == join(views(parts@), sep@),
{
    let mut out: Vec<char> = Vec::new();
    let mut i: usize = 0;
    while i < parts.len()
        invariant
            i <= parts.len(),
            out@ == join(views(parts@).take(i as int), sep@),
        decreases parts.len() - i,
    {
        assert(views(parts@).take(i + 1).drop_last() =~= views(parts@).take(i as int));
        if i > 0 {
            extend_chars(&mut out, sep);
        }
        extend_chars(&mut out, &parts[i]);
        i = i + 1;
    }
    assert(views(parts@).take(parts.len() as int) =~= views(parts@));
    out
}

/// The trimmed pieces that are not blank, in order.
pub open spec fn keep_trimmed(pieces: Seq<Seq<char>>) -> Seq<Seq<char>>
    decreases pieces.len(),
{
    if pieces.len() == 0 {
        Seq::<Seq<char>>::empty()
    } else {
        let r = keep_trimmed(pieces.drop_last());
        let t = trim(pieces.last());
        if t.len() > 0 {
            r.push(t)
        } else {
            r
        }
    }
}

/// The lines of `s`, each trimmed, blank ones dropped, joined by `'\n'`:
/// what `s.lines().map(str::trim).filter(|l| !l.is_empty())` joined with
/// `"\n"` gives (the `'\r'` that `lines` strips is white space, so trimming
/// removes it as well).
pub open spec fn compact_lines(s: Seq<char>) -> Seq<char> {
    join(keep_trimmed(split_on(s, '\n')), seq!['\n'])
}

/// Trims every line of `s`, drops blank lines and joins the rest with `'\n'`.
pub fn compact_lines_chars(s: &Vec<char>) -> (r: Vec<char>)
    ensures
        r@ == compact_lines(s@),
{
    let mut lines: Vec<Vec<char>> = Vec::new();
    let mut cur: Vec<char> = Vec::new();
    let mut i: usize = 0;
    assert(s@.take(0) =~= Seq::<char>::empty());
    while i < s.len()
        invariant
            i <= s.len(),
            split_on(s@.take(i as int), '\n').len() >= 1,
            split_on(s@.take(i as int), '\n').last() == cur@,
            keep_trimmed(split_on(s@.take(i as int), '\n').drop_last()) == views(lines@),
        decreases s.len() - i,
    {
        let c = s[i];
        let ghost sp = split_on(s@.take(i as int), '\n');
        assert(s@.take(i + 1).drop_last() =~= s@.take(i as int));
        if c == '\n' {
            let t = trim_chars(&cur);
            if t.len() > 0 {
                lines.push(t);
            }
            assert(split_on(s@.take(i + 1), '\n') == sp.push(Seq::<char>::empty()));
            assert(split_on(s@.take(i + 1), '\n').drop_last() =~= sp);
            assert(sp =~= sp.drop_last().push(sp.last()));
            assert(views(lines@) =~= keep_trimmed(sp));
            cur = Vec::new();
        } else {
            cur.push(c);
            let ghost sp2 = split_on(s@.take(i + 1), '\n');
            assert(sp2 == sp.update(sp.len() - 1, sp.last().push(c)));
            assert(sp2.drop_last() =~= sp.drop_last());
        }
        i = i + 1;
    }
    assert(s@.take(s.len() as int) =~= s@);
    let ghost sp = split_on(s@, '\n');
    let t = trim_chars(&cur);
    if t.len() > 0 {
        lines.push(t);
    }
    assert(sp =~= sp.drop_last().push(sp.last()));
    assert(views(lines@) =~= keep_trimmed(sp));
    let mut sep: Vec<char> = Vec::new();
    sep.push('\n');
    assert(sep@ =~= seq!['\n']);
    join_chars(&lines, &sep)
}


/// The characters of `v` from `a` up to, not including, `b`.
pub fn sub_chars(v: &Vec<char>, a: usize, b: usize) -> (r: Vec<char>)
    requires
        a <= b <= v.len(),
    ensures
        r@ == v@.subrange(a as int, b as int),
{
    let mut out: Vec<char> = Vec::new();
    let mut i: usize = a;
    while i < b
        invariant
            a <= i <= b <= v.len(),
            out@ =~= v@.subrange(a as int, i as int),
        decreases b - i,
    {
        out.push(v[i]);
        i = i + 1;
    }
    out
}

/// Whether position `i` holds the first occurrence of `c` in `s`.
pub open spec fn is_first_index(s: Seq<char>, c: char, i: int) -> bool {
    &&& 0 <= i < s.len()
    &&& s[i] == c
    &&& forall|j: int| 0 <= j < i ==> s[j] != c
}

pub proof fn lemma_first_index_unique(s: Seq<char>, c: char, i: int, k: int)
    requires
        is_first_index(s, c, i),
        is_first_index(s, c, k),
    ensures
        i == k,
{
    if i < k {
        assert(s[i] != c);
    } else if k < i {
        assert(s[k] != c);
    }
}

/// The position of the first `c` in `v`, as `str::find` with a character.
pub fn find_char(v: &Vec<char>, c: char) -> (r: Option<usize>)
    ensures
        match r {
            Some(i) => is_first_index(v@, c, i as int),
            None => !v@.contains(c),
        },
{
    let mut i: usize = 0;
    while i < v.len()
        invariant
            i <= v.len(),
            forall|j: int| 0 <= j < i ==> v@[j] != c,
        decreases v.len() - i,
    {
        if v[i] == c {
            return Some(i);
        }
        i = i + 1;
    }
    None
}


/// `a` followed by `b`.
pub fn concat2(a: &str, b: &str) -> (r: String)
    ensures
        r@ == a@ + b@,
{
    let mut v = chars_of(a);
    let w = chars_of(b);
    extend_chars(&mut v, &w);
    string_from_chars(&v)
}

/// `a`, `b` and `c` in a row.
pub fn concat3(a: &str, b: &str, c: &str) -> (r: String)
    ensures
        r@ == a@ + b@ + c@,
{
    let ab = concat2(a, b);
    concat2(ab.as_str(), c)
}

/// `a`, `b`, `c` and `d` in a row.
pub fn concat4(a: &str, b: &str, c: &str, d: &str) -> (r: String)
    ensures
        r@ == a@ + b@ + c@ + d@,
{
    let abc = concat3(a, b, c);
    concat2(abc.as_str(), d)
}

/// `a` through `e` in a row.
pub fn concat5(a: &str, b: &str, c: &str, d: &str, e: &str) -> (r: String)
    ensures
        r@ == a@ + b@ + c@ + d@ + e@,
{
    let abcd = concat4(a, b, c, d);
    concat2(abcd.as_str(), e)
}

/// Whether `pat` occurs somewhere in `s`.
pub open spec fn contains_text(s: Seq<char>, pat: Seq<char>) -> bool {
    exists|i: int| 0 <= i <= s.len() && #[trigger] pat.is_prefix_of(s.skip(i))
}

/// Whether `pat` occurs somewhere in `s`, as `str::contains` tells.
pub fn contains_str(s: &str, pat: &str) -> (r: bool)
    ensures
        r == contains_text(s@, pat@),
{
    let v = chars_of(s);
    let p = chars_of(pat);
    let mut i: usize = 0;
    while i < v.len()
        invariant
            i <= v.len(),
            v@ == s@,
            p@ == pat@,
            forall|j: int| 0 <= j < i ==> !(#[trigger] p@.is_prefix_of(v@.skip(j))),
        decreases v.len() - i,
    {
        if occurs_at(&v, i, &p) {
            return true;
        }
        i = i + 1;
    }
    if occurs_at(&v, i, &p) {
        return true;
    }
    proof {
        assert forall|j: int| 0 <= j <= s@.len() implies !(#[trigger] pat@.is_prefix_of(s@.skip(j))) by {
            if j < i {
            }
        }
    }
    false
}


/// Splits `s` at every `sep`.
pub fn split_chars(s: &Vec<char>, sep: char) -> (r: Vec<Vec<char>>)
    ensures
        views(r@) == split_on(s@, sep),
{
    let mut pieces: Vec<Vec<char>> = Vec::new();
    let mut cur: Vec<char> = Vec::new();
    let mut i: usize = 0;
    assert(s@.take(0) =~= Seq::<char>::empty());
    assert(views(pieces@).push(cur@) =~= split_on(s@.take(0), sep));
    while i < s.len()
        invariant
            i <= s.len(),
            views(pieces@).push(cur@) == split_on(s@.take(i as int), sep),
        decreases s.len() - i,
    {
        let c = s[i];
        let ghost sp = split_on(s@.take(i as int), sep);
        assert(s@.take(i + 1).drop_last() =~= s@.take(i as int));
        if c == sep {
            let ghost before = pieces@;
            pieces.push(cur);
            cur = Vec::new();
            assert(views(pieces@) =~= views(before).push(sp.last()));
            assert(views(pieces@).push(cur@) =~= split_on(s@.take(i + 1), sep));
        } else {
            cur.push(c);
            assert(views(pieces@).push(cur@) =~= sp.update(sp.len() - 1, sp.last().push(c)));
        }
        i = i + 1;
    }
    assert(s@.take(s.len() as int) =~= s@);
    let ghost before = pieces@;
    pieces.push(cur);
    assert(views(pieces@) =~= views(before).push(cur@));
    pieces
}

/// The ASCII lower-case form of `c`; other characters are unchanged.
pub open spec fn ascii_lower(c: char) -> char {
    if 65 <= (c as u32) <= 90 {
        (((c as u32) + 32) as u8) as char
    } else {
        c
    }
}

/// `s` with ASCII letters in lower case, as `str::to_ascii_lowercase` gives it.
pub open spec fn ascii_lowercase(s: Seq<char>) -> Seq<char> {
    s.map_values(|c: char| ascii_lower(c))
}

/// `s` with ASCII letters in lower case.
pub fn to_ascii_lowercase(s: &str) -> (r: String)
    ensures
        r@ == ascii_lowercase(s@),
{
    let v = chars_of(s);
    let mut out: Vec<char> = Vec::new();
    let mut i: usize = 0;
    while i < v.len()
        invariant
            i <= v.len(),
            v@ == s@,
            out@ =~= ascii_lowercase(v@.take(i as int)),
        decreases v.len() - i,
    {
        let c = v[i];
        let n = c as u32;
        let l = if 65 <= n && n <= 90 {
            ((n + 32) as u8) as char
        } else {
            c
        };
        out.push(l);
        assert(ascii_lowercase(v@.take(i + 1)) =~= ascii_lowercase(v@.take(i as int)).push(ascii_lower(c)));
        i = i + 1;
    }
    assert(v@.take(v.len() as int) =~= v@);
    string_from_chars(&out)
}


proof fn lemma_split_without_sep(x: Seq<char>, sep: char)
    requires
        !x.contains(sep),
    ensures
        split_on(x, sep) == seq![x],
    decreases x.len(),
{
    if x.len() > 0 {
        let y = x.drop_last();
        assert(!y.contains(sep)) by {
            if y.contains(sep) {
                let k = choose|k: int| 0 <= k < y.len() && y[k] == sep;
                assert(x[k] == sep);
            }
        }
        lemma_split_without_sep(y, sep);
        assert(x.last() != sep) by {
            assert(x[x.len() - 1] == x.last());
        }
        assert(y.push(x.last()) =~= x);
        assert(split_on(x, sep) == seq![y].update(0, y.push(x.last())));
        assert(seq![y].update(0, y.push(x.last())) =~= seq![x]);
    } else {
        assert(x =~= Seq::<char>::empty());
    }
}

proof fn lemma_split_after_sep(a: Seq<char>, x: Seq<char>, sep: char)
    requires
        !x.contains(sep),
    ensures
        split_on(a + seq![sep] + x, sep) == split_on(a, sep).push(x),
    decreases x.len(),
{
    lemma_split_on_nonempty(a, sep);
    if x.len() == 0 {
        let w = a + seq![sep] + x;
        assert(w.drop_last() =~= a);
        assert(w.last() == sep);
        assert(x =~= Seq::<char>::empty());
        assert(split_on(w, sep) == split_on(a, sep).push(Seq::<char>::empty()));
    } else {
        let y = x.drop_last();
        assert(!y.contains(sep)) by {
            if y.contains(sep) {
                let k = choose|k: int| 0 <= k < y.len() && y[k] == sep;
                assert(x[k] == sep);
            }
        }
        lemma_split_after_sep(a, y, sep);
        let w = a + seq![sep] + x;
        assert(w.drop_last() =~= a + seq![sep] + y);
        assert(w.last() == x.last());
        assert(x.last() != sep) by {
            assert(x[x.len() - 1] == x.last());
        }
        assert(y.push(x.last()) =~= x);
        let p = split_on(w.drop_last(), sep);
        assert(p == split_on(a, sep).push(y));
        assert(split_on(w, sep) == p.update(p.len() - 1, p.last().push(w.last())));
        assert(p.update(p.len() - 1, p.last().push(w.last())) =~= split_on(a, sep).push(x));
    }
}

/// Splitting a join at the separator gives back the parts, when no part
/// holds the separator.
pub proof fn lemma_split_join(parts: Seq<Seq<char>>, sep: char)
    requires
        parts.len() > 0,
        forall|i: int| 0 <= i < parts.len() ==> !(#[trigger] parts[i]).contains(sep),
    ensures
        split_on(join(parts, seq![sep]), sep) == parts,
    decreases parts.len(),
{
    if parts.len() == 1 {
        lemma_split_without_sep(parts[0], sep);
        assert(seq![parts[0]] =~= parts);
    } else {
        let init = parts.drop_last();
        lemma_split_join(init, sep);
        assert(!parts.last().contains(sep)) by {
            assert(parts[parts.len() - 1] == parts.last());
        }
        lemma_split_after_sep(join(init, seq![sep]), parts.last(), sep);
        assert(init.push(parts.last()) =~= parts);
    }
}

/// No piece of a split holds the separator.
pub proof fn lemma_split_pieces_lack_sep(s: Seq<char>, sep: char)
    ensures
        forall|i: int| 0 <= i < split_on(s, sep).len() ==> !(#[trigger] split_on(s, sep)[i]).contains(sep),
    decreases s.len(),
{
    if s.len() > 0 {
        lemma_split_pieces_lack_sep(s.drop_last(), sep);
        lemma_split_on_nonempty(s.drop_last(), sep);
        let p = split_on(s.drop_last(), sep);
        if s.last() != sep {
            let q = p.last().push(s.last());
            assert(!q.contains(sep)) by {
                if q.contains(sep) {
                    let k = choose|k: int| 0 <= k < q.len() && q[k] == sep;
                    if k < p.last().len() {
                        assert(p[p.len() - 1][k] == sep);
                    }
                }
            }
            assert forall|i: int| 0 <= i < split_on(s, sep).len() implies !(#[trigger] split_on(s, sep)[i]).contains(sep) by {
                if i < p.len() - 1 {
                    assert(split_on(s, sep)[i] == p[i]);
                } else {
                    assert(split_on(s, sep)[i] == q);
                }
            }
        } else {
            assert forall|i: int| 0 <= i < split_on(s, sep).len() implies !(#[trigger] split_on(s, sep)[i]).contains(sep) by {
                if i < p.len() {
                    assert(split_on(s, sep)[i] == p[i]);
                } else {
                    assert(split_on(s, sep)[i] =~= Seq::<char>::empty());
                }
            }
        }
    }
}

proof fn lemma_trim_start_sub(x: Seq<char>, c: char)
    ensures
        !x.contains(c) ==> !trim_start(x).contains(c),
        trim_start(x).len() == 0 || !is_white_space(trim_start(x)[0]),
        trim_start(x).len() <= x.len(),
        exists|k: int| 0 <= k <= x.len() && trim_start(x) == #[trigger] x.skip(k),
    decreases x.len(),
{
    if x.len() > 0 && is_white_space(x[0]) {
        lemma_trim_start_sub(x.drop_first(), c);
        let k = choose|k: int| 0 <= k <= x.drop_first().len() && trim_start(x.drop_first()) == #[trigger] x.drop_first().skip(k);
        assert(x.drop_first().skip(k) =~= x.skip(k + 1));
        if !x.contains(c) {
            assert(!x.drop_first().contains(c)) by {
                if x.drop_first().contains(c) {
                    let j = choose|j: int| 0 <= j < x.drop_first().len() && x.drop_first()[j] == c;
                    assert(x[j + 1] == c);
                }
            }
        }
    } else {
        assert(x.skip(0) =~= x);
    }
}

proof fn lemma_trim_end_sub(x: Seq<char>, c: char)
    ensures
        !x.contains(c) ==> !trim_end(x).contains(c),
        trim_end(x).len() == 0 || !is_white_space(trim_end(x).last()),
        exists|k: int| 0 <= k <= x.len() && trim_end(x) == #[trigger] x.take(k),
    decreases x.len(),
{
    if x.len() > 0 && is_white_space(x.last()) {
        lemma_trim_end_sub(x.drop_last(), c);
        let k = choose|k: int| 0 <= k <= x.drop_last().len() && trim_end(x.drop_last()) == #[trigger] x.drop_last().take(k);
        assert(x.drop_last().take(k) =~= x.take(k));
        if !x.contains(c) {
            assert(!x.drop_last().contains(c)) by {
                if x.drop_last().contains(c) {
                    let j = choose|j: int| 0 <= j < x.drop_last().len() && x.drop_last()[j] == c;
                    assert(x[j] == c);
                }
            }
        }
    } else {
        assert(x.take(x.len() as int) =~= x);
    }
}

proof fn lemma_trim_start_fixed(x: Seq<char>)
    requires
        x.len() == 0 || !is_white_space(x[0]),
    ensures
        trim_start(x) == x,
{
}

proof fn lemma_trim_end_fixed(x: Seq<char>)
    requires
        x.len() == 0 || !is_white_space(x.last()),
    ensures
        trim_end(x) == x,
{
}

/// Trimming is idempotent, and trimming keeps out a character the text did
/// not hold.
pub proof fn lemma_trim_trimmed(x: Seq<char>, c: char)
    ensures
        trim(trim(x)) == trim(x),
        !x.contains(c) ==> !trim(x).contains(c),
{
    lemma_trim_start_sub(x, c);
    let a = trim_start(x);
    lemma_trim_end_sub(a, c);
    let t = trim_end(a);
    let k = choose|k: int| 0 <= k <= a.len() && t == #[trigger] a.take(k);
    if t.len() > 0 {
        assert(t[0] == a[0]);
    }
    lemma_trim_start_fixed(t);
    lemma_trim_end_fixed(t);
}

/// Every kept piece is non-empty, trimmed, and free of `sep` when the
/// pieces were.
proof fn lemma_keep_trimmed_lines(pieces: Seq<Seq<char>>, sep: char)
    requires
        forall|i: int| 0 <= i < pieces.len() ==> !(#[trigger] pieces[i]).contains(sep),
    ensures
        forall|i: int|
            0 <= i < keep_trimmed(pieces).len() ==> {
                let l = #[trigger] keep_trimmed(pieces)[i];
                &&& l.len() > 0
                &&& trim(l) == l
                &&& !l.contains(sep)
            },
    decreases pieces.len(),
{
    if pieces.len() > 0 {
        let init = pieces.drop_last();
        assert forall|i: int| 0 <= i < init.len() implies !(#[trigger] init[i]).contains(sep) by {
            assert(init[i] == pieces[i]);
        }
        lemma_keep_trimmed_lines(init, sep);
        let last = pieces.last();
        assert(!last.contains(sep)) by {
            assert(pieces[pieces.len() - 1] == last);
        }
        lemma_trim_trimmed(last, sep);
        let r = keep_trimmed(init);
        let t = trim(last);
        assert forall|i: int| 0 <= i < keep_trimmed(pieces).len() implies {
            let l = #[trigger] keep_trimmed(pieces)[i];
            &&& l.len() > 0
            &&& trim(l) == l
            &&& !l.contains(sep)
        } by {
            if i < r.len() {
                assert(keep_trimmed(pieces)[i] == r[i]);
            } else {
                assert(keep_trimmed(pieces)[i] == t);
            }
        }
    }
}

/// The lines of `compact_lines(s)` are exactly the non-blank lines of `s`,
/// each trimmed: when there is any text left, splitting it at `'\n'` gives
/// lines that are all non-empty and have no white space at either end.
pub proof fn law_compact_lines_are_trimmed(s: Seq<char>)
    ensures
        keep_trimmed(split_on(s, '\n')).len() > 0 ==> split_on(compact_lines(s), '\n') == keep_trimmed(
            split_on(s, '\n'),
        ),
        keep_trimmed(split_on(s, '\n')).len() == 0 ==> compact_lines(s).len() == 0,
        forall|i: int|
            0 <= i < keep_trimmed(split_on(s, '\n')).len() ==> {
                let l = #[trigger] keep_trimmed(split_on(s, '\n'))[i];
                &&& l.len() > 0
                &&& trim(l) == l
                &&& !l.contains('\n')
            },
{
    lemma_split_pieces_lack_sep(s, '\n');
    lemma_keep_trimmed_lines(split_on(s, '\n'), '\n');
    let kept = keep_trimmed(split_on(s, '\n'));
    if kept.len() > 0 {
        lemma_split_join(kept, '\n');
    }
}

/// Keeping the trimmed lines keeps every non-blank piece, repeats
/// included, in order: it is the pieces trimmed with the blank ones
/// filtered out.
pub proof fn law_keep_trimmed_keeps_every_nonblank(pieces: Seq<Seq<char>>)
    ensures
        keep_trimmed(pieces) == pieces.map_values(|p: Seq<char>| trim(p)).filter(|t: Seq<char>| t.len() > 0),
    decreases pieces.len(),
{
    reveal(Seq::filter);
    if pieces.len() > 0 {
        law_keep_trimmed_keeps_every_nonblank(pieces.drop_last());
        let m = pieces.map_values(|p: Seq<char>| trim(p));
        assert(m.drop_last() =~= pieces.drop_last().map_values(|p: Seq<char>| trim(p)));
        assert(m.last() == trim(pieces.last()));
        assert(m.filter(|t: Seq<char>| t.len() > 0) == (if trim(pieces.last()).len() > 0 {
            m.drop_last().filter(|t: Seq<char>| t.len() > 0).push(m.last())
        } else {
            m.drop_last().filter(|t: Seq<char>| t.len() > 0)
        }));
    } else {
        assert(pieces.map_values(|p: Seq<char>| trim(p)) =~= Seq::<Seq<char>>::empty());
    }
}

/// Keeping the trimmed lines of two runs of pieces, one after the other,
/// keeps those of the first followed by those of the second.
pub proof fn law_keep_trimmed_concatenates(a: Seq<Seq<char>>, b: Seq<Seq<char>>)
    ensures
        keep_trimmed(a + b) == keep_trimmed(a) + keep_trimmed(b),
    decreases b.len(),
{
    if b.len() == 0 {
        assert(a + b =~= a);
        assert(keep_trimmed(a) + keep_trimmed(b) =~= keep_trimmed(a));
    } else {
        law_keep_trimmed_concatenates(a, b.drop_last());
        assert((a + b).drop_last() =~= a + b.drop_last());
        assert((a + b).last() == b.last());
        let t = trim(b.last());
        if t.len() > 0 {
            assert(keep_trimmed(a) + keep_trimmed(b.drop_last()).push(t) =~= (keep_trimmed(a)
                + keep_trimmed(b.drop_last())).push(t));
        }
    }
}

/// One piece is kept, trimmed, exactly when it is not blank.
pub proof fn law_keep_trimmed_one(p: Seq<char>)
    ensures
        keep_trimmed(seq![p]) == (if trim(p).len() > 0 { seq![trim(p)] } else { Seq::<Seq<char>>::empty() }),
{
    reveal_with_fuel(keep_trimmed, 2);
    assert(seq![p].drop_last() =~= Seq::<Seq<char>>::empty());
    assert(Seq::<Seq<char>>::empty().push(trim(p)) =~= seq![trim(p)]);
}

} // verus!
