//! Searching, splitting, joining and replacing within character sequences.
use vstd::prelude::*;
use crate::text::push_chars;

verus! {

/// `pat` occurs in `s` starting at index `i`.
pub open spec fn matches_at(s: Seq<char>, pat: Seq<char>, i: int) -> bool {
    0 <= i && i + pat.len() <= s.len() && s.subrange(i, i + pat.len()) == pat
}

/// The first index `j >= i` at which `pat` occurs in `s`.
pub open spec fn find_from(s: Seq<char>, pat: Seq<char>, i: int) -> Option<int>
    decreases s.len() + 1 - i,
{
    if i < 0 || i > s.len() {
        None
    } else if matches_at(s, pat, i) {
        Some(i)
    } else {
        find_from(s, pat, i + 1)
    }
}

/// The first index at which `pat` occurs in `s` (what `str::find` returns).
pub open spec fn find(s: Seq<char>, pat: Seq<char>) -> Option<int> {
    find_from(s, pat, 0)
}

/// The last index `j <= i` at which `pat` occurs in `s`.
pub open spec fn rfind_upto(s: Seq<char>, pat: Seq<char>, i: int) -> Option<int>
    decreases i + 1,
{
    if i < 0 {
        None
    } else if matches_at(s, pat, i) {
        Some(i)
    } else {
        rfind_upto(s, pat, i - 1)
    }
}

/// The last index at which `pat` occurs in `s` (what `str::rfind` returns).
pub open spec fn rfind(s: Seq<char>, pat: Seq<char>) -> Option<int> {
    rfind_upto(s, pat, s.len() - pat.len())
}

pub proof fn lemma_find_from_bounds(s: Seq<char>, pat: Seq<char>, i: int)
    ensures
        find_from(s, pat, i) matches Some(j) ==> i <= j && matches_at(s, pat, j),
    decreases s.len() + 1 - i,
{
    if !(i < 0 || i > s.len()) && !matches_at(s, pat, i) {
        lemma_find_from_bounds(s, pat, i + 1);
    }
}

pub proof fn lemma_rfind_upto_bounds(s: Seq<char>, pat: Seq<char>, i: int)
    ensures
        rfind_upto(s, pat, i) matches Some(j) ==> 0 <= j <= i && matches_at(s, pat, j),
    decreases i + 1,
{
    if i >= 0 && !matches_at(s, pat, i) {
        lemma_rfind_upto_bounds(s, pat, i - 1);
    }
}

/// Searching forward across a stretch where `pat` does not occur.
pub proof fn lemma_find_from_skip(s: Seq<char>, pat: Seq<char>, i: int, j: int)
    requires
        0 <= i <= j <= s.len(),
        forall|k: int| i <= k < j ==> !#[trigger] matches_at(s, pat, k),
    ensures
        find_from(s, pat, i) == find_from(s, pat, j),
    decreases j - i,
{
    if i < j {
        assert(!matches_at(s, pat, i));
        lemma_find_from_skip(s, pat, i + 1, j);
    }
}

/// Searching backward across a stretch where `pat` does not occur.
pub proof fn lemma_rfind_upto_skip(s: Seq<char>, pat: Seq<char>, i: int, j: int)
    requires
        -1 <= j <= i,
        forall|k: int| j < k <= i ==> !#[trigger] matches_at(s, pat, k),
    ensures
        rfind_upto(s, pat, i) == rfind_upto(s, pat, j),
    decreases i - j,
{
    if j < i {
        assert(!matches_at(s, pat, i));
        lemma_rfind_upto_skip(s, pat, i - 1, j);
    }
}

/// Whether `pat` occurs in `s` at index `i`.
pub fn matches_at_chars(s: &[char], pat: &[char], i: usize) -> (r: bool)
    ensures
        r == matches_at(s@, pat@, i as int),
{
    if i > s.len() || pat.len() > s.len() - i {
        return false;
    }
    let mut k: usize = 0;
    while k < pat.len()
        invariant
            i + pat.len() <= s.len(),
            k <= pat.len(),
            forall|j: int| 0 <= j < k ==> #[trigger] s@[i + j] == pat@[j],
        decreases pat.len() - k,
    {
        if s[i + k] != pat[k] {
            assert(s@.subrange(i as int, i + pat.len())[k as int] != pat@[k as int]);
            return false;
        }
        k = k + 1;
    }
    assert forall|j: int| 0 <= j < pat.len() implies s@.subrange(i as int, i + pat.len())[j]
        == pat@[j] by {
        assert(s@[i + j] == pat@[j]);
    }
    assert(s@.subrange(i as int, i + pat.len()) =~= pat@);
    true
}

/// The first index at or after `from` where `pat` occurs in `s`.
pub fn find_from_chars(s: &[char], pat: &[char], from: usize) -> (r: Option<usize>)
    ensures
        match r {
            Some(p) => find_from(s@, pat@, from as int) == Some(p as int),
            None => find_from(s@, pat@, from as int) is None,
        },
{
    let mut i = from;
    if i > s.len() {
        return None;
    }
    loop
        invariant
            from <= i <= s.len(),
            find_from(s@, pat@, from as int) == find_from(s@, pat@, i as int),
        decreases s.len() - i,
    {
        if matches_at_chars(s, pat, i) {
            return Some(i);
        }
        if i == s.len() {
            assert(find_from(s@, pat@, i + 1) == None::<int>);
            return None;
        }
        i = i + 1;
    }
}

/// The first index where `pat` occurs in `s`.
pub fn find_chars(s: &[char], pat: &[char]) -> (r: Option<usize>)
    ensures
        match r {
            Some(p) => find(s@, pat@) == Some(p as int),
            None => find(s@, pat@) is None,
        },
{
    find_from_chars(s, pat, 0)
}

/// The last index where `pat` occurs in `s`.
pub fn rfind_chars(s: &[char], pat: &[char]) -> (r: Option<usize>)
    ensures
        match r {
            Some(p) => rfind(s@, pat@) == Some(p as int),
            None => rfind(s@, pat@) is None,
        },
{
    if pat.len() > s.len() {
        assert(rfind(s@, pat@) == None::<int>);
        return None;
    }
    let mut i: usize = s.len() - pat.len();
    loop
        invariant
            i <= s.len() - pat.len(),
            rfind(s@, pat@) == rfind_upto(s@, pat@, i as int),
        decreases i,
    {
        if matches_at_chars(s, pat, i) {
            return Some(i);
        }
        if i == 0 {
            assert(rfind_upto(s@, pat@, -1) == None::<int>);
            return None;
        }
        i = i - 1;
    }
}

// ───────────────────────── replacing ─────────────────────────

/// `s` from index `i` on, with each non-overlapping occurrence of `pat`,
/// taken from left to right, replaced by `rep`.
pub open spec fn replace_from(s: Seq<char>, pat: Seq<char>, rep: Seq<char>, i: int) -> Seq<char>
    decreases s.len() - i,
{
    if i < 0 || i >= s.len() {
        Seq::empty()
    } else if pat.len() > 0 && matches_at(s, pat, i) {
        rep + replace_from(s, pat, rep, i + pat.len())
    } else {
        seq![s[i]] + replace_from(s, pat, rep, i + 1)
    }
}

/// What `str::replace(pat, rep)` returns for a non-empty `pat`.
pub open spec fn replace_all(s: Seq<char>, pat: Seq<char>, rep: Seq<char>) -> Seq<char> {
    replace_from(s, pat, rep, 0)
}

/// `s` with every occurrence of `pat` (non-empty), from left to right, replaced by `rep`.
pub fn replace_all_chars(s: &[char], pat: &[char], rep: &[char]) -> (r: Vec<char>)
    requires
        pat.len() > 0,
    ensures
        r@ == replace_all(s@, pat@, rep@),
{
    let mut out: Vec<char> = Vec::new();
    let mut i: usize = 0;
    while i < s.len()
        invariant
            pat.len() > 0,
            i <= s.len(),
            out@ + replace_from(s@, pat@, rep@, i as int) == replace_all(s@, pat@, rep@),
        decreases s.len() - i,
    {
        if matches_at_chars(s, pat, i) {
            let ghost before = out@;
            let mut k: usize = 0;
            while k < rep.len()
                invariant
                    k <= rep.len(),
                    out@ == before + rep@.take(k as int),
                decreases rep.len() - k,
            {
                out.push(rep[k]);
                assert(rep@.take(k + 1) == rep@.take(k as int).push(rep@[k as int]));
                k = k + 1;
            }
            assert(rep@.take(rep.len() as int) == rep@);
            assert(out@ + replace_from(s@, pat@, rep@, i + pat.len()) == before + (rep@
                + replace_from(s@, pat@, rep@, i + pat.len())));
            i = i + pat.len();
        } else {
            let ghost before = out@;
            out.push(s[i]);
            assert(out@ + replace_from(s@, pat@, rep@, i + 1) == before + (seq![s@[i as int]]
                + replace_from(s@, pat@, rep@, i + 1)));
            i = i + 1;
        }
    }
    assert(replace_from(s@, pat@, rep@, i as int) == Seq::<char>::empty());
    assert(out@ + Seq::<char>::empty() == out@);
    out
}

// ───────────────────────── joining ─────────────────────────

/// The parts joined with `sep` between neighbours (what `[..].join(sep)` returns).
pub open spec fn join(parts: Seq<Seq<char>>, sep: Seq<char>) -> Seq<char>
    decreases parts.len(),
{
    if parts.len() == 0 {
        Seq::empty()
    } else if parts.len() == 1 {
        parts[0]
    } else {
        join(parts.drop_last(), sep) + sep + parts.last()
    }
}

/// The views of a vector of strings.
pub open spec fn strings_view(v: Seq<String>) -> Seq<Seq<char>> {
    v.map_values(|s: String| s@)
}

/// The strings of `parts` joined with `sep` between neighbours.
pub fn join_strings(parts: &Vec<String>, sep: &str) -> (r: String)
    ensures
        r@ == join(strings_view(parts@), sep@),
{
    let mut r = String::new();
    let mut i: usize = 0;
    while i < parts.len()
        invariant
            i <= parts.len(),
            r@ == join(strings_view(parts@).take(i as int), sep@),
        decreases parts.len() - i,
    {
        let ghost t = strings_view(parts@).take(i + 1);
        assert(t.drop_last() == strings_view(parts@).take(i as int));
        if i > 0 {
            r.append(sep);
        }
        r.append(parts[i].as_str());
        i = i + 1;
    }
    assert(strings_view(parts@).take(parts.len() as int) == strings_view(parts@));
    r
}

// ───────────────────────── lines ─────────────────────────

/// The first index `j >= i` holding `c`.
pub open spec fn index_of_from(s: Seq<char>, c: char, i: int) -> Option<int>
    decreases s.len() - i,
{
    if i < 0 || i >= s.len() {
        None
    } else if s[i] == c {
        Some(i)
    } else {
        index_of_from(s, c, i + 1)
    }
}

/// `l` without one trailing carriage return.
pub open spec fn strip_cr(l: Seq<char>) -> Seq<char> {
    if l.len() > 0 && l.last() == '\r' {
        l.drop_last()
    } else {
        l
    }
}

/// The lines of `s` from index `i` on, as `str::lines` gives them: split at
/// each `\n`, a `\r` right before it dropped, no empty line after a final `\n`.
pub open spec fn lines_from(s: Seq<char>, i: int) -> Seq<Seq<char>>
    decreases s.len() - i,
{
    if i < 0 || i >= s.len() {
        Seq::empty()
    } else {
        match index_of_from(s, '\n', i) {
            None => seq![s.subrange(i, s.len() as int)],
            Some(k) => if i <= k < s.len() {
                seq![strip_cr(s.subrange(i, k))] + lines_from(s, k + 1)
            } else {
                Seq::empty()
            },
        }
    }
}

/// The lines of `s` (what `str::lines` returns).
pub open spec fn lines(s: Seq<char>) -> Seq<Seq<char>> {
    lines_from(s, 0)
}

proof fn lemma_index_of_from_bounds(s: Seq<char>, c: char, i: int)
    ensures
        index_of_from(s, c, i) matches Some(k) ==> i <= k < s.len() && s[k] == c,
    decreases s.len() - i,
{
    if !(i < 0 || i >= s.len()) && s[i] != c {
        lemma_index_of_from_bounds(s, c, i + 1);
    }
}

fn subrange_chars(v: &[char], a: usize, b: usize) -> (r: Vec<char>)
    requires
        a <= b <= v.len(),
    ensures
        r@ == v@.subrange(a as int, b as int),
{
    let mut r: Vec<char> = Vec::new();
    let mut k = a;
    while k < b
        invariant
            a <= k <= b <= v.len(),
            r@ == v@.subrange(a as int, k as int),
        decreases b - k,
    {
        r.push(v[k]);
        assert(v@.subrange(a as int, k + 1) == v@.subrange(a as int, k as int).push(v@[k as int]));
        k = k + 1;
    }
    r
}

/// The characters `v[a..b]`.
pub fn slice_chars(v: &[char], a: usize, b: usize) -> (r: Vec<char>)
    requires
        a <= b <= v.len(),
    ensures
        r@ == v@.subrange(a as int, b as int),
{
    subrange_chars(v, a, b)
}

/// The views of a vector of character vectors.
pub open spec fn char_vecs_view(v: Seq<Vec<char>>) -> Seq<Seq<char>> {
    v.map_values(|l: Vec<char>| l@)
}

/// The lines of `s`, split as `str::lines` splits them.
pub fn lines_chars(s: &[char]) -> (r: Vec<Vec<char>>)
    ensures
        char_vecs_view(r@) == lines(s@),
{
    let mut r: Vec<Vec<char>> = Vec::new();
    let mut i: usize = 0;
    while i < s.len()
        invariant
            i <= s.len(),
            char_vecs_view(r@) + lines_from(s@, i as int) == lines(s@),
        decreases s.len() - i,
    {
        let mut k = i;
        while k < s.len() && s[k] != '\n'
            invariant
                i <= k <= s.len(),
                index_of_from(s@, '\n', i as int) == index_of_from(s@, '\n', k as int),
            decreases s.len() - k,
        {
            k = k + 1;
        }
        let ghost before = char_vecs_view(r@);
        if k == s.len() {
            let line = subrange_chars(s, i, k);
            r.push(line);
            assert(char_vecs_view(r@) == before.push(line@));
            assert(lines_from(s@, i as int) == seq![s@.subrange(i as int, s.len() as int)]);
            assert(lines_from(s@, k as int) == Seq::<Seq<char>>::empty());
            assert(char_vecs_view(r@) + lines_from(s@, k as int) == before + lines_from(
                s@,
                i as int,
            ));
            i = k;
        } else {
            let end = if k > i && s[k - 1] == '\r' {
                k - 1
            } else {
                k
            };
            let line = subrange_chars(s, i, end);
            proof {
                let full = s@.subrange(i as int, k as int);
                if k > i {
                    assert(full.last() == s@[k - 1]);
                    assert(full.drop_last() == s@.subrange(i as int, k - 1));
                }
                assert(line@ == strip_cr(full));
            }
            r.push(line);
            assert(char_vecs_view(r@) == before.push(line@));
            assert(char_vecs_view(r@) + lines_from(s@, k + 1) == before + lines_from(
                s@,
                i as int,
            ));
            i = k + 1;
        }
    }
    assert(lines_from(s@, i as int) == Seq::<Seq<char>>::empty());
    assert(char_vecs_view(r@) + Seq::<Seq<char>>::empty() == char_vecs_view(r@));
    r
}

} // verus!
