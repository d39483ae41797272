//! Character-level text primitives: whitespace, trimming, collapsing,
//! counting words, and the Unicode character classes the parsers read.
use vstd::prelude::*;
use vstd::std_specs::iter::IteratorSpec;

verus! {

// ───────────────────────── character classes ─────────────────────────

/// The Unicode `White_Space` property, which is what `char::is_whitespace`
/// and `str::split_whitespace` test.
pub open spec fn is_ws(c: char) -> bool {
    let v = c as u32;
    ||| (0x9 <= v && v <= 0xd)
    ||| v == 0x20
    ||| v == 0x85
    ||| v == 0xa0
    ||| v == 0x1680
    ||| (0x2000 <= v && v <= 0x200a)
    ||| v == 0x2028
    ||| v == 0x2029
    ||| v == 0x202f
    ||| v == 0x205f
    ||| v == 0x3000
}

/// Whether `c` is Unicode whitespace.
pub fn is_whitespace_char(c: char) -> (r: bool)
    ensures
        r == is_ws(c),
{
    let v = c as u32;
    (0x9 <= v && v <= 0xd) || v == 0x20 || v == 0x85 || v == 0xa0 || v == 0x1680 || (0x2000
        <= v && v <= 0x200a) || v == 0x2028 || v == 0x2029 || v == 0x202f || v == 0x205f || v
        == 0x3000
}

/// What `char::is_alphabetic` returns (the Unicode `Alphabetic` property).
pub uninterp spec fn unicode_alphabetic(c: char) -> bool;

/// What `char::is_alphanumeric` returns (`Alphabetic` or `Numeric`).
pub uninterp spec fn unicode_alphanumeric(c: char) -> bool;

/// What `char::is_lowercase` returns (the Unicode `Lowercase` property).
pub uninterp spec fn unicode_lowercase(c: char) -> bool;

/// What `char::is_uppercase` returns (the Unicode `Uppercase` property).
pub uninterp spec fn unicode_uppercase(c: char) -> bool;

/// Calls `char::is_alphabetic`; the result is the Unicode `Alphabetic`
/// property of `c`, a function of `c` alone, named `unicode_alphabetic`.
/// Unicode makes every alphabetic character alphanumeric, and among ASCII
/// characters exactly the letters alphabetic.
#[verifier::external_body]
pub(crate) fn char_is_alphabetic(c: char) -> (r: bool)
    ensures
        r == unicode_alphabetic(c),
        r ==> unicode_alphanumeric(c),
        (c as u32) < 128 ==> (r <==> ('a' <= c <= 'z' || 'A' <= c <= 'Z')),
{
    c.is_alphabetic()
}

/// Calls `char::is_alphanumeric`; the result is named `unicode_alphanumeric`.
/// Among ASCII characters exactly the letters and digits are alphanumeric.
#[verifier::external_body]
pub(crate) fn char_is_alphanumeric(c: char) -> (r: bool)
    ensures
        r == unicode_alphanumeric(c),
        (c as u32) < 128 ==> (r <==> ('a' <= c <= 'z' || 'A' <= c <= 'Z' || '0' <= c <= '9')),
{
    c.is_alphanumeric()
}

/// Calls `char::is_lowercase`; the result is named `unicode_lowercase`.
/// Unicode makes every lowercase character alphabetic, and among ASCII
/// characters exactly `a`–`z` lowercase.
#[verifier::external_body]
pub(crate) fn char_is_lowercase(c: char) -> (r: bool)
    ensures
        r == unicode_lowercase(c),
        r ==> unicode_alphabetic(c),
        (c as u32) < 128 ==> (r <==> 'a' <= c <= 'z'),
{
    c.is_lowercase()
}

/// Calls `char::is_uppercase`; the result is named `unicode_uppercase`.
/// Unicode makes every uppercase character alphabetic, and among ASCII
/// characters exactly `A`–`Z` uppercase.
#[verifier::external_body]
pub(crate) fn char_is_uppercase(c: char) -> (r: bool)
    ensures
        r == unicode_uppercase(c),
        r ==> unicode_alphabetic(c),
        (c as u32) < 128 ==> (r <==> 'A' <= c <= 'Z'),
{
    c.is_uppercase()
}

// ───────────────────────── strings and char vectors ─────────────────────────

/// Calls `String::push`, which appends one character at the end.
#[verifier::external_body]
pub(crate) fn push_char(s: &mut String, c: char)
    ensures
        final(s)@ == old(s)@.push(c),
{
    s.push(c);
}

/// The characters of `s`, in order.
pub fn chars_of(s: &str) -> (v: Vec<char>)
    ensures
        v@ == s@,
{
    let mut v: Vec<char> = Vec::new();
    let n = s.unicode_len();
    let mut chars = s.chars();
    let mut i: usize = 0;
    proof {
        broadcast use vstd::string::group_string_axioms;
    }
    while i < n
        invariant
            n == s@.len(),
            i <= n,
            v@ == s@.take(i as int),
            chars.obeys_prophetic_iter_laws(),
            chars.remaining() == s@.skip(i as int),
        decreases n - i,
    {
        proof {
            broadcast use vstd::string::next_postcondition;
        }
        let c = chars.next();
        match c {
            Some(c) => {
                v.push(c);
            },
            None => {
                assert(false);
            },
        }
        assert(v@ == s@.take(i + 1));
        assert(chars.remaining() == s@.skip(i + 1));
        i = i + 1;
    }
    assert(s@.take(n as int) == s@);
    v
}

/// A string holding exactly the characters `v`.
pub fn string_from_chars(v: &[char]) -> (s: String)
    ensures
        s@ == v@,
{
    let mut s = String::new();
    let mut i: usize = 0;
    while i < v.len()
        invariant
            i <= v.len(),
            s@ == v@.take(i as int),
        decreases v.len() - i,
    {
        push_char(&mut s, v[i]);
        assert(v@.take(i + 1) == v@.take(i as int).push(v@[i as int]));
        i = i + 1;
    }
    assert(v@.take(v.len() as int) == v@);
    s
}

// ───────────────────────── whitespace collapsing ─────────────────────────

/// `s` with every run of whitespace replaced by one space and leading and
/// trailing whitespace removed: the words of `s` joined by single spaces.
pub open spec fn normalize(s: Seq<char>) -> Seq<char>
    decreases s.len(),
{
    if s.len() == 0 {
        Seq::empty()
    } else {
        let prev = normalize(s.drop_last());
        let c = s.last();
        if is_ws(c) {
            prev
        } else if s.len() >= 2 && !is_ws(s[s.len() - 2]) {
            prev.push(c)
        } else if prev.len() == 0 {
            prev.push(c)
        } else {
            prev.push(' ').push(c)
        }
    }
}

/// The number of maximal runs of non-whitespace characters in `s`.
pub open spec fn word_count(s: Seq<char>) -> nat
    decreases s.len(),
{
    if s.len() == 0 {
        0
    } else {
        let prev = word_count(s.drop_last());
        if !is_ws(s.last()) && (s.len() == 1 || is_ws(s[s.len() - 2])) {
            prev + 1
        } else {
            prev
        }
    }
}

pub proof fn lemma_word_count_le_len(s: Seq<char>)
    ensures
        word_count(s) <= s.len(),
    decreases s.len(),
{
    if s.len() > 0 {
        lemma_word_count_le_len(s.drop_last());
    }
}

/// Collapses whitespace runs of `v` to single spaces and drops it at both ends.
pub fn normalize_chars(v: &[char]) -> (r: Vec<char>)
    ensures
        r@ == normalize(v@),
{
    let mut out: Vec<char> = Vec::new();
    let mut i: usize = 0;
    while i < v.len()
        invariant
            i <= v.len(),
            out@ == normalize(v@.take(i as int)),
        decreases v.len() - i,
    {
        let c = v[i];
        let ghost t = v@.take(i + 1);
        assert(t.drop_last() == v@.take(i as int));
        if is_whitespace_char(c) {
        } else if i >= 1 && !is_whitespace_char(v[i - 1]) {
            out.push(c);
        } else if out.len() == 0 {
            out.push(c);
        } else {
            out.push(' ');
            out.push(c);
        }
        i = i + 1;
    }
    assert(v@.take(v.len() as int) == v@);
    out
}

/// Counts the whitespace-separated words of `v`.
pub fn word_count_chars(v: &[char]) -> (r: usize)
    ensures
        r == word_count(v@),
{
    let mut n: usize = 0;
    let mut i: usize = 0;
    while i < v.len()
        invariant
            i <= v.len(),
            n == word_count(v@.take(i as int)),
        decreases v.len() - i,
    {
        let ghost t = v@.take(i + 1);
        assert(t.drop_last() == v@.take(i as int));
        proof {
            lemma_word_count_le_len(v@.take(i as int));
        }
        if !is_whitespace_char(v[i]) && (i == 0 || is_whitespace_char(v[i - 1])) {
            n = n + 1;
        }
        i = i + 1;
    }
    assert(v@.take(v.len() as int) == v@);
    n
}

/// What `normalize_text` returns: the words of `text` joined by single spaces.
pub fn normalize_text(text: &str) -> (r: String)
    ensures
        r@ == normalize(text@),
{
    let v = chars_of(text);
    let n = normalize_chars(v.as_slice());
    string_from_chars(n.as_slice())
}

// ───────────────────────── trimming ─────────────────────────

/// `s` without its leading whitespace.
pub open spec fn trim_start(s: Seq<char>) -> Seq<char>
    decreases s.len(),
{
    if s.len() > 0 && is_ws(s[0]) {
        trim_start(s.drop_first())
    } else {
        s
    }
}

/// `s` without its trailing whitespace.
pub open spec fn trim_end(s: Seq<char>) -> Seq<char>
    decreases s.len(),
{
    if s.len() > 0 && is_ws(s.last()) {
        trim_end(s.drop_last())
    } else {
        s
    }
}

/// `s` without leading and trailing whitespace (what `str::trim` returns).
pub open spec fn trim(s: Seq<char>) -> Seq<char> {
    trim_end(trim_start(s))
}

proof fn lemma_trim_start_skip(s: Seq<char>, i: int)
    requires
        0 <= i <= s.len(),
        forall|j: int| 0 <= j < i ==> is_ws(#[trigger] s[j]),
    ensures
        trim_start(s) == trim_start(s.skip(i)),
    decreases i,
{
    if i > 0 {
        assert(s.drop_first().skip(i - 1) == s.skip(i));
        lemma_trim_start_skip(s.drop_first(), i - 1);
    } else {
        assert(s.skip(0) == s);
    }
}

proof fn lemma_trim_end_take(s: Seq<char>, i: int)
    requires
        0 <= i <= s.len(),
        forall|j: int| i <= j < s.len() ==> is_ws(#[trigger] s[j]),
    ensures
        trim_end(s) == trim_end(s.take(i)),
    decreases s.len() - i,
{
    if i < s.len() {
        assert(s.drop_last().take(i) == s.take(i));
        lemma_trim_end_take(s.drop_last(), i);
    } else {
        assert(s.take(i) == s);
    }
}

/// `v` without leading and trailing whitespace.
pub fn trim_chars(v: &[char]) -> (r: Vec<char>)
    ensures
        r@ == trim(v@),
{
    let mut start: usize = 0;
    while start < v.len() && is_whitespace_char(v[start])
        invariant
            start <= v.len(),
            forall|j: int| 0 <= j < start ==> is_ws(#[trigger] v@[j]),
        decreases v.len() - start,
    {
        start = start + 1;
    }
    proof {
        lemma_trim_start_skip(v@, start as int);
    }
    let ghost rest = v@.skip(start as int);
    assert(start == v.len() || !is_ws(rest[0]));
    assert(trim_start(rest) == rest);
    let mut end: usize = v.len();
    while end > start && is_whitespace_char(v[end - 1])
        invariant
            start <= end <= v.len(),
            rest == v@.skip(start as int),
            forall|j: int| end - start <= j < rest.len() ==> is_ws(#[trigger] rest[j]),
        decreases end,
    {
        end = end - 1;
    }
    proof {
        lemma_trim_end_take(rest, end - start);
        let t = rest.take(end - start);
        if t.len() > 0 {
            assert(t.last() == v@[end - 1]);
        }
        assert(trim_end(t) == t);
    }
    let mut r: Vec<char> = Vec::new();
    let mut k: usize = start;
    while k < end
        invariant
            start <= k <= end <= v.len(),
            r@ == v@.subrange(start as int, k as int),
        decreases end - k,
    {
        r.push(v[k]);
        assert(v@.subrange(start as int, k + 1) == v@.subrange(start as int, k as int).push(
            v@[k as int],
        ));
        k = k + 1;
    }
    assert(r@ == rest.take(end - start));
    r
}

// ───────────────────────── sentence punctuation ─────────────────────────

/// The characters that end a sentence: `. ! ? 。 ！ ？ …`.
pub open spec fn is_sentence_punct(c: char) -> bool {
    c == '.' || c == '!' || c == '?' || c == '\u{3002}' || c == '\u{ff01}' || c == '\u{ff1f}'
        || c == '\u{2026}'
}

/// Whether `s` holds a sentence-ending punctuation mark anywhere.
pub open spec fn has_punct(s: Seq<char>) -> bool {
    exists|i: int| 0 <= i < s.len() && is_sentence_punct(#[trigger] s[i])
}

pub fn is_sentence_punct_char(c: char) -> (r: bool)
    ensures
        r == is_sentence_punct(c),
{
    c == '.' || c == '!' || c == '?' || c == '\u{3002}' || c == '\u{ff01}' || c == '\u{ff1f}'
        || c == '\u{2026}'
}

pub fn has_punct_chars(v: &[char]) -> (r: bool)
    ensures
        r == has_punct(v@),
{
    let mut i: usize = 0;
    while i < v.len()
        invariant
            i <= v.len(),
            forall|j: int| 0 <= j < i ==> !is_sentence_punct(#[trigger] v@[j]),
        decreases v.len() - i,
    {
        if is_sentence_punct_char(v[i]) {
            return true;
        }
        i = i + 1;
    }
    false
}

// ───────────────────────── character predicates over strings ─────────────────────────

pub open spec fn has_alphanumeric(s: Seq<char>) -> bool {
    exists|i: int| 0 <= i < s.len() && unicode_alphanumeric(#[trigger] s[i])
}

pub open spec fn has_alphabetic(s: Seq<char>) -> bool {
    exists|i: int| 0 <= i < s.len() && unicode_alphabetic(#[trigger] s[i])
}

pub open spec fn has_lowercase(s: Seq<char>) -> bool {
    exists|i: int| 0 <= i < s.len() && unicode_lowercase(#[trigger] s[i])
}

/// Every alphabetic character of `s` is uppercase.
pub open spec fn alphabetic_all_upper(s: Seq<char>) -> bool {
    forall|i: int|
        0 <= i < s.len() ==> (!unicode_alphabetic(#[trigger] s[i]) || unicode_uppercase(s[i]))
}

pub fn has_alphanumeric_chars(v: &[char]) -> (r: bool)
    ensures
        r == has_alphanumeric(v@),
{
    let mut i: usize = 0;
    while i < v.len()
        invariant
            i <= v.len(),
            forall|j: int| 0 <= j < i ==> !unicode_alphanumeric(#[trigger] v@[j]),
        decreases v.len() - i,
    {
        if char_is_alphanumeric(v[i]) {
            return true;
        }
        i = i + 1;
    }
    false
}

pub fn has_alphabetic_chars(v: &[char]) -> (r: bool)
    ensures
        r == has_alphabetic(v@),
{
    let mut i: usize = 0;
    while i < v.len()
        invariant
            i <= v.len(),
            forall|j: int| 0 <= j < i ==> !unicode_alphabetic(#[trigger] v@[j]),
        decreases v.len() - i,
    {
        if char_is_alphabetic(v[i]) {
            return true;
        }
        i = i + 1;
    }
    false
}

pub fn has_lowercase_chars(v: &[char]) -> (r: bool)
    ensures
        r == has_lowercase(v@),
{
    let mut i: usize = 0;
    while i < v.len()
        invariant
            i <= v.len(),
            forall|j: int| 0 <= j < i ==> !unicode_lowercase(#[trigger] v@[j]),
        decreases v.len() - i,
    {
        if char_is_lowercase(v[i]) {
            return true;
        }
        i = i + 1;
    }
    false
}

pub fn alphabetic_all_upper_chars(v: &[char]) -> (r: bool)
    ensures
        r == alphabetic_all_upper(v@),
{
    let mut i: usize = 0;
    while i < v.len()
        invariant
            i <= v.len(),
            forall|j: int|
                0 <= j < i ==> (!unicode_alphabetic(#[trigger] v@[j]) || unicode_uppercase(v@[j])),
        decreases v.len() - i,
    {
        if char_is_alphabetic(v[i]) && !char_is_uppercase(v[i]) {
            return false;
        }
        i = i + 1;
    }
    true
}

// ───────────────────────── ASCII case ─────────────────────────

/// What `char::to_ascii_lowercase` returns: `A`–`Z` mapped to `a`–`z`.
pub open spec fn ascii_lower(c: char) -> char {
    if 'A' <= c && c <= 'Z' {
        ((c as u32) + 32) as char
    } else {
        c
    }
}

pub open spec fn ascii_lower_seq(s: Seq<char>) -> Seq<char> {
    Seq::new(s.len(), |i: int| ascii_lower(s[i]))
}

/// `a` and `b` are equal once ASCII letters are lowercased (`eq_ignore_ascii_case`).
pub open spec fn eq_ignore_ascii_case(a: Seq<char>, b: Seq<char>) -> bool {
    ascii_lower_seq(a) == ascii_lower_seq(b)
}

pub fn ascii_lower_char(c: char) -> (r: char)
    ensures
        r == ascii_lower(c),
{
    if 'A' <= c && c <= 'Z' {
        let v = (c as u32) + 32;
        assert(v < 128);
        (v as u8) as char
    } else {
        c
    }
}

pub fn ascii_lower_chars(v: &[char]) -> (r: Vec<char>)
    ensures
        r@ == ascii_lower_seq(v@),
{
    let mut r: Vec<char> = Vec::new();
    let mut i: usize = 0;
    while i < v.len()
        invariant
            i <= v.len(),
            r@ == ascii_lower_seq(v@.take(i as int)),
        decreases v.len() - i,
    {
        r.push(ascii_lower_char(v[i]));
        assert(ascii_lower_seq(v@.take(i + 1)) == ascii_lower_seq(v@.take(i as int)).push(
            ascii_lower(v@[i as int]),
        ));
        i = i + 1;
    }
    assert(v@.take(v.len() as int) == v@);
    r
}

pub fn eq_ignore_ascii_case_chars(a: &[char], b: &[char]) -> (r: bool)
    ensures
        r == eq_ignore_ascii_case(a@, b@),
{
    if a.len() != b.len() {
        assert(ascii_lower_seq(a@).len() != ascii_lower_seq(b@).len());
        return false;
    }
    let mut i: usize = 0;
    while i < a.len()
        invariant
            a.len() == b.len(),
            i <= a.len(),
            forall|j: int| 0 <= j < i ==> ascii_lower(#[trigger] a@[j]) == ascii_lower(b@[j]),
        decreases a.len() - i,
    {
        if ascii_lower_char(a[i]) != ascii_lower_char(b[i]) {
            assert(ascii_lower_seq(a@)[i as int] != ascii_lower_seq(b@)[i as int]);
            return false;
        }
        i = i + 1;
    }
    assert(ascii_lower_seq(a@) == ascii_lower_seq(b@));
    true
}

/// Whether `a` and `b` are equal character for character.
pub fn chars_equal(a: &[char], b: &[char]) -> (r: bool)
    ensures
        r == (a@ == b@),
{
    if a.len() != b.len() {
        return false;
    }
    let mut i: usize = 0;
    while i < a.len()
        invariant
            a.len() == b.len(),
            i <= a.len(),
            forall|j: int| 0 <= j < i ==> #[trigger] a@[j] == b@[j],
        decreases a.len() - i,
    {
        if a[i] != b[i] {
            return false;
        }
        i = i + 1;
    }
    assert(a@ == b@);
    true
}

// ───────────────────────── decimal numbers ─────────────────────────

pub open spec fn digit_char(d: nat) -> char {
    if d == 0 {
        '0'
    } else if d == 1 {
        '1'
    } else if d == 2 {
        '2'
    } else if d == 3 {
        '3'
    } else if d == 4 {
        '4'
    } else if d == 5 {
        '5'
    } else if d == 6 {
        '6'
    } else if d == 7 {
        '7'
    } else if d == 8 {
        '8'
    } else {
        '9'
    }
}

/// The decimal digits of `n`, without leading zeros.
pub open spec fn decimal(n: nat) -> Seq<char>
    decreases n,
{
    if n < 10 {
        seq![digit_char(n)]
    } else {
        decimal(n / 10).push(digit_char(n % 10))
    }
}

/// `n` in decimal, left-padded with zeros to at least `width` digits (`{:0width$}`).
pub open spec fn padded_decimal(n: nat, width: nat) -> Seq<char> {
    let d = decimal(n);
    if d.len() >= width {
        d
    } else {
        Seq::new((width - d.len()) as nat, |i: int| '0') + d
    }
}

fn digit(d: usize) -> (c: char)
    requires
        d < 10,
    ensures
        c == digit_char(d as nat),
{
    if d == 0 {
        '0'
    } else if d == 1 {
        '1'
    } else if d == 2 {
        '2'
    } else if d == 3 {
        '3'
    } else if d == 4 {
        '4'
    } else if d == 5 {
        '5'
    } else if d == 6 {
        '6'
    } else if d == 7 {
        '7'
    } else if d == 8 {
        '8'
    } else {
        '9'
    }
}

fn push_decimal(out: &mut Vec<char>, n: usize)
    ensures
        final(out)@ == old(out)@ + decimal(n as nat),
    decreases n,
{
    if n < 10 {
        out.push(digit(n));
    } else {
        push_decimal(out, n / 10);
        out.push(digit(n % 10));
    }
}

/// `n` in decimal, zero-padded to at least `width` digits.
pub fn padded_decimal_chars(n: usize, width: usize) -> (r: Vec<char>)
    ensures
        r@ == padded_decimal(n as nat, width as nat),
{
    let mut d: Vec<char> = Vec::new();
    push_decimal(&mut d, n);
    assert(d@ == decimal(n as nat));
    if d.len() >= width {
        d
    } else {
        let mut r: Vec<char> = Vec::new();
        let k = width - d.len();
        let mut i: usize = 0;
        while i < k
            invariant
                i <= k,
                r@ == Seq::new(i as nat, |j: int| '0'),
            decreases k - i,
        {
            r.push('0');
            assert(r@ == Seq::new((i + 1) as nat, |j: int| '0'));
            i = i + 1;
        }
        let mut j: usize = 0;
        let ghost zs = r@;
        while j < d.len()
            invariant
                j <= d.len(),
                r@ == zs + d@.take(j as int),
            decreases d.len() - j,
        {
            r.push(d[j]);
            assert(d@.take(j + 1) == d@.take(j as int).push(d@[j as int]));
            j = j + 1;
        }
        assert(d@.take(d.len() as int) == d@);
        r
    }
}

/// Appends `v` at the end of `s`.
pub fn push_chars(s: &mut String, v: &[char])
    ensures
        final(s)@ == old(s)@ + v@,
{
    let mut i: usize = 0;
    while i < v.len()
        invariant
            i <= v.len(),
            s@ == old(s)@ + v@.take(i as int),
        decreases v.len() - i,
    {
        push_char(s, v[i]);
        assert(v@.take(i + 1) == v@.take(i as int).push(v@[i as int]));
        i = i + 1;
    }
    assert(v@.take(v.len() as int) == v@);
}

/// Appends `n` in decimal, zero-padded to `width` digits, at the end of `s`.
pub fn push_padded_decimal(s: &mut String, n: usize, width: usize)
    ensures
        final(s)@ == old(s)@ + padded_decimal(n as nat, width as nat),
{
    let d = padded_decimal_chars(n, width);
    push_chars(s, d.as_slice());
}

/// The number of non-whitespace characters of `s`.
pub open spec fn nonws_count(s: Seq<char>) -> nat
    decreases s.len(),
{
    if s.len() == 0 {
        0
    } else {
        nonws_count(s.drop_last()) + if is_ws(s.last()) {
            0nat
        } else {
            1nat
        }
    }
}

pub proof fn lemma_nonws_count_le(s: Seq<char>)
    ensures
        nonws_count(s) <= s.len(),
    decreases s.len(),
{
    if s.len() > 0 {
        lemma_nonws_count_le(s.drop_last());
    }
}

} // verus!
