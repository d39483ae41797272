//! How the `<div>` depth scan that finds the end of a paragraph block walks
//! through a page made of pieces: pieces without `<div`/`</div>` tags leave
//! the depth as it is, and a scan over a piece composes with the scan over
//! what follows it.
use vstd::prelude::*;
use crate::html_gen::{close_of, div_close, div_open};
use crate::search::matches_at;
use crate::html_gen::{chunk_item, chunk_items, chunks_html, escape_html, escape_char, para_block, vocab_html, vocab_row, vocab_rows};
use crate::types::{ChunkView, ParagraphView, ResponseView, VocabView};

verus! {

/// Where a depth scan ends.
pub enum Scan {
    /// The `</div>` closing the outermost open `<div` ends just before this index.
    Closed(int),
    /// The end of the text was reached with this many `<div`s open.
    Open(nat),
}

/// Scanning `t` from `i` with `depth` open `<div`s (as `close_of` does), but
/// reporting the depth left open when the text ends.
pub open spec fn scan(t: Seq<char>, i: int, depth: nat) -> Scan
    decreases t.len() - i,
{
    if i < 0 || i >= t.len() {
        Scan::Open(depth)
    } else if matches_at(t, div_open(), i) {
        scan(t, i + 4, depth + 1)
    } else if matches_at(t, div_close(), i) {
        if depth == 1 {
            Scan::Closed(i + 6)
        } else {
            scan(t, i + 6, (depth - 1) as nat)
        }
    } else {
        scan(t, i + 1, depth)
    }
}

/// A scan result read at an offset of `n` characters.
pub open spec fn shifted(r: Scan, n: int) -> Scan {
    match r {
        Scan::Closed(k) => Scan::Closed(k + n),
        Scan::Open(d) => Scan::Open(d),
    }
}

/// Neither `<div` nor `</div>` starts at `k`, and no text appended to `t`
/// could make one start there: some character inside `t` already differs.
pub open spec fn no_tag_start(t: Seq<char>, k: int) -> bool {
    ||| t[k] != '<'
    ||| (k + 1 < t.len() && t[k + 1] != 'd' && t[k + 1] != '/')
    ||| (k + 2 < t.len() && t[k + 2] != 'i' && t[k + 2] != 'd')
    ||| (k + 3 < t.len() && t[k + 3] != 'v' && t[k + 3] != 'i')
}

/// No `<div` or `</div>` starts in `t` between `i` and `j`.
pub open spec fn tag_free(t: Seq<char>, i: int, j: int) -> bool {
    forall|k: int| i <= k < j ==> #[trigger] no_tag_start(t, k)
}

/// `t` holds no `<div` or `</div>` at all.
pub open spec fn div_free(t: Seq<char>) -> bool {
    tag_free(t, 0, t.len() as int)
}

/// No `<div` or `</div>` starting in the last five characters of `t` can
/// run past its end.
pub open spec fn tag_safe(t: Seq<char>) -> bool {
    forall|k: int| 0 <= k < t.len() && t.len() - 5 <= k ==> #[trigger] no_tag_start(t, k)
}

pub proof fn lemma_prefix_chars(s: Seq<char>, pat: Seq<char>, k: int)
    requires
        matches_at(s, pat, k),
    ensures
        forall|m: int| 0 <= m < pat.len() ==> s[k + m] == pat[m],
{
    assert forall|m: int| 0 <= m < pat.len() implies s[k + m] == pat[m] by {
        assert(s.subrange(k, k + pat.len())[m] == s[k + m]);
    }
}

pub proof fn lemma_no_tag_start(t: Seq<char>, k: int)
    requires
        0 <= k < t.len(),
        no_tag_start(t, k),
    ensures
        !matches_at(t, div_open(), k),
        !matches_at(t, div_close(), k),
{
    if matches_at(t, div_open(), k) {
        lemma_prefix_chars(t, div_open(), k);
        assert(t[k + 0] == '<' && t[k + 1] == 'd' && t[k + 2] == 'i' && t[k + 3] == 'v');
    }
    if matches_at(t, div_close(), k) {
        lemma_prefix_chars(t, div_close(), k);
        assert(t[k + 0] == '<' && t[k + 1] == '/' && t[k + 2] == 'd' && t[k + 3] == 'i');
    }
}

/// A `<div` or `</div>` found at `o + i` in `s`, where `t` is the piece of
/// `s` at `o`, is one found at `i` in `t`, unless it would run past `t`.
proof fn lemma_match_slice(s: Seq<char>, t: Seq<char>, o: int, i: int, pat: Seq<char>)
    requires
        0 <= o,
        o + t.len() <= s.len(),
        s.subrange(o, o + t.len()) == t,
        0 <= i < t.len(),
        pat == div_open() || pat == div_close(),
        i + pat.len() > t.len() ==> no_tag_start(t, i),
    ensures
        matches_at(s, pat, o + i) == matches_at(t, pat, i),
{
    if i + pat.len() <= t.len() {
        assert(s.subrange(o + i, o + i + pat.len()) =~= t.subrange(i, i + pat.len()));
    } else if matches_at(s, pat, o + i) {
        lemma_prefix_chars(s, pat, o + i);
        assert(t[i] == s[o + i]);
        assert(s[o + i + 0] == pat[0]);
        if i + 1 < t.len() {
            assert(t[i + 1] == s[o + i + 1]);
        }
        if i + 2 < t.len() {
            assert(t[i + 2] == s[o + i + 2]);
        }
        if i + 3 < t.len() {
            assert(t[i + 3] == s[o + i + 3]);
        }
    }
}

/// Scanning `s` through the piece `t` at `o` goes as scanning `t`, then
/// goes on after `t` with the depth `t` left open.
pub proof fn lemma_scan_slice(s: Seq<char>, t: Seq<char>, o: int, i: int, d: nat)
    requires
        0 <= o,
        o + t.len() <= s.len(),
        s.subrange(o, o + t.len()) == t,
        tag_safe(t),
        0 <= i <= t.len(),
    ensures
        scan(s, o + i, d) == (match scan(t, i, d) {
            Scan::Closed(k) => Scan::Closed(o + k),
            Scan::Open(d2) => scan(s, o + t.len(), d2),
        }),
    decreases t.len() - i,
{
    if i < t.len() {
        if i + 4 > t.len() {
            assert(no_tag_start(t, i));
        }
        if i + 6 > t.len() {
            assert(no_tag_start(t, i));
        }
        lemma_match_slice(s, t, o, i, div_open());
        lemma_match_slice(s, t, o, i, div_close());
        if matches_at(t, div_open(), i) {
            lemma_scan_slice(s, t, o, i + 4, d + 1);
        } else if matches_at(t, div_close(), i) {
            if d != 1 {
                lemma_scan_slice(s, t, o, i + 6, (d - 1) as nat);
            }
        } else {
            lemma_scan_slice(s, t, o, i + 1, d);
        }
    }
}

/// Scanning past a prefix `a` is scanning what follows it.
pub proof fn lemma_scan_suffix(a: Seq<char>, b: Seq<char>, i: int, d: nat)
    requires
        0 <= i <= b.len(),
    ensures
        scan(a + b, a.len() + i, d) == shifted(scan(b, i, d), a.len() as int),
    decreases b.len() - i,
{
    if i < b.len() {
        let ab = a + b;
        let n = a.len() as int;
        if i + 4 <= b.len() {
            assert(ab.subrange(n + i, n + i + 4) =~= b.subrange(i, i + 4));
        }
        if i + 6 <= b.len() {
            assert(ab.subrange(n + i, n + i + 6) =~= b.subrange(i, i + 6));
        }
        if matches_at(b, div_open(), i) {
            lemma_scan_suffix(a, b, i + 4, d + 1);
        } else if matches_at(b, div_close(), i) {
            if d != 1 {
                lemma_scan_suffix(a, b, i + 6, (d - 1) as nat);
            }
        } else {
            lemma_scan_suffix(a, b, i + 1, d);
        }
    }
}

/// The scan of `a + b` is the scan of `a`, then that of `b` at the depth
/// `a` leaves open.
pub proof fn lemma_scan_concat(a: Seq<char>, b: Seq<char>, d: nat)
    requires
        tag_safe(a),
    ensures
        scan(a + b, 0, d) == (match scan(a, 0, d) {
            Scan::Closed(k) => Scan::Closed(k),
            Scan::Open(d2) => shifted(scan(b, 0, d2), a.len() as int),
        }),
{
    assert((a + b).subrange(0, a.len() as int) =~= a);
    lemma_scan_slice(a + b, a, 0, 0, d);
    match scan(a, 0, d) {
        Scan::Closed(k) => {},
        Scan::Open(d2) => {
            lemma_scan_suffix(a, b, 0, d2);
        },
    }
}

/// A stretch without `<div` or `</div>` leaves the depth unchanged.
pub proof fn lemma_scan_skip(t: Seq<char>, i: int, j: int, d: nat)
    requires
        0 <= i <= j <= t.len(),
        tag_free(t, i, j),
    ensures
        scan(t, i, d) == scan(t, j, d),
    decreases j - i,
{
    if i < j {
        assert(no_tag_start(t, i));
        lemma_no_tag_start(t, i);
        lemma_scan_skip(t, i + 1, j, d);
    }
}

/// A piece without `<div` or `</div>` leaves the depth unchanged.
pub proof fn lemma_scan_div_free(t: Seq<char>, d: nat)
    requires
        div_free(t),
    ensures
        scan(t, 0, d) == Scan::Open(d),
        tag_safe(t),
{
    lemma_scan_skip(t, 0, t.len() as int, d);
    assert forall|k: int| 0 <= k < t.len() && t.len() - 5 <= k implies #[trigger] no_tag_start(
        t,
        k,
    ) by {
        assert(no_tag_start(t, k));
    }
}

/// A text without `<` holds no tag.
pub proof fn lemma_div_free_plain(t: Seq<char>)
    requires
        forall|k: int| 0 <= k < t.len() ==> t[k] != '<',
    ensures
        div_free(t),
{
    assert forall|k: int| 0 <= k < t.len() implies #[trigger] no_tag_start(t, k) by {
        assert(t[k] != '<');
    }
}

/// Joining two pieces without `<div` or `</div>` makes none.
pub proof fn lemma_div_free_concat(a: Seq<char>, b: Seq<char>)
    requires
        div_free(a),
        div_free(b),
    ensures
        div_free(a + b),
{
    let ab = a + b;
    let n = a.len() as int;
    assert forall|k: int| 0 <= k < ab.len() implies #[trigger] no_tag_start(ab, k) by {
        if k < n {
            assert(no_tag_start(a, k));
            assert(ab[k] == a[k]);
            if k + 1 < n {
                assert(ab[k + 1] == a[k + 1]);
            }
            if k + 2 < n {
                assert(ab[k + 2] == a[k + 2]);
            }
            if k + 3 < n {
                assert(ab[k + 3] == a[k + 3]);
            }
        } else {
            assert(no_tag_start(b, k - n));
            assert(ab[k] == b[k - n]);
            if k - n + 1 < b.len() {
                assert(ab[k + 1] == b[k - n + 1]);
            }
            if k - n + 2 < b.len() {
                assert(ab[k + 2] == b[k - n + 2]);
            }
            if k - n + 3 < b.len() {
                assert(ab[k + 3] == b[k - n + 3]);
            }
        }
    }
}

/// A piece ending with a piece that is safe at its end is safe at its end.
pub proof fn lemma_tag_safe_concat(a: Seq<char>, b: Seq<char>)
    requires
        tag_safe(b),
        b.len() >= 5,
    ensures
        tag_safe(a + b),
{
    let ab = a + b;
    let n = a.len() as int;
    assert forall|k: int| 0 <= k < ab.len() && ab.len() - 5 <= k implies #[trigger] no_tag_start(
        ab,
        k,
    ) by {
        assert(no_tag_start(b, k - n));
        assert(ab[k] == b[k - n]);
        if k - n + 1 < b.len() {
            assert(ab[k + 1] == b[k - n + 1]);
        }
        if k - n + 2 < b.len() {
            assert(ab[k + 2] == b[k - n + 2]);
        }
        if k - n + 3 < b.len() {
            assert(ab[k + 3] == b[k - n + 3]);
        }
    }
}

/// `close_of` is the scan that gives up when the text ends.
pub proof fn lemma_close_of_scan(s: Seq<char>, i: int, d: nat)
    requires
        0 <= i,
    ensures
        close_of(s, i, d) == (match scan(s, i, d) {
            Scan::Closed(k) => Some(k),
            Scan::Open(_) => None,
        }),
    decreases s.len() - i,
{
    if i < s.len() {
        if matches_at(s, div_open(), i) {
            lemma_close_of_scan(s, i + 4, d + 1);
        } else if matches_at(s, div_close(), i) {
            if d != 1 {
                lemma_close_of_scan(s, i + 6, (d - 1) as nat);
            }
        } else {
            lemma_close_of_scan(s, i + 1, d);
        }
    }
}

/// A piece that opens one `<div` at `m` and holds no other tag.
pub proof fn lemma_open_piece(t: Seq<char>, m: int, d: nat)
    requires
        0 <= m,
        m + 4 <= t.len(),
        tag_free(t, 0, m),
        t.subrange(m, m + 4) == div_open(),
        tag_free(t, m + 4, t.len() as int),
    ensures
        scan(t, 0, d) == Scan::Open(d + 1),
{
    lemma_scan_skip(t, 0, m, d);
    lemma_scan_skip(t, m + 4, t.len() as int, d + 1);
}

/// A piece that closes one `<div` at `m`, not the outermost, and holds no
/// other tag.
pub proof fn lemma_close_piece(t: Seq<char>, m: int, d: nat)
    requires
        d >= 2,
        0 <= m,
        m + 6 <= t.len(),
        tag_free(t, 0, m),
        t.subrange(m, m + 6) == div_close(),
        tag_free(t, m + 6, t.len() as int),
    ensures
        scan(t, 0, d) == Scan::Open((d - 1) as nat),
{
    lemma_scan_skip(t, 0, m, d);
    assert(t[m + 1] == t.subrange(m, m + 6)[1]);
    if matches_at(t, div_open(), m) {
        lemma_prefix_chars(t, div_open(), m);
    }
    lemma_scan_skip(t, m + 6, t.len() as int, (d - 1) as nat);
}

/// Escaped text holds no `<`.
pub proof fn lemma_escape_plain(s: Seq<char>)
    ensures
        forall|k: int| 0 <= k < escape_html(s).len() ==> escape_html(s)[k] != '<',
    decreases s.len(),
{
    if s.len() > 0 {
        lemma_escape_plain(s.drop_last());
        let a = escape_html(s.drop_last());
        let e = escape_char(s.last());
        assert(forall|k: int| 0 <= k < e.len() ==> e[k] != '<');
        assert(escape_html(s) == a + e);
        assert forall|k: int| 0 <= k < (a + e).len() implies (a + e)[k] != '<' by {
            if k >= a.len() {
                assert((a + e)[k] == e[k - a.len()]);
            }
        }
    }
}

pub proof fn lemma_escape_div_free(s: Seq<char>)
    ensures
        div_free(escape_html(s)),
{
    lemma_escape_plain(s);
    lemma_div_free_plain(escape_html(s));
}

pub proof fn lemma_vocab_row_div_free(e: VocabView)
    ensures
        div_free(vocab_row(e)),
{
    reveal_strlit("<tr><td class=\"word\">");
    reveal_strlit("</td><td class=\"ipa\">");
    reveal_strlit("</td><td class=\"pos\">");
    reveal_strlit("</td><td>");
    reveal_strlit("</td><td class=\"example\"><em>");
    reveal_strlit("</em></td></tr>");
    let l1 = "<tr><td class=\"word\">"@;
    let l2 = "</td><td class=\"ipa\">"@;
    let l3 = "</td><td class=\"pos\">"@;
    let l4 = "</td><td>"@;
    let l5 = "</td><td class=\"example\"><em>"@;
    let l6 = "</em></td></tr>"@;
    assert(div_free(l1));
    assert(div_free(l2));
    assert(div_free(l3));
    assert(div_free(l4));
    assert(div_free(l5));
    assert(div_free(l6));
    lemma_escape_div_free(e.word);
    lemma_escape_div_free(e.ipa);
    lemma_escape_div_free(e.pos);
    lemma_escape_div_free(e.cn);
    lemma_escape_div_free(e.example);
    let x1 = l1 + escape_html(e.word);
    lemma_div_free_concat(l1, escape_html(e.word));
    lemma_div_free_concat(x1, l2);
    let x2 = x1 + l2 + escape_html(e.ipa);
    lemma_div_free_concat(x1 + l2, escape_html(e.ipa));
    lemma_div_free_concat(x2, l3);
    let x3 = x2 + l3 + escape_html(e.pos);
    lemma_div_free_concat(x2 + l3, escape_html(e.pos));
    lemma_div_free_concat(x3, l4);
    let x4 = x3 + l4 + escape_html(e.cn);
    lemma_div_free_concat(x3 + l4, escape_html(e.cn));
    lemma_div_free_concat(x4, l5);
    let x5 = x4 + l5 + escape_html(e.example);
    lemma_div_free_concat(x4 + l5, escape_html(e.example));
    lemma_div_free_concat(x5, l6);
}

pub proof fn lemma_vocab_rows_div_free(es: Seq<VocabView>)
    ensures
        div_free(vocab_rows(es)),
    decreases es.len(),
{
    if es.len() == 0 {
        assert(div_free(vocab_rows(es)));
    } else {
        lemma_vocab_rows_div_free(es.drop_last());
        lemma_vocab_row_div_free(es.last());
        lemma_div_free_concat(vocab_rows(es.drop_last()), vocab_row(es.last()));
    }
}

pub proof fn lemma_chunk_item_div_free(e: ChunkView)
    ensures
        div_free(chunk_item(e)),
{
    reveal_strlit("<li><span class=\"chunk-phrase\">");
    reveal_strlit("</span> <span class=\"chunk-cn\">（");
    reveal_strlit("）</span><br><em class=\"chunk-example\">");
    reveal_strlit("</em></li>");
    let l1 = "<li><span class=\"chunk-phrase\">"@;
    let l2 = "</span> <span class=\"chunk-cn\">（"@;
    let l3 = "）</span><br><em class=\"chunk-example\">"@;
    let l4 = "</em></li>"@;
    assert(div_free(l1));
    assert(div_free(l2));
    assert(div_free(l3));
    assert(div_free(l4));
    lemma_escape_div_free(e.chunk);
    lemma_escape_div_free(e.cn);
    lemma_escape_div_free(e.example);
    let x1 = l1 + escape_html(e.chunk);
    lemma_div_free_concat(l1, escape_html(e.chunk));
    lemma_div_free_concat(x1, l2);
    let x2 = x1 + l2 + escape_html(e.cn);
    lemma_div_free_concat(x1 + l2, escape_html(e.cn));
    lemma_div_free_concat(x2, l3);
    let x3 = x2 + l3 + escape_html(e.example);
    lemma_div_free_concat(x2 + l3, escape_html(e.example));
    lemma_div_free_concat(x3, l4);
}

pub proof fn lemma_chunk_items_div_free(es: Seq<ChunkView>)
    ensures
        div_free(chunk_items(es)),
    decreases es.len(),
{
    if es.len() == 0 {
        assert(div_free(chunk_items(es)));
    } else {
        lemma_chunk_items_div_free(es.drop_last());
        lemma_chunk_item_div_free(es.last());
        lemma_div_free_concat(chunk_items(es.drop_last()), chunk_item(es.last()));
    }
}

pub proof fn lemma_empty_section_div_free()
    ensures
        div_free(crate::html_gen::empty_section()),
{
    reveal_strlit("<p class=\"empty\">—</p>");
    assert(div_free("<p class=\"empty\">—</p>"@));
}

pub proof fn lemma_chunks_html_div_free(es: Seq<ChunkView>)
    ensures
        div_free(chunks_html(es)),
{
    if es.len() == 0 {
        lemma_empty_section_div_free();
    } else {
        reveal_strlit("<ul class=\"chunk-list\">");
        reveal_strlit("</ul>");
        assert(div_free("<ul class=\"chunk-list\">"@));
        assert(div_free("</ul>"@));
        lemma_chunk_items_div_free(es);
        lemma_div_free_concat("<ul class=\"chunk-list\">"@, chunk_items(es));
        lemma_div_free_concat("<ul class=\"chunk-list\">"@ + chunk_items(es), "</ul>"@);
    }
}

/// The vocabulary table closes the one `<div` it opens.
pub proof fn lemma_vocab_html_balanced(es: Seq<VocabView>, d: nat)
    requires
        d >= 1,
    ensures
        scan(vocab_html(es), 0, d) == Scan::Open(d),
        tag_safe(vocab_html(es)),
{
    if es.len() == 0 {
        lemma_empty_section_div_free();
        lemma_scan_div_free(vocab_html(es), d);
    } else {
        reveal_strlit(
            "<div class=\"vocab-scroll\"><table class=\"vocab-table\"><thead><tr><th>单词</th><th>音标</th><th>词性</th><th>释义</th><th>例句</th></tr></thead><tbody>",
        );
        reveal_strlit("</tbody></table></div>");
        let head = "<div class=\"vocab-scroll\"><table class=\"vocab-table\"><thead><tr><th>单词</th><th>音标</th><th>词性</th><th>释义</th><th>例句</th></tr></thead><tbody>"@;
        let tail = "</tbody></table></div>"@;
        let rows = vocab_rows(es);
        assert(head.subrange(0, 4) =~= div_open());
        assert(tag_free(head, 4, head.len() as int));
        lemma_open_piece(head, 0, d);
        assert(tag_safe(head));
        assert(tail.subrange(16, 22) =~= div_close());
        assert(tag_free(tail, 0, 16));
        assert(tag_free(tail, 22, 22));
        lemma_close_piece(tail, 16, d + 1);
        assert(tag_safe(tail));
        lemma_vocab_rows_div_free(es);
        lemma_scan_div_free(rows, d + 1);
        lemma_scan_concat(rows, tail, d + 1);
        lemma_scan_concat(head, rows + tail, d);
        assert(vocab_html(es) =~= head + (rows + tail));
        lemma_tag_safe_concat(head + rows, tail);
    }
}

/// The annotation sections of a block, filled or not, close every `<div`
/// they open.
proof fn lemma_sections_balanced(old: Option<ResponseView>)
    ensures
        ({
            let tr = match old {
                Some(r) => "<p>"@ + escape_html(r.translation) + "</p>"@,
                None => "<!-- FILL:translation -->"@,
            };
            let vo = match old {
                Some(r) => vocab_html(r.vocabulary),
                None => "<!-- FILL:vocab -->"@,
            };
            let ch = match old {
                Some(r) => chunks_html(r.chunks),
                None => "<!-- FILL:chunks -->"@,
            };
            &&& scan(tr, 0, 2) == Scan::Open(2) && tag_safe(tr)
            &&& scan(vo, 0, 2) == Scan::Open(2) && tag_safe(vo)
            &&& scan(ch, 0, 2) == Scan::Open(2) && tag_safe(ch)
        }),
{
    match old {
        Some(r) => {
            reveal_strlit("<p>");
            reveal_strlit("</p>");
            assert(div_free("<p>"@));
            assert(div_free("</p>"@));
            lemma_escape_div_free(r.translation);
            lemma_div_free_concat("<p>"@, escape_html(r.translation));
            lemma_div_free_concat("<p>"@ + escape_html(r.translation), "</p>"@);
            lemma_scan_div_free("<p>"@ + escape_html(r.translation) + "</p>"@, 2);
            lemma_vocab_html_balanced(r.vocabulary, 2);
            lemma_chunks_html_div_free(r.chunks);
            lemma_scan_div_free(chunks_html(r.chunks), 2);
        },
        None => {
            reveal_strlit("<!-- FILL:translation -->");
            reveal_strlit("<!-- FILL:vocab -->");
            reveal_strlit("<!-- FILL:chunks -->");
            assert(div_free("<!-- FILL:translation -->"@));
            assert(div_free("<!-- FILL:vocab -->"@));
            assert(div_free("<!-- FILL:chunks -->"@));
            lemma_scan_div_free("<!-- FILL:translation -->"@, 2);
            lemma_scan_div_free("<!-- FILL:vocab -->"@, 2);
            lemma_scan_div_free("<!-- FILL:chunks -->"@, 2);
        },
    }
}


pub open spec fn piece_head() -> Seq<char> {
    "<div class=\"para-block\" id=\""@
}

pub open spec fn piece_status() -> Seq<char> {
    "\" data-status=\""@
}

pub open spec fn piece_text() -> Seq<char> {
    "\">\n  <p class=\"original-text\">"@
}

pub open spec fn piece_translation() -> Seq<char> {
    "</p>\n  <details class=\"ai-section translation-section\" data-detail-key=\""@
}

pub open spec fn piece_translation_body() -> Seq<char> {
    ":translation\">\n    <summary><span class=\"section-icon\">🈳</span> 译文</summary>\n    <div class=\"ai-content\">"@
}

pub open spec fn piece_vocab() -> Seq<char> {
    "</div>\n  </details>\n  <details class=\"ai-section vocab-section\" data-detail-key=\""@
}

pub open spec fn piece_vocab_body() -> Seq<char> {
    ":vocab\">\n    <summary><span class=\"section-icon\">📚</span> 词汇 (IELTS 6.5+)</summary>\n    <div class=\"ai-content\">"@
}

pub open spec fn piece_chunks() -> Seq<char> {
    "</div>\n  </details>\n  <details class=\"ai-section chunk-section\" data-detail-key=\""@
}

pub open spec fn piece_chunks_body() -> Seq<char> {
    ":chunks\">\n    <summary><span class=\"section-icon\">🔗</span> 常用短语 / Chunks</summary>\n    <div class=\"ai-content\">"@
}

pub open spec fn piece_end() -> Seq<char> {
    "</div>\n  </details>\n</div>\n"@
}

pub open spec fn status_word(old: Option<ResponseView>) -> Seq<char> {
    match old {
        Some(_) => "done"@,
        None => "pending"@,
    }
}

pub open spec fn translation_section(old: Option<ResponseView>) -> Seq<char> {
    match old {
        Some(r) => "<p>"@ + escape_html(r.translation) + "</p>"@,
        None => "<!-- FILL:translation -->"@,
    }
}

pub open spec fn vocab_section(old: Option<ResponseView>) -> Seq<char> {
    match old {
        Some(r) => vocab_html(r.vocabulary),
        None => "<!-- FILL:vocab -->"@,
    }
}

pub open spec fn chunks_section(old: Option<ResponseView>) -> Seq<char> {
    match old {
        Some(r) => chunks_html(r.chunks),
        None => "<!-- FILL:chunks -->"@,
    }
}

/// The chunk section of a block and its end, joined from the end.
pub open spec fn end_pieces(id: Seq<char>, old: Option<ResponseView>) -> Seq<char> {
    piece_chunks() + (id + (piece_chunks_body() + (chunks_section(old) + piece_end())))
}

/// The vocabulary section of a block and what follows it.
pub open spec fn tail_pieces(id: Seq<char>, old: Option<ResponseView>) -> Seq<char> {
    piece_vocab() + (id + (piece_vocab_body() + (vocab_section(old) + end_pieces(id, old))))
}

/// The translation section of a block and what follows it.
pub open spec fn mid_pieces(id: Seq<char>, old: Option<ResponseView>) -> Seq<char> {
    piece_translation() + (id + (piece_translation_body() + (translation_section(old) + tail_pieces(
        id,
        old,
    ))))
}

/// A block laid out piece by piece, joined from the end.
pub open spec fn block_pieces(p: ParagraphView, old: Option<ResponseView>) -> Seq<char> {
    piece_head() + (p.id + (piece_status() + (status_word(old) + (piece_text() + (escape_html(p.text)
        + mid_pieces(p.id, old))))))
}

proof fn lemma_piece_head()
    ensures
        scan(piece_head(), 0, 0) == Scan::Open(1),
        tag_safe(piece_head()),
        piece_head().len() == 28,
{
    reveal_strlit("<div class=\"para-block\" id=\"");
    let t = piece_head();
    assert(t.subrange(0, 4) =~= div_open());
    assert(tag_free(t, 0, 0));
    assert(tag_free(t, 4, 28));
    lemma_open_piece(t, 0, 0);
}

proof fn lemma_plain_pieces(old: Option<ResponseView>)
    ensures
        div_free(piece_status()),
        div_free(status_word(old)),
        div_free(piece_text()),
        div_free(piece_translation()),
{
    reveal_strlit("\" data-status=\"");
    reveal_strlit("done");
    reveal_strlit("pending");
    reveal_strlit("\">\n  <p class=\"original-text\">");
    reveal_strlit("</p>\n  <details class=\"ai-section translation-section\" data-detail-key=\"");
    assert(div_free(piece_status()));
    assert(div_free(status_word(old)));
    assert(div_free(piece_text()));
    assert(div_free(piece_translation()));
}

proof fn lemma_piece_translation_body(d: nat)
    ensures
        scan(piece_translation_body(), 0, d) == Scan::Open(d + 1),
        tag_safe(piece_translation_body()),
{
    reveal_strlit(
        ":translation\">\n    <summary><span class=\"section-icon\">🈳</span> 译文</summary>\n    <div class=\"ai-content\">",
    );
    let t = piece_translation_body();
    assert(tag_free(t, 0, 81));
    assert(t.subrange(81, 85) =~= div_open());
    assert(tag_free(t, 85, 105));
    lemma_open_piece(t, 81, d);
}

proof fn lemma_piece_vocab_body(d: nat)
    ensures
        scan(piece_vocab_body(), 0, d) == Scan::Open(d + 1),
        tag_safe(piece_vocab_body()),
{
    reveal_strlit(
        ":vocab\">\n    <summary><span class=\"section-icon\">📚</span> 词汇 (IELTS 6.5+)</summary>\n    <div class=\"ai-content\">",
    );
    let t = piece_vocab_body();
    assert(tag_free(t, 0, 88));
    assert(t.subrange(88, 92) =~= div_open());
    assert(tag_free(t, 92, 112));
    lemma_open_piece(t, 88, d);
}

proof fn lemma_piece_chunks_body(d: nat)
    ensures
        scan(piece_chunks_body(), 0, d) == Scan::Open(d + 1),
        tag_safe(piece_chunks_body()),
{
    reveal_strlit(
        ":chunks\">\n    <summary><span class=\"section-icon\">🔗</span> 常用短语 / Chunks</summary>\n    <div class=\"ai-content\">",
    );
    let t = piece_chunks_body();
    assert(tag_free(t, 0, 87));
    assert(t.subrange(87, 91) =~= div_open());
    assert(tag_free(t, 91, 111));
    lemma_open_piece(t, 87, d);
}

proof fn lemma_piece_vocab()
    ensures
        scan(piece_vocab(), 0, 2) == Scan::Open(1),
        tag_safe(piece_vocab()),
{
    reveal_strlit("</div>\n  </details>\n  <details class=\"ai-section vocab-section\" data-detail-key=\"");
    let t = piece_vocab();
    assert(tag_free(t, 0, 0));
    assert(t.subrange(0, 6) =~= div_close());
    assert(tag_free(t, 6, 81));
    lemma_close_piece(t, 0, 2);
}

proof fn lemma_piece_chunks()
    ensures
        scan(piece_chunks(), 0, 2) == Scan::Open(1),
        tag_safe(piece_chunks()),
{
    reveal_strlit("</div>\n  </details>\n  <details class=\"ai-section chunk-section\" data-detail-key=\"");
    let t = piece_chunks();
    assert(tag_free(t, 0, 0));
    assert(t.subrange(0, 6) =~= div_close());
    assert(tag_free(t, 6, 81));
    lemma_close_piece(t, 0, 2);
}

proof fn lemma_piece_end()
    ensures
        scan(piece_end(), 0, 2) == Scan::Closed(26),
        tag_safe(piece_end()),
        piece_end().len() == 27,
        piece_end()[26] == '\n',
{
    reveal_strlit("</div>\n  </details>\n</div>\n");
    let t = piece_end();
    assert(t.subrange(0, 6) =~= div_close());
    if matches_at(t, div_open(), 0) {
        lemma_prefix_chars(t, div_open(), 0);
    }
    assert(scan(t, 0, 2) == scan(t, 6, 1));
    assert(tag_free(t, 6, 20));
    lemma_scan_skip(t, 6, 20, 1);
    assert(t.subrange(20, 26) =~= div_close());
    if matches_at(t, div_open(), 20) {
        lemma_prefix_chars(t, div_open(), 20);
    }
    assert(tag_safe(t));
}

/// The second half of a block: its vocabulary and chunk sections and its end.
proof fn lemma_block_tail(id: Seq<char>, old: Option<ResponseView>)
    requires
        div_free(id),
    ensures
        scan(tail_pieces(id, old), 0, 2) == Scan::Closed(tail_pieces(id, old).len() - 1),
{
    lemma_sections_balanced(old);
    lemma_piece_end();
    lemma_piece_chunks_body(1);
    lemma_piece_chunks();
    lemma_piece_vocab_body(1);
    lemma_piece_vocab();
    lemma_scan_div_free(id, 1);
    let r18 = chunks_section(old) + piece_end();
    lemma_scan_concat(chunks_section(old), piece_end(), 2);
    let r17 = piece_chunks_body() + r18;
    lemma_scan_concat(piece_chunks_body(), r18, 1);
    let r16 = id + r17;
    lemma_scan_concat(id, r17, 1);
    let r15 = piece_chunks() + r16;
    lemma_scan_concat(piece_chunks(), r16, 2);
    assert(r15 == end_pieces(id, old));
    let r14 = vocab_section(old) + r15;
    lemma_scan_concat(vocab_section(old), r15, 2);
    let r13 = piece_vocab_body() + r14;
    lemma_scan_concat(piece_vocab_body(), r14, 1);
    let r12 = id + r13;
    lemma_scan_concat(id, r13, 1);
    let r11 = piece_vocab() + r12;
    lemma_scan_concat(piece_vocab(), r12, 2);
}

/// A paragraph block, whatever its sections hold, starts with its opening
/// `<div` and is closed by the `</div>` before its final newline.
pub proof fn lemma_para_block_closes(p: ParagraphView, old: Option<ResponseView>)
    requires
        forall|k: int| 0 <= k < p.id.len() ==> p.id[k] != '<',
    ensures
        scan(para_block(p, old), 0, 0) == Scan::Closed(para_block(p, old).len() - 1),
        tag_safe(para_block(p, old)),
        para_block(p, old).len() >= 28,
        para_block(p, old)[para_block(p, old).len() - 1] == '\n',
        para_block(p, old).subrange(0, 28) == piece_head(),
{
    let id = p.id;
    lemma_div_free_plain(id);
    lemma_scan_div_free(id, 1);
    lemma_block_tail(id, old);
    let r11 = tail_pieces(id, old);
    lemma_piece_head();
    lemma_plain_pieces(old);
    lemma_scan_div_free(piece_status(), 1);
    lemma_scan_div_free(status_word(old), 1);
    lemma_scan_div_free(piece_text(), 1);
    lemma_scan_div_free(piece_translation(), 1);
    lemma_escape_div_free(p.text);
    lemma_scan_div_free(escape_html(p.text), 1);
    lemma_piece_translation_body(1);
    lemma_sections_balanced(old);
    let r10 = translation_section(old) + r11;
    lemma_scan_concat(translation_section(old), r11, 2);
    let r9 = piece_translation_body() + r10;
    lemma_scan_concat(piece_translation_body(), r10, 1);
    let r8 = id + r9;
    lemma_scan_concat(id, r9, 1);
    let r7 = piece_translation() + r8;
    lemma_scan_concat(piece_translation(), r8, 1);
    assert(r7 == mid_pieces(id, old));
    let r6 = escape_html(p.text) + r7;
    lemma_scan_concat(escape_html(p.text), r7, 1);
    let r5 = piece_text() + r6;
    lemma_scan_concat(piece_text(), r6, 1);
    let r4 = status_word(old) + r5;
    lemma_scan_concat(status_word(old), r5, 1);
    let r3 = piece_status() + r4;
    lemma_scan_concat(piece_status(), r4, 1);
    let r2 = id + r3;
    lemma_scan_concat(id, r3, 1);
    let r1 = piece_head() + r2;
    lemma_scan_concat(piece_head(), r2, 0);
    lemma_block_layout(p, old);
    lemma_block_end(p, old);
    assert(r1 == block_pieces(p, old));
    let block = para_block(p, old);
    assert(block.subrange(0, 28) =~= piece_head());
    lemma_piece_end();
    lemma_tag_safe_concat(block.subrange(0, block.len() - 27), piece_end());
    assert(block =~= block.subrange(0, block.len() - 27) + piece_end());
}

/// A block is its pieces, joined from the end.
pub proof fn lemma_block_layout(p: ParagraphView, old: Option<ResponseView>)
    ensures
        para_block(p, old) == block_pieces(p, old),
{
    reveal(para_block);
    let id = p.id;
    let s19 = piece_end();
    let s18 = chunks_section(old) + s19;
    let s17 = piece_chunks_body() + s18;
    let s16 = id + s17;
    let s15 = piece_chunks() + s16;
    let s14 = vocab_section(old) + s15;
    let s13 = piece_vocab_body() + s14;
    let s12 = id + s13;
    let s11 = piece_vocab() + s12;
    let s10 = translation_section(old) + s11;
    let s9 = piece_translation_body() + s10;
    let s8 = id + s9;
    let s7 = piece_translation() + s8;
    let s6 = escape_html(p.text) + s7;
    let s5 = piece_text() + s6;
    let s4 = status_word(old) + s5;
    let s3 = piece_status() + s4;
    let s2 = id + s3;
    let s1 = piece_head() + s2;
    let q1 = piece_head();
    let q2 = q1 + id;
    let q3 = q2 + piece_status();
    let q4 = q3 + status_word(old);
    let q5 = q4 + piece_text();
    let q6 = q5 + escape_html(p.text);
    let q7 = q6 + piece_translation();
    let q8 = q7 + id;
    let q9 = q8 + piece_translation_body();
    let q10 = q9 + translation_section(old);
    let q11 = q10 + piece_vocab();
    let q12 = q11 + id;
    let q13 = q12 + piece_vocab_body();
    let q14 = q13 + vocab_section(old);
    let q15 = q14 + piece_chunks();
    let q16 = q15 + id;
    let q17 = q16 + piece_chunks_body();
    let q18 = q17 + chunks_section(old);
    let q19 = q18 + piece_end();
    vstd::seq_lib::lemma_concat_associative(q1, id, s3);
    vstd::seq_lib::lemma_concat_associative(q2, piece_status(), s4);
    vstd::seq_lib::lemma_concat_associative(q3, status_word(old), s5);
    vstd::seq_lib::lemma_concat_associative(q4, piece_text(), s6);
    vstd::seq_lib::lemma_concat_associative(q5, escape_html(p.text), s7);
    vstd::seq_lib::lemma_concat_associative(q6, piece_translation(), s8);
    vstd::seq_lib::lemma_concat_associative(q7, id, s9);
    vstd::seq_lib::lemma_concat_associative(q8, piece_translation_body(), s10);
    vstd::seq_lib::lemma_concat_associative(q9, translation_section(old), s11);
    vstd::seq_lib::lemma_concat_associative(q10, piece_vocab(), s12);
    vstd::seq_lib::lemma_concat_associative(q11, id, s13);
    vstd::seq_lib::lemma_concat_associative(q12, piece_vocab_body(), s14);
    vstd::seq_lib::lemma_concat_associative(q13, vocab_section(old), s15);
    vstd::seq_lib::lemma_concat_associative(q14, piece_chunks(), s16);
    vstd::seq_lib::lemma_concat_associative(q15, id, s17);
    vstd::seq_lib::lemma_concat_associative(q16, piece_chunks_body(), s18);
    vstd::seq_lib::lemma_concat_associative(q17, chunks_section(old), s19);
    assert(para_block(p, old) == q19);
    assert(s1 == block_pieces(p, old));
}

/// A block ends with its closing piece.
pub proof fn lemma_block_end(p: ParagraphView, old: Option<ResponseView>)
    ensures
        para_block(p, old).len() >= 27,
        para_block(p, old).subrange(para_block(p, old).len() - 27, para_block(p, old).len() as int)
            == piece_end(),
{
    reveal(para_block);
    let x = piece_head() + p.id + piece_status() + status_word(old) + piece_text() + escape_html(p.text)
        + piece_translation() + p.id + piece_translation_body() + translation_section(old)
        + piece_vocab() + p.id + piece_vocab_body() + vocab_section(old) + piece_chunks() + p.id
        + piece_chunks_body() + chunks_section(old);
    assert(para_block(p, old) == x + piece_end());
    lemma_piece_end();
    assert((x + piece_end()).subrange(x.len() as int, x.len() + 27int) =~= piece_end());
}


// ───────────────────────── where a paragraph block can open ─────────────────

/// No `<div class="p` starts at `k`, and no text appended to `t` could make
/// one start there.
pub open spec fn no_block_start(t: Seq<char>, k: int) -> bool {
    ||| no_tag_start(t, k)
    ||| (k + 1 < t.len() && t[k + 1] != 'd')
    ||| (k + 12 < t.len() && t[k + 12] != 'p')
}

/// No `<div class="p` starts in `t` between `i` and `j`.
pub open spec fn block_free(t: Seq<char>, i: int, j: int) -> bool {
    forall|k: int| i <= k < j ==> #[trigger] no_block_start(t, k)
}

/// A text that begins like a paragraph block's opening tag does not occur
/// where no `<div class="p` starts.
pub proof fn lemma_no_block_start(t: Seq<char>, m: Seq<char>, k: int)
    requires
        0 <= k < t.len(),
        no_block_start(t, k),
        m.len() >= 13,
        m[0] == '<',
        m[1] == 'd',
        m[2] == 'i',
        m[3] == 'v',
        m[12] == 'p',
    ensures
        !matches_at(t, m, k),
{
    if matches_at(t, m, k) {
        lemma_prefix_chars(t, m, k);
        assert(t[k + 0] == '<' && t[k + 1] == 'd' && t[k + 2] == 'i' && t[k + 3] == 'v');
        assert(t[k + 12] == 'p');
    }
}

pub proof fn lemma_div_free_block_free(t: Seq<char>)
    requires
        div_free(t),
    ensures
        block_free(t, 0, t.len() as int),
{
    assert forall|k: int| 0 <= k < t.len() implies #[trigger] no_block_start(t, k) by {
        assert(no_tag_start(t, k));
    }
}

/// Joining a stretch free of block starts from `i` on to a text free of
/// them keeps it free from `i` on.
pub proof fn lemma_block_free_concat(a: Seq<char>, b: Seq<char>, i: int)
    requires
        0 <= i,
        block_free(a, i, a.len() as int),
        block_free(b, 0, b.len() as int),
    ensures
        block_free(a + b, i, (a + b).len() as int),
{
    let ab = a + b;
    let n = a.len() as int;
    assert forall|k: int| i <= k < ab.len() implies #[trigger] no_block_start(ab, k) by {
        if k < n {
            assert(no_block_start(a, k));
            assert(ab[k] == a[k]);
            if k + 1 < n {
                assert(ab[k + 1] == a[k + 1]);
            }
            if k + 2 < n {
                assert(ab[k + 2] == a[k + 2]);
            }
            if k + 3 < n {
                assert(ab[k + 3] == a[k + 3]);
            }
            if k + 12 < n {
                assert(ab[k + 12] == a[k + 12]);
            }
        } else {
            assert(no_block_start(b, k - n));
            assert(ab[k] == b[k - n]);
            if k - n + 1 < b.len() {
                assert(ab[k + 1] == b[k - n + 1]);
            }
            if k - n + 2 < b.len() {
                assert(ab[k + 2] == b[k - n + 2]);
            }
            if k - n + 3 < b.len() {
                assert(ab[k + 3] == b[k - n + 3]);
            }
            if k - n + 12 < b.len() {
                assert(ab[k + 12] == b[k - n + 12]);
            }
        }
    }
}

proof fn lemma_pieces_block_free()
    ensures
        block_free(piece_head(), 1, 28),
        block_free(piece_vocab(), 0, piece_vocab().len() as int),
        block_free(piece_chunks(), 0, piece_chunks().len() as int),
        block_free(piece_end(), 0, piece_end().len() as int),
        block_free(piece_translation_body(), 0, piece_translation_body().len() as int),
        block_free(piece_vocab_body(), 0, piece_vocab_body().len() as int),
        block_free(piece_chunks_body(), 0, piece_chunks_body().len() as int),
{
    lemma_piece_head_free();
    lemma_close_pieces_free();
    lemma_body_pieces_free();
}

proof fn lemma_piece_head_free()
    ensures
        block_free(piece_head(), 1, 28),
{
    reveal_strlit("<div class=\"para-block\" id=\"");
    assert(block_free(piece_head(), 1, 28));
}

proof fn lemma_close_pieces_free()
    ensures
        block_free(piece_vocab(), 0, piece_vocab().len() as int),
        block_free(piece_chunks(), 0, piece_chunks().len() as int),
        block_free(piece_end(), 0, piece_end().len() as int),
{
    reveal_strlit("</div>\n  </details>\n  <details class=\"ai-section vocab-section\" data-detail-key=\"");
    reveal_strlit("</div>\n  </details>\n  <details class=\"ai-section chunk-section\" data-detail-key=\"");
    reveal_strlit("</div>\n  </details>\n</div>\n");
    assert(block_free(piece_vocab(), 0, 81));
    assert(block_free(piece_chunks(), 0, 81));
    assert(block_free(piece_end(), 0, 27));
}

proof fn lemma_body_pieces_free()
    ensures
        block_free(piece_translation_body(), 0, piece_translation_body().len() as int),
        block_free(piece_vocab_body(), 0, piece_vocab_body().len() as int),
        block_free(piece_chunks_body(), 0, piece_chunks_body().len() as int),
{
    lemma_translation_body_free();
    lemma_vocab_body_free();
    lemma_chunks_body_free();
}

proof fn lemma_translation_body_free()
    ensures
        block_free(piece_translation_body(), 0, piece_translation_body().len() as int),
{
    reveal_strlit(
        ":translation\">\n    <summary><span class=\"section-icon\">🈳</span> 译文</summary>\n    <div class=\"ai-content\">",
    );
    assert(block_free(piece_translation_body(), 0, 105));
}

proof fn lemma_vocab_body_free()
    ensures
        block_free(piece_vocab_body(), 0, piece_vocab_body().len() as int),
{
    reveal_strlit(
        ":vocab\">\n    <summary><span class=\"section-icon\">📚</span> 词汇 (IELTS 6.5+)</summary>\n    <div class=\"ai-content\">",
    );
    assert(block_free(piece_vocab_body(), 0, 112));
}

proof fn lemma_chunks_body_free()
    ensures
        block_free(piece_chunks_body(), 0, piece_chunks_body().len() as int),
{
    reveal_strlit(
        ":chunks\">\n    <summary><span class=\"section-icon\">🔗</span> 常用短语 / Chunks</summary>\n    <div class=\"ai-content\">",
    );
    assert(block_free(piece_chunks_body(), 0, 111));
}

proof fn lemma_vocab_html_block_free(es: Seq<VocabView>)
    ensures
        block_free(vocab_html(es), 0, vocab_html(es).len() as int),
{
    if es.len() == 0 {
        lemma_empty_section_div_free();
        lemma_div_free_block_free(vocab_html(es));
    } else {
        reveal_strlit(
            "<div class=\"vocab-scroll\"><table class=\"vocab-table\"><thead><tr><th>单词</th><th>音标</th><th>词性</th><th>释义</th><th>例句</th></tr></thead><tbody>",
        );
        reveal_strlit("</tbody></table></div>");
        let head = "<div class=\"vocab-scroll\"><table class=\"vocab-table\"><thead><tr><th>单词</th><th>音标</th><th>词性</th><th>释义</th><th>例句</th></tr></thead><tbody>"@;
        let tail = "</tbody></table></div>"@;
        assert(block_free(head, 0, head.len() as int));
        assert(block_free(tail, 0, tail.len() as int));
        lemma_vocab_rows_div_free(es);
        lemma_div_free_block_free(vocab_rows(es));
        lemma_block_free_concat(head, vocab_rows(es), 0);
        lemma_block_free_concat(head + vocab_rows(es), tail, 0);
    }
}

proof fn lemma_sections_block_free(old: Option<ResponseView>)
    ensures
        block_free(translation_section(old), 0, translation_section(old).len() as int),
        block_free(vocab_section(old), 0, vocab_section(old).len() as int),
        block_free(chunks_section(old), 0, chunks_section(old).len() as int),
        block_free(status_word(old), 0, status_word(old).len() as int),
{
    lemma_plain_pieces(old);
    lemma_div_free_block_free(status_word(old));
    match old {
        Some(r) => {
            reveal_strlit("<p>");
            reveal_strlit("</p>");
            assert(div_free("<p>"@));
            assert(div_free("</p>"@));
            lemma_escape_div_free(r.translation);
            lemma_div_free_concat("<p>"@, escape_html(r.translation));
            lemma_div_free_concat("<p>"@ + escape_html(r.translation), "</p>"@);
            lemma_div_free_block_free(translation_section(old));
            lemma_vocab_html_block_free(r.vocabulary);
            lemma_chunks_html_div_free(r.chunks);
            lemma_div_free_block_free(chunks_section(old));
        },
        None => {
            reveal_strlit("<!-- FILL:translation -->");
            reveal_strlit("<!-- FILL:vocab -->");
            reveal_strlit("<!-- FILL:chunks -->");
            assert(div_free("<!-- FILL:translation -->"@));
            assert(div_free("<!-- FILL:vocab -->"@));
            assert(div_free("<!-- FILL:chunks -->"@));
            lemma_div_free_block_free(translation_section(old));
            lemma_div_free_block_free(vocab_section(old));
            lemma_div_free_block_free(chunks_section(old));
        },
    }
}

/// No `<div class="p` starts in a paragraph block but at its beginning.
pub proof fn lemma_para_block_opens_once(p: ParagraphView, old: Option<ResponseView>)
    requires
        forall|k: int| 0 <= k < p.id.len() ==> p.id[k] != '<',
    ensures
        block_free(para_block(p, old), 1, para_block(p, old).len() as int),
{
    let id = p.id;
    lemma_div_free_plain(id);
    lemma_div_free_block_free(id);
    lemma_plain_pieces(old);
    lemma_div_free_block_free(piece_status());
    lemma_div_free_block_free(piece_text());
    lemma_div_free_block_free(piece_translation());
    lemma_escape_div_free(p.text);
    lemma_div_free_block_free(escape_html(p.text));
    lemma_pieces_block_free();
    lemma_sections_block_free(old);
    let r18 = chunks_section(old) + piece_end();
    lemma_block_free_concat(chunks_section(old), piece_end(), 0);
    let r17 = piece_chunks_body() + r18;
    lemma_block_free_concat(piece_chunks_body(), r18, 0);
    let r16 = id + r17;
    lemma_block_free_concat(id, r17, 0);
    let r15 = piece_chunks() + r16;
    lemma_block_free_concat(piece_chunks(), r16, 0);
    assert(r15 == end_pieces(id, old));
    let r14 = vocab_section(old) + r15;
    lemma_block_free_concat(vocab_section(old), r15, 0);
    let r13 = piece_vocab_body() + r14;
    lemma_block_free_concat(piece_vocab_body(), r14, 0);
    let r12 = id + r13;
    lemma_block_free_concat(id, r13, 0);
    let r11 = piece_vocab() + r12;
    lemma_block_free_concat(piece_vocab(), r12, 0);
    assert(r11 == tail_pieces(id, old));
    let r10 = translation_section(old) + r11;
    lemma_block_free_concat(translation_section(old), r11, 0);
    let r9 = piece_translation_body() + r10;
    lemma_block_free_concat(piece_translation_body(), r10, 0);
    let r8 = id + r9;
    lemma_block_free_concat(id, r9, 0);
    let r7 = piece_translation() + r8;
    lemma_block_free_concat(piece_translation(), r8, 0);
    assert(r7 == mid_pieces(id, old));
    let r6 = escape_html(p.text) + r7;
    lemma_block_free_concat(escape_html(p.text), r7, 0);
    let r5 = piece_text() + r6;
    lemma_block_free_concat(piece_text(), r6, 0);
    let r4 = status_word(old) + r5;
    lemma_block_free_concat(status_word(old), r5, 0);
    let r3 = piece_status() + r4;
    lemma_block_free_concat(piece_status(), r4, 0);
    let r2 = id + r3;
    lemma_block_free_concat(id, r3, 0);
    lemma_piece_head();
    lemma_block_free_concat(piece_head(), r2, 1);
    lemma_block_layout(p, old);
    assert(piece_head() + r2 == block_pieces(p, old));
}

} // verus!
