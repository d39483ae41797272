//! Planning the translation requests: which paragraphs are still owed,
//! how they are grouped into size-bounded batches, and the run settings.
use vstd::prelude::*;
use vstd::utf8::{decode_utf8, encode_utf8};
use crate::text::{chars_of, is_whitespace_char, lemma_nonws_count_le, nonws_count};
use crate::types::{Book, ParagraphKind};

verus! {

/// Batches aim at this many non-whitespace characters.
pub const BATCH_TARGET_CHARS: usize = 5_000;

/// No batch of several paragraphs exceeds this many non-whitespace characters.
pub const BATCH_HARD_MAX_CHARS: usize = 7_000;

/// No batch holds more paragraphs than this.
pub const BATCH_MAX_ITEMS: usize = 10;

/// A paragraph longer than this is sent on its own.
pub const SINGLE_PARAGRAPH_CHARS: usize = 2_800;

/// A paragraph that still needs its annotations.
#[derive(Debug, Clone)]
pub struct PendingParagraph {
    pub para_id: String,
    pub para_text: String,
}

pub struct PendingView {
    pub id: Seq<char>,
    pub text: Seq<char>,
}

impl View for PendingParagraph {
    type V = PendingView;

    open spec fn view(&self) -> PendingView {
        PendingView { id: self.para_id@, text: self.para_text@ }
    }
}

/// Paragraphs sent in one request.
#[derive(Debug, Clone)]
pub struct PendingBatch {
    pub paragraphs: Vec<PendingParagraph>,
}

pub open spec fn pending_view(v: Seq<PendingParagraph>) -> Seq<PendingView> {
    v.map_values(|p: PendingParagraph| p@)
}

pub open spec fn batches_view(v: Seq<PendingBatch>) -> Seq<Seq<PendingView>> {
    v.map_values(|b: PendingBatch| pending_view(b.paragraphs@))
}

/// Counts the characters of `text` that are not whitespace.
pub fn effective_text_chars(text: &str) -> (r: usize)
    ensures
        r == nonws_count(text@),
{
    let v = chars_of(text);
    let mut n: usize = 0;
    let mut i: usize = 0;
    while i < v.len()
        invariant
            i <= v.len(),
            v@ == text@,
            n == nonws_count(v@.take(i as int)),
        decreases v.len() - i,
    {
        assert(v@.take(i + 1).drop_last() == v@.take(i as int));
        proof {
            lemma_nonws_count_le(v@.take(i as int));
        }
        if !is_whitespace_char(v[i]) {
            n = n + 1;
        }
        i = i + 1;
    }
    assert(v@.take(v.len() as int) == v@);
    n
}

/// The sizes (non-whitespace characters) of the pending texts.
pub open spec fn sizes_of(p: Seq<PendingView>) -> Seq<nat> {
    p.map_values(|x: PendingView| nonws_count(x.text))
}

/// How many items a batch that starts at `start` and already holds `k` items
/// totalling `total` characters ends up with: it stops at the item cap, once
/// two items reach the target, at the end, before an oversized item, and
/// before an item that would pass the hard limit.
pub open spec fn grow_batch(c: Seq<nat>, start: int, k: nat, total: nat) -> nat
    decreases BATCH_MAX_ITEMS - k,
{
    if k >= BATCH_MAX_ITEMS {
        k
    } else if k >= 2 && total >= BATCH_TARGET_CHARS {
        k
    } else if start + k >= c.len() {
        k
    } else if c[start + k] > SINGLE_PARAGRAPH_CHARS {
        k
    } else if total + c[start + k] > BATCH_HARD_MAX_CHARS {
        k
    } else {
        grow_batch(c, start, k + 1, total + c[start + k])
    }
}

/// The size of the batch that starts at item `start`: one for an oversized
/// item, otherwise as far as `grow_batch` goes.
pub open spec fn batch_len_at(c: Seq<nat>, start: int) -> nat {
    if c[start] > SINGLE_PARAGRAPH_CHARS {
        1
    } else {
        grow_batch(c, start, 1, c[start])
    }
}

pub proof fn lemma_grow_batch_bounds(c: Seq<nat>, start: int, k: nat, total: nat)
    requires
        0 <= start,
        1 <= k <= BATCH_MAX_ITEMS,
        start + k <= c.len(),
    ensures
        k <= grow_batch(c, start, k, total) <= BATCH_MAX_ITEMS,
        start + grow_batch(c, start, k, total) <= c.len(),
    decreases BATCH_MAX_ITEMS - k,
{
    if k < BATCH_MAX_ITEMS && !(k >= 2 && total >= BATCH_TARGET_CHARS) && start + k < c.len()
        && c[start + k] <= SINGLE_PARAGRAPH_CHARS && total + c[start + k]
        <= BATCH_HARD_MAX_CHARS {
        lemma_grow_batch_bounds(c, start, k + 1, total + c[start + k]);
    }
}

pub proof fn lemma_batch_len_bounds(c: Seq<nat>, start: int)
    requires
        0 <= start < c.len(),
    ensures
        1 <= batch_len_at(c, start) <= BATCH_MAX_ITEMS,
        start + batch_len_at(c, start) <= c.len(),
{
    if c[start] <= SINGLE_PARAGRAPH_CHARS {
        lemma_grow_batch_bounds(c, start, 1, c[start]);
    }
}

/// The sizes of the batches cut from item `start` on.
pub open spec fn batch_plan_from(c: Seq<nat>, start: int) -> Seq<nat>
    decreases c.len() - start,
{
    if start < 0 || start >= c.len() {
        Seq::empty()
    } else {
        let n = batch_len_at(c, start);
        proof {
            lemma_batch_len_bounds(c, start);
        }
        if n >= 1 {
            seq![n] + batch_plan_from(c, start + n)
        } else {
            Seq::empty()
        }
    }
}

/// The sizes of the batches cut from items of sizes `c`, in order.
pub open spec fn batch_plan(c: Seq<nat>) -> Seq<nat> {
    batch_plan_from(c, 0)
}

/// The items of the batches one after the other.
pub open spec fn flatten(b: Seq<Seq<PendingView>>) -> Seq<PendingView>
    decreases b.len(),
{
    if b.len() == 0 {
        Seq::empty()
    } else {
        flatten(b.drop_last()) + b.last()
    }
}

pub open spec fn batch_lens(b: Seq<Seq<PendingView>>) -> Seq<nat> {
    b.map_values(|x: Seq<PendingView>| x.len())
}

fn clone_pending(p: &PendingParagraph) -> (r: PendingParagraph)
    ensures
        r@ == p@,
{
    PendingParagraph { para_id: p.para_id.clone(), para_text: p.para_text.clone() }
}

/// Cuts the pending paragraphs, in order, into batches: a paragraph over
/// `SINGLE_PARAGRAPH_CHARS` goes alone; others are grouped up to
/// `BATCH_MAX_ITEMS`, stopping once two or more reach `BATCH_TARGET_CHARS`
/// and before `BATCH_HARD_MAX_CHARS` would be passed.
pub fn build_translation_batches(pending: Vec<PendingParagraph>) -> (r: Vec<PendingBatch>)
    ensures
        flatten(batches_view(r@)) == pending_view(pending@),
        batch_lens(batches_view(r@)) == batch_plan(sizes_of(pending_view(pending@))),
{
    let ghost pv = pending_view(pending@);
    let ghost c = sizes_of(pv);
    let n = pending.len();
    let mut sizes: Vec<usize> = Vec::new();
    let mut s: usize = 0;
    while s < n
        invariant
            n == pending.len(),
            pv == pending_view(pending@),
            c == sizes_of(pv),
            s <= n,
            sizes@.len() == s,
            forall|j: int| 0 <= j < s ==> sizes@[j] as nat == #[trigger] c[j],
        decreases n - s,
    {
        let k = effective_text_chars(pending[s].para_text.as_str());
        sizes.push(k);
        s = s + 1;
    }
    let mut batches: Vec<PendingBatch> = Vec::new();
    let mut i: usize = 0;
    while i < n
        invariant
            n == pending.len(),
            pv == pending_view(pending@),
            c == sizes_of(pv),
            c.len() == n,
            sizes@.len() == n,
            forall|j: int| 0 <= j < n ==> sizes@[j] as nat == #[trigger] c[j],
            i <= n,
            flatten(batches_view(batches@)) == pv.take(i as int),
            batch_lens(batches_view(batches@)) + batch_plan_from(c, i as int) == batch_plan(c),
        decreases n - i,
    {
        let start = i;
        proof {
            lemma_batch_len_bounds(c, start as int);
        }
        let mut total = sizes[i];
        let mut paragraphs: Vec<PendingParagraph> = Vec::new();
        paragraphs.push(clone_pending(&pending[i]));
        i = i + 1;
        if total > SINGLE_PARAGRAPH_CHARS {
            assert(batch_len_at(c, start as int) == 1);
        } else {
            let ghost g = grow_batch(c, start as int, 1, c[start as int]);
            while paragraphs.len() < BATCH_MAX_ITEMS
                invariant
                    n == pending.len(),
                    pv == pending_view(pending@),
                    c == sizes_of(pv),
                    c.len() == n,
                    sizes@.len() == n,
                    forall|j: int| 0 <= j < n ==> sizes@[j] as nat == #[trigger] c[j],
                    start < i <= n,
                    paragraphs.len() == i - start,
                    1 <= paragraphs.len() <= BATCH_MAX_ITEMS,
                    total <= BATCH_HARD_MAX_CHARS,
                    pending_view(paragraphs@) == pv.subrange(start as int, i as int),
                    g == grow_batch(c, start as int, 1, c[start as int]),
                    g == grow_batch(c, start as int, paragraphs.len() as nat, total as nat),
                ensures
                    start < i <= n,
                    paragraphs.len() == i - start,
                    pending_view(paragraphs@) == pv.subrange(start as int, i as int),
                    g == paragraphs.len(),
                decreases BATCH_MAX_ITEMS - paragraphs.len(),
            {
                if paragraphs.len() >= 2 && total >= BATCH_TARGET_CHARS {
                    break;
                }
                if i >= n {
                    break;
                }
                let next_chars = sizes[i];
                if next_chars > SINGLE_PARAGRAPH_CHARS {
                    break;
                }
                if total + next_chars > BATCH_HARD_MAX_CHARS {
                    break;
                }
                total = total + next_chars;
                let ghost before = paragraphs@;
                paragraphs.push(clone_pending(&pending[i]));
                assert(pending_view(paragraphs@) =~= pending_view(before).push(pv[i as int]));
                assert(pv.subrange(start as int, i + 1) =~= pv.subrange(start as int, i as int).push(
                    pv[i as int],
                ));
                i = i + 1;
            }
            assert(g == paragraphs.len());
            assert(batch_len_at(c, start as int) == g);
        }
        let ghost bv = pending_view(paragraphs@);
        assert(bv =~= pv.subrange(start as int, i as int));
        let ghost prev = batches_view(batches@);
        batches.push(PendingBatch { paragraphs });
        assert(batches_view(batches@) =~= prev.push(bv));
        assert(batches_view(batches@).drop_last() =~= prev);
        assert(flatten(batches_view(batches@)) == flatten(prev) + bv);
        assert(pv.take(i as int) =~= pv.take(start as int) + pv.subrange(start as int, i as int));
        assert(batch_lens(batches_view(batches@)) =~= batch_lens(prev).push(bv.len()));
        assert(batch_plan_from(c, start as int) == seq![batch_len_at(c, start as int)]
            + batch_plan_from(c, i as int));
        assert(batch_lens(batches_view(batches@)) + batch_plan_from(c, i as int) =~= batch_lens(
            prev,
        ) + batch_plan_from(c, start as int));
    }
    assert(pv.take(n as int) =~= pv);
    assert(batch_plan_from(c, n as int) =~= Seq::<nat>::empty());
    assert(batch_lens(batches_view(batches@)) + Seq::<nat>::empty() =~= batch_lens(
        batches_view(batches@),
    ));
    batches
}

} // verus!
