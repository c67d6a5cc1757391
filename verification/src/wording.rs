//! What cutting texts into words and fitting them into columns comes to.

use vstd::prelude::*;

use crate::collectors;
use crate::collectors::BackendKind;
use crate::text;
use crate::text::Class;
use crate::ui::panels;

verus! {

/// A text that is aligned to the right ends in itself, one that is aligned to
/// the left starts with itself; both are as wide as asked for, with spaces
/// besides, and no shorter than the text.
pub proof fn law_alignment_pads(s: Seq<char>, width: nat)
    ensures
        ({
            let r = text::right_aligned(s, width);
            let l = text::left_aligned(s, width);
            let pad = if s.len() < width {
                width - s.len()
            } else {
                0
            };
            &&& r.len() == s.len() + pad && l.len() == s.len() + pad
            &&& forall|i: int| 0 <= i < s.len() ==> #[trigger] s[i] == r[pad + i] && s[i] == l[i]
            &&& forall|i: int| 0 <= i < pad ==> #[trigger] r[i] == ' '
            &&& forall|i: int| s.len() <= i < l.len() ==> #[trigger] l[i] == ' '
        }),
{
}

/// Clipping keeps the start of a text, as much as fits.
pub proof fn law_clipping_keeps_the_start(s: Seq<char>, n: nat)
    ensures
        text::clipped(s, n).len() == if s.len() < n {
            s.len()
        } else {
            n
        },
        forall|i: int|
            0 <= i < text::clipped(s, n).len() ==> #[trigger] text::clipped(s, n)[i] == s[i],
{
}

/// A word is not empty, and has no white space in it.
pub open spec fn is_word(w: Seq<char>) -> bool {
    w.len() > 0 && text::within(w, Class::Word)
}

proof fn lemma_leading(gap: Seq<char>, w: Seq<char>, rest: Seq<char>)
    requires
        text::within(gap, Class::Space),
        is_word(w),
    ensures
        text::trim_start(gap + w + rest) == w + rest,
{
    let s = gap + w + rest;
    let n = gap.len() as int;
    assert(s.take(n) =~= gap);
    assert(s[n] == w[0]);
    text::lemma_span_is(s, Class::Space, n);
    assert(s.skip(n) =~= w + rest);
}

/// However much white space stands before and after a word, it is the first of
/// the words, and those of the rest follow.
pub proof fn law_words_ignore_spacing(
    gap: Seq<char>,
    w: Seq<char>,
    next: Seq<char>,
    rest: Seq<char>,
)
    requires
        text::within(gap, Class::Space),
        is_word(w),
        text::within(next, Class::Space),
        next.len() > 0 || rest.len() == 0,
    ensures
        text::words(gap + w + next + rest) == seq![w] + text::words(next + rest),
        text::words(gap) == Seq::<Seq<char>>::empty(),
{
    let tail = next + rest;
    let n = w.len() as int;
    lemma_leading(gap, w, tail);
    assert(gap + w + next + rest =~= gap + w + tail);
    let t = w + tail;
    assert(t.take(n) =~= w);
    assert(t.skip(n) =~= tail);
    if tail.len() > 0 {
        assert(t[n] == next[0]);
    }
    text::lemma_span_is(t, Class::Word, n);
    assert(gap.take(gap.len() as int) =~= gap);
    text::lemma_span_is(gap, Class::Space, gap.len() as int);
    assert(text::trim_start(gap) =~= Seq::empty());
}

proof fn lemma_single(w: Seq<char>)
    requires
        is_word(w),
    ensures
        text::words(w) == seq![w],
        text::joined(text::words(w), " "@) == w,
{
    let none = Seq::<char>::empty();
    law_words_ignore_spacing(none, w, none, none);
    assert(none + w + none + none =~= w);
    assert(none + none =~= none);
    assert(text::words(none) =~= Seq::empty());
    assert(text::words(w) =~= seq![w]);
}

proof fn lemma_all_shown(s: Seq<char>)
    requires
        forall|i: int| 0 <= i < s.len() ==> panels::is_shown(#[trigger] s[i]),
    ensures
        panels::shown(s) == s,
    decreases s.len(),
{
    if s.len() > 0 {
        let front = s.drop_last();
        assert forall|i: int| 0 <= i < front.len() implies panels::is_shown(
            #[trigger] front[i],
        ) by {
            assert(front[i] == s[i]);
        }
        lemma_all_shown(front);
        assert(panels::is_shown(s[s.len() - 1]));
        assert(front.push(s.last()) =~= s);
    }
}

/// A prompt of one word without control characters is shown as it is where it
/// fits; where it does not, its start is, with an ellipsis in the last place.
pub proof fn law_prompts_are_cut(w: Seq<char>, maxlen: nat)
    requires
        is_word(w),
        forall|i: int| 0 <= i < w.len() ==> panels::is_shown(#[trigger] w[i]),
        maxlen > 0,
    ensures
        w.len() <= maxlen ==> panels::prompt_text(w, maxlen) == w,
        w.len() > maxlen ==> panels::prompt_text(w, maxlen) == w.take(maxlen - 1).push('…'),
{
    reveal_strlit("…");
    lemma_single(w);
    lemma_all_shown(w);
    if w.len() > maxlen {
        assert(w.take(maxlen - 1) + "…"@ =~= w.take(maxlen - 1).push('…'));
    }
}

/// White space before and after a prompt makes no difference, nor does how much
/// there is between its words.
pub proof fn law_prompts_ignore_spacing(
    before: Seq<char>,
    a: Seq<char>,
    between: Seq<char>,
    b: Seq<char>,
    after: Seq<char>,
    maxlen: nat,
)
    requires
        text::within(before, Class::Space),
        is_word(a),
        text::within(between, Class::Space),
        between.len() > 0,
        is_word(b),
        text::within(after, Class::Space),
    ensures
        panels::prompt_text(before + a + between + b + after, maxlen) == panels::prompt_text(
            a + seq![' '] + b,
            maxlen,
        ),
{
    let none = Seq::<char>::empty();
    let one = seq![' '];
    let rest = b + after;
    law_words_ignore_spacing(before, a, between, rest);
    assert(before + a + between + b + after =~= before + a + between + rest);
    law_words_ignore_spacing(between, b, after, none);
    assert(between + rest =~= between + b + after + none);
    law_words_ignore_spacing(after, b, none, none);
    assert(after + none =~= after);
    law_words_ignore_spacing(none, a, one, b);
    assert(none + a + one + b =~= a + one + b);
    law_words_ignore_spacing(one, b, none, none);
    assert(one + b + none + none =~= one + b);
    assert(none + none =~= none);
    assert(text::words(none) =~= Seq::empty()) by {
        law_words_ignore_spacing(none, a, none, none);
    }
}

/// A line says which backend it is of.
pub open spec fn marks(l: Seq<char>) -> bool {
    text::starts_with(text::trim(l), "vllm:"@) || text::starts_with(text::trim(l), "sglang:"@)
}

/// The first line that says so decides which backend is detected: lines before
/// it say nothing, lines after it do not count, and where none says so it is
/// vLLM.
pub proof fn law_first_mark_decides(before: Seq<Seq<char>>, l: Seq<char>, after: Seq<Seq<char>>)
    requires
        forall|i: int| 0 <= i < before.len() ==> !marks(#[trigger] before[i]),
    ensures
        collectors::detected_in(before) == BackendKind::Vllm,
        text::starts_with(text::trim(l), "vllm:"@) ==> collectors::detected_in(
            before + seq![l] + after,
        ) == BackendKind::Vllm,
        text::starts_with(text::trim(l), "sglang:"@) ==> collectors::detected_in(
            before + seq![l] + after,
        ) == BackendKind::Sgl,
    decreases before.len(),
{
    reveal_strlit("vllm:");
    reveal_strlit("sglang:");
    let ls = before + seq![l] + after;
    if before.len() > 0 {
        let rest = before.skip(1);
        assert forall|i: int| 0 <= i < rest.len() implies !marks(#[trigger] rest[i]) by {
            assert(rest[i] == before[i + 1]);
        }
        law_first_mark_decides(rest, l, after);
        assert(!marks(before[0]));
        assert(ls[0] == before[0]);
        assert(ls.skip(1) =~= rest + seq![l] + after);
    } else {
        assert(ls[0] == l);
        let t = text::trim(l);
        if text::starts_with(t, "sglang:"@) {
            assert(t[0] == "sglang:"@[0]) by {
                assert(t.take("sglang:"@.len() as int)[0] == t[0]);
            }
            if text::starts_with(t, "vllm:"@) {
                assert(t.take("vllm:"@.len() as int)[0] == t[0]);
            }
        }
    }
}

/// Trimming takes white space off both ends, and nothing else.
pub proof fn law_trimming_keeps_the_middle(before: Seq<char>, s: Seq<char>, after: Seq<char>)
    requires
        text::within(before, Class::Space),
        text::within(after, Class::Space),
        s.len() > 0,
        !text::is_space(s[0]),
        !text::is_space(s.last()),
    ensures
        text::trim(before + s + after) == s,
{
    let t = before + s + after;
    let n = before.len() as int;
    assert(t.take(n) =~= before);
    assert(t[n] == s[0]);
    text::lemma_span_is(t, Class::Space, n);
    assert(t.skip(n) =~= s + after);
    lemma_trim_end(s, after);
}

proof fn lemma_trim_end(s: Seq<char>, after: Seq<char>)
    requires
        text::within(after, Class::Space),
        s.len() > 0,
        !text::is_space(s.last()),
    ensures
        text::trim_end(s + after) == s,
    decreases after.len(),
{
    let t = s + after;
    if after.len() > 0 {
        let rest = after.drop_last();
        assert(text::belongs(Class::Space, after[after.len() - 1]));
        assert forall|i: int| 0 <= i < rest.len() implies text::belongs(
            Class::Space,
            #[trigger] rest[i],
        ) by {
            assert(after[i] == rest[i]);
        }
        lemma_trim_end(s, rest);
        assert(t.drop_last() =~= s + rest);
        assert(t.last() == after.last());
    } else {
        assert(t =~= s);
    }
}

/// Only the case of the letters from A to Z is folded: two characters become the
/// same just where they are the same, or the two cases of one such letter.
pub proof fn law_case_is_folded(a: char, b: char)
    ensures
        text::lower(a) == text::lower(b) <==> a == b || 'A' <= a <= 'Z' && b as int == a as int
            + 32 || 'A' <= b <= 'Z' && a as int == b as int + 32,
        'a' <= a <= 'z' ==> text::lower(a) == a,
{
}

} // verus!
