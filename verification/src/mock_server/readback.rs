//! Reading the exposition of the mock server back.

use vstd::prelude::*;

use crate::collectors;
use crate::collectors::common;
use crate::collectors::common::{NumeralView, SampleView};
use crate::collectors::joined;
use crate::collectors::scrape;
use crate::collectors::scrape::{HistogramReadingView, ReadingView, ScrapeView};
use crate::collectors::{sglang, vllm, BackendKind};
use crate::exposition;
use crate::mock_server::histogram;
use crate::mock_server::histogram::{HistAcc, Spelling};
use crate::mock_server::render;
use crate::mock_server::state::{BackendState, SglState, VllmState};
use crate::text;
use crate::text::Class;

verus! {

/// The samples with the given name.
pub open spec fn named(ss: Seq<SampleView>, name: Seq<char>) -> Seq<SampleView>
    decreases ss.len(),
{
    if ss.len() == 0 {
        Seq::empty()
    } else if ss.last().name == name {
        named(ss.drop_last(), name).push(ss.last())
    } else {
        named(ss.drop_last(), name)
    }
}

/// What is asked of the samples of one name depends on those samples alone.
proof fn lemma_named(ss: Seq<SampleView>, name: Seq<char>)
    ensures
        scrape::values_named(ss, name) == scrape::values_named(named(ss, name), name),
        scrape::last_named(ss, name) == scrape::last_named(named(ss, name), name),
        scrape::buckets_named(ss, name) == scrape::buckets_named(named(ss, name), name),
    decreases ss.len(),
{
    if ss.len() > 0 {
        lemma_named(ss.drop_last(), name);
        if ss.last().name == name {
            assert(named(ss, name).drop_last() =~= named(ss.drop_last(), name));
        }
    }
}

proof fn lemma_named_label(ss: Seq<SampleView>, name: Seq<char>, key: Seq<char>)
    ensures
        scrape::last_label_named(ss, name, key) == scrape::last_label_named(
            named(ss, name),
            name,
            key,
        ),
    decreases ss.len(),
{
    if ss.len() > 0 {
        lemma_named_label(ss.drop_last(), name, key);
        if ss.last().name == name {
            assert(named(ss, name).drop_last() =~= named(ss.drop_last(), name));
        }
    }
}

proof fn lemma_named_labelled(
    ss: Seq<SampleView>,
    name: Seq<char>,
    key: Seq<char>,
    value: Seq<char>,
)
    ensures
        scrape::last_labelled(ss, name, key, value) == scrape::last_labelled(
            named(ss, name),
            name,
            key,
            value,
        ),
    decreases ss.len(),
{
    if ss.len() > 0 {
        lemma_named_labelled(ss.drop_last(), name, key, value);
        if ss.last().name == name {
            assert(named(ss, name).drop_last() =~= named(ss.drop_last(), name));
        }
    }
}

proof fn lemma_named_add(a: Seq<SampleView>, b: Seq<SampleView>, name: Seq<char>)
    ensures
        named(a + b, name) == named(a, name) + named(b, name),
    decreases b.len(),
{
    if b.len() == 0 {
        assert(a + b =~= a);
        assert(named(a, name) + named(b, name) =~= named(a, name));
    } else {
        assert((a + b).drop_last() =~= a + b.drop_last());
        lemma_named_add(a, b.drop_last(), name);
        assert(named(a + b, name) =~= named(a, name) + named(b, name));
    }
}

proof fn lemma_named_none(ss: Seq<SampleView>, name: Seq<char>)
    requires
        forall|i: int| 0 <= i < ss.len() ==> (#[trigger] ss[i]).name != name,
    ensures
        named(ss, name) == Seq::<SampleView>::empty(),
    decreases ss.len(),
{
    if ss.len() > 0 {
        assert(ss.last() == ss[ss.len() - 1]);
        assert forall|i: int| 0 <= i < ss.drop_last().len() implies (
        #[trigger] ss.drop_last()[i]).name != name by {
            assert(ss.drop_last()[i] == ss[i]);
        }
        lemma_named_none(ss.drop_last(), name);
    }
}

proof fn lemma_named_all(ss: Seq<SampleView>, name: Seq<char>)
    requires
        forall|i: int| 0 <= i < ss.len() ==> (#[trigger] ss[i]).name == name,
    ensures
        named(ss, name) == ss,
    decreases ss.len(),
{
    if ss.len() > 0 {
        assert(ss.last() == ss[ss.len() - 1]);
        assert forall|i: int| 0 <= i < ss.drop_last().len() implies (
        #[trigger] ss.drop_last()[i]).name == name by {
            assert(ss.drop_last()[i] == ss[i]);
        }
        lemma_named_all(ss.drop_last(), name);
        assert(named(ss, name) =~= ss);
    } else {
        assert(named(ss, name) =~= ss);
    }
}

/// The samples of the blocks, block by block.
spec fn block_samples(bs: Seq<Seq<Seq<char>>>) -> Seq<Seq<SampleView>> {
    Seq::new(bs.len(), |i: int| scrape::samples_in(bs[i]))
}

/// The sequences one after another.
spec fn chained(sb: Seq<Seq<SampleView>>) -> Seq<SampleView>
    decreases sb.len(),
{
    if sb.len() == 0 {
        Seq::empty()
    } else {
        chained(sb.drop_last()) + sb.last()
    }
}

proof fn lemma_chained(bs: Seq<Seq<Seq<char>>>)
    ensures
        scrape::samples_in(render::flat(bs)) == chained(block_samples(bs)),
    decreases bs.len(),
{
    if bs.len() > 0 {
        lemma_chained(bs.drop_last());
        exposition::lemma_samples_add(render::flat(bs.drop_last()), bs.last());
        assert(block_samples(bs).drop_last() =~= block_samples(bs.drop_last()));
    } else {
        assert(scrape::samples_in(render::flat(bs)) =~= chained(block_samples(bs)));
    }
}

/// Where only block `j` holds samples of a name, they are the samples of that
/// name in the whole.
proof fn lemma_only_block(sb: Seq<Seq<SampleView>>, j: int, name: Seq<char>)
    requires
        0 <= j < sb.len(),
        forall|i: int, k: int|
            0 <= i < sb.len() && i != j && 0 <= k < sb[i].len() ==> (
            #[trigger] sb[i][k]).name != name,
    ensures
        named(chained(sb), name) == named(sb[j], name),
    decreases sb.len(),
{
    let front = sb.drop_last();
    lemma_named_add(chained(front), sb.last(), name);
    if j == sb.len() - 1 {
        lemma_no_block(front, name);
        assert(named(chained(sb), name) =~= named(sb[j], name));
    } else {
        assert forall|i: int, k: int|
            0 <= i < front.len() && i != j && 0 <= k < front[i].len() implies (
        #[trigger] front[i][k]).name != name by {
            assert(front[i][k] == sb[i][k]);
        }
        lemma_only_block(front, j, name);
        assert forall|k: int| 0 <= k < sb.last().len() implies (
        #[trigger] sb.last()[k]).name != name by {
            assert(sb.last()[k] == sb[sb.len() - 1][k]);
        }
        lemma_named_none(sb.last(), name);
        assert(named(chained(sb), name) =~= named(sb[j], name));
    }
}

proof fn lemma_no_block(sb: Seq<Seq<SampleView>>, name: Seq<char>)
    requires
        forall|i: int, k: int|
            0 <= i < sb.len() && 0 <= k < sb[i].len() ==> (#[trigger] sb[i][k]).name != name,
    ensures
        named(chained(sb), name) == Seq::<SampleView>::empty(),
    decreases sb.len(),
{
    if sb.len() > 0 {
        let front = sb.drop_last();
        assert forall|i: int, k: int| 0 <= i < front.len() && 0 <= k < front[i].len() implies (
        #[trigger] front[i][k]).name != name by {
            assert(front[i][k] == sb[i][k]);
        }
        lemma_no_block(front, name);
        assert forall|k: int| 0 <= k < sb.last().len() implies (
        #[trigger] sb.last()[k]).name != name by {
            assert(sb.last()[k] == sb[sb.len() - 1][k]);
        }
        lemma_named_none(sb.last(), name);
        lemma_named_add(chained(front), sb.last(), name);
        assert(named(chained(sb), name) =~= Seq::<SampleView>::empty());
    }
}

/// The sample names the given model, or none.
spec fn names_model(x: SampleView, model: Seq<char>) -> bool {
    scrape::model_label(x) is None || (model.len() > 0 && scrape::model_label(x) == Some(model))
}

proof fn lemma_model(ss: Seq<SampleView>, model: Seq<char>)
    requires
        forall|i: int| 0 <= i < ss.len() ==> names_model(#[trigger] ss[i], model),
    ensures
        scrape::model_named(ss) is None || (model.len() > 0 && scrape::model_named(ss) == Some(
            model,
        )),
    decreases ss.len(),
{
    if ss.len() > 0 {
        let front = ss.drop_last();
        assert forall|i: int| 0 <= i < front.len() implies names_model(
            #[trigger] front[i],
            model,
        ) by {
            assert(front[i] == ss[i]);
        }
        lemma_model(front, model);
        assert(names_model(ss[ss.len() - 1], model));
    }
}

/// The model of the whole, where every sample names that model or none and
/// block `j` names it.
proof fn lemma_model_chained(sb: Seq<Seq<SampleView>>, model: Seq<char>, j: int)
    requires
        0 <= j < sb.len(),
        scrape::model_named(sb[j]) is Some || model.len() == 0,
        forall|i: int, k: int|
            0 <= i < sb.len() && 0 <= k < sb[i].len() ==> names_model(#[trigger] sb[i][k], model),
    ensures
        scrape::model_named(chained(sb)) == model_readback(model),
    decreases sb.len(),
{
    let front = sb.drop_last();
    joined::lemma_model_add(chained(front), sb.last());
    assert forall|k: int| 0 <= k < sb.last().len() implies names_model(
        #[trigger] sb.last()[k],
        model,
    ) by {
        assert(sb.last()[k] == sb[sb.len() - 1][k]);
    }
    lemma_model(sb.last(), model);
    assert forall|i: int, k: int|
        0 <= i < front.len() && 0 <= k < front[i].len() implies names_model(
        #[trigger] front[i][k],
        model,
    ) by {
        assert(front[i][k] == sb[i][k]);
    }
    lemma_chained_models(front, model);
    if j < front.len() {
        lemma_model_chained(front, model, j);
    }
}

proof fn lemma_chained_models(sb: Seq<Seq<SampleView>>, model: Seq<char>)
    requires
        forall|i: int, k: int|
            0 <= i < sb.len() && 0 <= k < sb[i].len() ==> names_model(#[trigger] sb[i][k], model),
    ensures
        scrape::model_named(chained(sb)) is None || (model.len() > 0 && scrape::model_named(
            chained(sb),
        ) == Some(model)),
    decreases sb.len(),
{
    if sb.len() > 0 {
        let front = sb.drop_last();
        joined::lemma_model_add(chained(front), sb.last());
        assert forall|k: int| 0 <= k < sb.last().len() implies names_model(
            #[trigger] sb.last()[k],
            model,
        ) by {
            assert(sb.last()[k] == sb[sb.len() - 1][k]);
        }
        lemma_model(sb.last(), model);
        assert forall|i: int, k: int|
            0 <= i < front.len() && 0 <= k < front[i].len() implies names_model(
            #[trigger] front[i][k],
            model,
        ) by {
            assert(front[i][k] == sb[i][k]);
        }
        lemma_chained_models(front, model);
    }
}

proof fn lemma_first_label(labels: Seq<(Seq<char>, Seq<char>)>, key: Seq<char>, at: int)
    requires
        0 <= at < labels.len(),
        labels[at].0 == key,
        forall|i: int| 0 <= i < at ==> (#[trigger] labels[i]).0 != key,
    ensures
        scrape::first_label(labels, key) == Some(labels[at].1),
    decreases at,
{
    if at > 0 {
        let rest = labels.skip(1);
        assert forall|i: int| 0 <= i < at - 1 implies (#[trigger] rest[i]).0 != key by {
            assert(rest[i] == labels[i + 1]);
        }
        assert(labels[0].0 != key);
        lemma_first_label(rest, key, at - 1);
    }
}

proof fn lemma_within_add(a: Seq<char>, b: Seq<char>, k: Class)
    requires
        text::within(a, k),
        text::within(b, k),
    ensures
        text::within(a + b, k),
{
    assert forall|i: int| 0 <= i < (a + b).len() implies text::belongs(
        k,
        #[trigger] (a + b)[i],
    ) by {
        if i < a.len() {
            assert((a + b)[i] == a[i]);
        } else {
            assert((a + b)[i] == b[i - a.len()]);
        }
    }
}

proof fn lemma_line_parts(s: Seq<char>)
    ensures
        text::within(s, Class::Name) ==> text::within(s, Class::Line),
        text::within(s, Class::Label) ==> text::within(s, Class::Line),
        text::within(s, Class::Word) ==> text::within(s, Class::Line),
        exposition::is_plain(s) ==> text::within(s, Class::Line),
{
    if text::within(s, Class::Name) {
        assert forall|i: int| 0 <= i < s.len() implies text::belongs(
            Class::Line,
            #[trigger] s[i],
        ) by {
            assert(text::belongs(Class::Name, s[i]));
        }
    }
    if text::within(s, Class::Label) {
        assert forall|i: int| 0 <= i < s.len() implies text::belongs(
            Class::Line,
            #[trigger] s[i],
        ) by {
            assert(text::belongs(Class::Label, s[i]));
        }
    }
    if text::within(s, Class::Word) {
        assert forall|i: int| 0 <= i < s.len() implies text::belongs(
            Class::Line,
            #[trigger] s[i],
        ) by {
            assert(text::belongs(Class::Word, s[i]));
        }
    }
}

proof fn lemma_label_list_on_line(labels: Seq<(Seq<char>, Seq<char>)>)
    requires
        exposition::writable_labels(labels),
    ensures
        text::within(exposition::label_list(labels), Class::Line),
    decreases labels.len(),
{
    if labels.len() > 0 {
        reveal_strlit("=\"");
        reveal_strlit("\"");
        reveal_strlit(",");
        let l = labels[0];
        lemma_line_parts(l.0);
        lemma_line_parts(l.1);
        lemma_within_add(l.0, "=\""@, Class::Line);
        lemma_within_add(l.0 + "=\""@, l.1, Class::Line);
        lemma_within_add(l.0 + "=\""@ + l.1, "\""@, Class::Line);
        if labels.len() > 1 {
            let rest = labels.skip(1);
            assert forall|i: int| 0 <= i < rest.len() implies text::within(
                (#[trigger] rest[i]).0,
                Class::Label,
            ) && exposition::is_plain(rest[i].1) by {
                assert(rest[i] == labels[i + 1]);
            }
            lemma_label_list_on_line(rest);
            lemma_within_add(exposition::label_text(l), ","@, Class::Line);
            lemma_within_add(
                exposition::label_text(l) + ","@,
                exposition::label_list(rest),
                Class::Line,
            );
        }
    }
}

/// The line of a sample stands on its own.
proof fn lemma_sample_is_line(
    name: Seq<char>,
    labels: Seq<(Seq<char>, Seq<char>)>,
    token: Seq<char>,
)
    requires
        exposition::is_name(name),
        exposition::writable_labels(labels),
        exposition::is_token(token),
    ensures
        exposition::is_line(exposition::sample_line(name, labels, token)),
{
    reveal_strlit("{");
    reveal_strlit("}");
    reveal_strlit(" ");
    lemma_line_parts(name);
    lemma_line_parts(token);
    let braces = exposition::label_braces(labels);
    lemma_label_list_on_line(labels);
    if labels.len() > 0 {
        lemma_within_add("{"@, exposition::label_list(labels), Class::Line);
        lemma_within_add("{"@ + exposition::label_list(labels), "}"@, Class::Line);
    }
    lemma_within_add(name, braces, Class::Line);
    lemma_within_add(name + braces, " "@, Class::Line);
    lemma_within_add(name + braces + " "@, token, Class::Line);
    let s = exposition::sample_line(name, labels, token);
    assert(s.last() == token[token.len() - 1]);
    assert(text::belongs(Class::Word, token[token.len() - 1]));
}

/// A heading stands on its own lines and holds no sample.
proof fn lemma_heading(name: Seq<char>, help: Seq<char>, kind: Seq<char>)
    requires
        exposition::is_name(name),
        exposition::is_line(help),
        exposition::is_line(kind),
    ensures
        exposition::is_line(exposition::help_line(name, help)),
        exposition::is_line(exposition::type_line(name, kind)),
        common::sample_of(exposition::help_line(name, help)) is None,
        common::sample_of(exposition::type_line(name, kind)) is None,
{
    reveal_strlit("# HELP ");
    reveal_strlit("# TYPE ");
    reveal_strlit(" ");
    lemma_line_parts(name);
    lemma_within_add("# HELP "@, name, Class::Line);
    lemma_within_add("# HELP "@ + name, " "@, Class::Line);
    lemma_within_add("# HELP "@ + name + " "@, help, Class::Line);
    lemma_within_add("# TYPE "@, name, Class::Line);
    lemma_within_add("# TYPE "@ + name, " "@, Class::Line);
    lemma_within_add("# TYPE "@ + name + " "@, kind, Class::Line);
    let h = exposition::help_line(name, help);
    let t = exposition::type_line(name, kind);
    assert(h[0] == '#');
    assert(t[0] == '#');
    assert(h.last() == help.last());
    assert(t.last() == kind.last());
    exposition::lemma_comment(h);
    exposition::lemma_comment(t);
}

spec fn sample(
    name: Seq<char>,
    labels: Seq<(Seq<char>, Seq<char>)>,
    token: Seq<char>,
) -> SampleView {
    SampleView { name, labels, value: common::value_numeral(token) }
}

/// The block of a scalar holds its sample.
proof fn lemma_scalar_block(
    name: Seq<char>,
    help: Seq<char>,
    kind: Seq<char>,
    labels: Seq<(Seq<char>, Seq<char>)>,
    token: Seq<char>,
)
    requires
        exposition::is_name(name),
        exposition::is_line(help),
        exposition::is_line(kind),
        exposition::writable_labels(labels),
        exposition::is_token(token),
    ensures
        exposition::are_lines(render::scalar_lines(name, help, kind, labels, token)),
        scrape::samples_in(render::scalar_lines(name, help, kind, labels, token)) == seq![
            sample(name, labels, token),
        ],
{
    let ls = render::scalar_lines(name, help, kind, labels, token);
    lemma_heading(name, help, kind);
    lemma_sample_is_line(name, labels, token);
    exposition::law_sample_line_read_back(name, labels, token);
    let two = ls.drop_last();
    let one = two.drop_last();
    assert(scrape::samples_in(one.drop_last()) =~= Seq::empty());
    assert(scrape::samples_in(one) =~= Seq::empty());
    assert(scrape::samples_in(two) =~= Seq::empty());
    assert(scrape::samples_in(ls) =~= seq![sample(name, labels, token)]);
}

/// A decimal number is a token.
proof fn lemma_decimal_token(n: nat)
    ensures
        text::decimal(n).len() > 0,
        forall|i: int|
            0 <= i < text::decimal(n).len() ==> text::is_digit(#[trigger] text::decimal(n)[i]),
    decreases n,
{
    if n >= 10 {
        lemma_decimal_token(n / 10);
    }
}

proof fn lemma_count_token(n: u64)
    ensures
        exposition::is_token(histogram::count_token(n)),
{
    reveal_strlit(".0");
    lemma_decimal_token(n as nat);
    let d = text::decimal(n as nat);
    assert forall|i: int| 0 <= i < d.len() implies text::belongs(Class::Word, #[trigger] d[i]) by {
        assert(text::is_digit(d[i]));
    }
    lemma_within_add(d, ".0"@, Class::Word);
    assert(histogram::count_token(n)[0] == d[0]);
    assert(text::is_digit(d[0]));
}

/// A histogram whose numbers can stand in the text.
pub open spec fn writable_histogram(h: HistAcc<String>) -> bool {
    &&& h.wf()
    &&& exposition::is_token(h.sum@)
    &&& forall|i: int|
        0 <= i < h.bounds@.len() ==> exposition::is_plain((#[trigger] h.bounds@[i])@)
}

spec fn bucket_sample(
    h: HistAcc<String>,
    base: Seq<char>,
    front: Seq<(Seq<char>, Seq<char>)>,
    model: Seq<char>,
    i: int,
) -> SampleView {
    sample(
        base + "_bucket"@,
        histogram::bucket_labels(h, front, model, i),
        histogram::count_token(h.buckets@[i]),
    )
}

spec fn bucket_samples(
    h: HistAcc<String>,
    base: Seq<char>,
    front: Seq<(Seq<char>, Seq<char>)>,
    model: Seq<char>,
    n: nat,
) -> Seq<SampleView> {
    Seq::new(n, |i: int| bucket_sample(h, base, front, model, i))
}

spec fn histogram_samples(
    h: HistAcc<String>,
    base: Seq<char>,
    front: Seq<(Seq<char>, Seq<char>)>,
    model: Seq<char>,
) -> Seq<SampleView> {
    let l = histogram::plain_labels(front, model);
    bucket_samples(h, base, front, model, h.buckets@.len()) + seq![
        sample(base + "_count"@, l, histogram::count_token(h.count)),
        sample(base + "_sum"@, l, h.sum@),
    ]
}

proof fn lemma_labels(h: HistAcc<String>, engine: bool, model: Seq<char>)
    requires
        writable_histogram(h),
        exposition::is_plain(model),
    ensures
        exposition::writable_labels(
            histogram::plain_labels(histogram::front_labels(engine), model),
        ),
        forall|i: int|
            0 <= i < h.buckets@.len() ==> exposition::writable_labels(
                #[trigger] histogram::bucket_labels(h, histogram::front_labels(engine), model, i),
            ),
{
    reveal_strlit("engine");
    reveal_strlit("0");
    reveal_strlit("le");
    reveal_strlit("model_name");
    reveal_strlit("+Inf");
    assert forall|i: int| 0 <= i < h.buckets@.len() implies exposition::writable_labels(
        #[trigger] histogram::bucket_labels(h, histogram::front_labels(engine), model, i),
    ) by {
        if i < h.bounds@.len() {
            assert(exposition::is_plain(h.bounds@[i]@));
        }
        assert(exposition::is_plain(histogram::bound_text(h, i)));
    }
}

proof fn lemma_suffixed_name(base: Seq<char>)
    requires
        exposition::is_name(base),
    ensures
        exposition::is_name(base + "_bucket"@),
        exposition::is_name(base + "_count"@),
        exposition::is_name(base + "_sum"@),
{
    reveal_strlit("_bucket");
    reveal_strlit("_count");
    reveal_strlit("_sum");
    lemma_within_add(base, "_bucket"@, Class::Name);
    lemma_within_add(base, "_count"@, Class::Name);
    lemma_within_add(base, "_sum"@, Class::Name);
}

proof fn lemma_bucket_lines(
    h: HistAcc<String>,
    base: Seq<char>,
    engine: bool,
    model: Seq<char>,
    n: nat,
)
    requires
        writable_histogram(h),
        exposition::is_plain(model),
        exposition::is_name(base),
        n <= h.buckets@.len(),
    ensures
        exposition::are_lines(
            histogram::bucket_lines(h, base, histogram::front_labels(engine), model, n),
        ),
        scrape::samples_in(
            histogram::bucket_lines(h, base, histogram::front_labels(engine), model, n),
        ) == bucket_samples(h, base, histogram::front_labels(engine), model, n),
    decreases n,
{
    let front = histogram::front_labels(engine);
    let ls = histogram::bucket_lines(h, base, front, model, n);
    if n == 0 {
        assert(scrape::samples_in(ls) =~= bucket_samples(h, base, front, model, n));
    } else {
        let k = (n - 1) as nat;
        lemma_bucket_lines(h, base, engine, model, k);
        assert(ls.drop_last() =~= histogram::bucket_lines(h, base, front, model, k));
        lemma_labels(h, engine, model);
        lemma_suffixed_name(base);
        lemma_count_token(h.buckets@[k as int]);
        let l = histogram::bucket_labels(h, front, model, k as int);
        let t = histogram::count_token(h.buckets@[k as int]);
        assert(exposition::writable_labels(l));
        exposition::law_sample_line_read_back(base + "_bucket"@, l, t);
        lemma_sample_is_line(base + "_bucket"@, l, t);
        assert forall|i: int| 0 <= i < ls.len() implies exposition::is_line(#[trigger] ls[i]) by {
            if i < k {
                assert(ls[i] == ls.drop_last()[i]);
            }
        }
        assert(scrape::samples_in(ls) =~= bucket_samples(h, base, front, model, n));
    }
}

/// The block of a histogram holds its samples.
proof fn lemma_histogram_block(
    h: HistAcc<String>,
    base: Seq<char>,
    help: Seq<char>,
    engine: bool,
    model: Seq<char>,
)
    requires
        writable_histogram(h),
        exposition::is_plain(model),
        exposition::is_name(base),
        exposition::is_line(help),
    ensures
        exposition::are_lines(
            histogram::histogram_lines(h, base, help, histogram::front_labels(engine), model),
        ),
        scrape::samples_in(
            histogram::histogram_lines(h, base, help, histogram::front_labels(engine), model),
        ) == histogram_samples(h, base, histogram::front_labels(engine), model),
{
    reveal_strlit("histogram");
    let front = histogram::front_labels(engine);
    let heading = seq![
        exposition::help_line(base, help),
        exposition::type_line(base, "histogram"@),
    ];
    let buckets = histogram::bucket_lines(h, base, front, model, h.buckets@.len());
    let l = histogram::plain_labels(front, model);
    let c = exposition::sample_line(base + "_count"@, l, histogram::count_token(h.count));
    let s = exposition::sample_line(base + "_sum"@, l, h.sum@);
    let tail = seq![c, s];
    lemma_heading(base, help, "histogram"@);
    lemma_bucket_lines(h, base, engine, model, h.buckets@.len());
    lemma_labels(h, engine, model);
    lemma_suffixed_name(base);
    lemma_count_token(h.count);
    exposition::law_sample_line_read_back(base + "_count"@, l, histogram::count_token(h.count));
    exposition::law_sample_line_read_back(base + "_sum"@, l, h.sum@);
    lemma_sample_is_line(base + "_count"@, l, histogram::count_token(h.count));
    lemma_sample_is_line(base + "_sum"@, l, h.sum@);

    assert(scrape::samples_in(heading.drop_last().drop_last()) =~= Seq::empty());
    assert(scrape::samples_in(heading.drop_last()) =~= Seq::empty());
    assert(scrape::samples_in(heading) =~= Seq::empty());
    exposition::lemma_samples_add(heading, buckets);
    exposition::lemma_samples_add(heading + buckets, tail);
    assert(scrape::samples_in(tail.drop_last().drop_last()) =~= Seq::empty());
    assert(scrape::samples_in(tail.drop_last()) =~= seq![
        sample(base + "_count"@, l, histogram::count_token(h.count)),
    ]);
    assert(scrape::samples_in(tail) =~= seq![
        sample(base + "_count"@, l, histogram::count_token(h.count)),
        sample(base + "_sum"@, l, h.sum@),
    ]);
    let all = histogram::histogram_lines(h, base, help, front, model);
    assert(all == heading + buckets + tail);
    assert(scrape::samples_in(all) =~= histogram_samples(h, base, front, model));
    assert forall|i: int| 0 <= i < all.len() implies exposition::is_line(#[trigger] all[i]) by {
        if i >= 2 && i < 2 + buckets.len() {
            assert(all[i] == buckets[i - 2]);
        }
    }
}

/// What reading a histogram back gives.
pub open spec fn histogram_readback(h: HistAcc<String>) -> HistogramReadingView {
    HistogramReadingView {
        count: seq![common::value_numeral(histogram::count_token(h.count))],
        sum: seq![common::value_numeral(h.sum@)],
        buckets: Seq::new(
            h.buckets@.len(),
            |i: int|
                (
                    if i < h.bounds@.len() {
                        common::bound_numeral(h.bounds@[i]@)
                    } else {
                        NumeralView::PosInf
                    },
                    common::value_numeral(histogram::count_token(h.buckets@[i])),
                ),
        ),
    }
}

pub open spec fn reading(token: Seq<char>) -> ReadingView {
    ReadingView::Sum(seq![common::value_numeral(token)])
}

/// The model that reading back gives: an empty name is none.
pub open spec fn model_readback(model: Seq<char>) -> Option<Seq<char>> {
    if model.len() == 0 {
        None
    } else {
        Some(model)
    }
}

proof fn lemma_infinite_bound()
    ensures
        common::bound_numeral("+Inf"@) == NumeralView::PosInf,
{
    reveal_strlit("+Inf");
    assert("+Inf"@.skip(0) =~= "+Inf"@);
    assert(text::span("+Inf"@, Class::Space) == 0);
    assert(text::trim("+Inf"@) == "+Inf"@);
}

proof fn lemma_bucket_bound(h: HistAcc<String>, engine: bool, model: Seq<char>, i: int)
    requires
        0 <= i < h.buckets@.len(),
    ensures
        scrape::first_label(
            histogram::bucket_labels(h, histogram::front_labels(engine), model, i),
            "le"@,
        ) == Some(histogram::bound_text(h, i)),
{
    reveal_strlit("engine");
    reveal_strlit("le");
    let l = histogram::bucket_labels(h, histogram::front_labels(engine), model, i);
    if engine {
        assert("engine"@.len() != "le"@.len());
        assert(l[0] == ("engine"@, "0"@));
        assert(l.skip(1)[0] == ("le"@, histogram::bound_text(h, i)));
        reveal_with_fuel(scrape::first_label, 3);
    } else {
        assert(l[0] == ("le"@, histogram::bound_text(h, i)));
    }
}

proof fn lemma_bucket_values(
    h: HistAcc<String>,
    base: Seq<char>,
    engine: bool,
    model: Seq<char>,
    n: nat,
)
    requires
        writable_histogram(h),
        n <= h.buckets@.len(),
    ensures
        scrape::buckets_named(
            bucket_samples(h, base, histogram::front_labels(engine), model, n),
            base + "_bucket"@,
        ) == histogram_readback(h).buckets.take(n as int),
    decreases n,
{
    let front = histogram::front_labels(engine);
    let ss = bucket_samples(h, base, front, model, n);
    if n == 0 {
        assert(scrape::buckets_named(ss, base + "_bucket"@) =~= histogram_readback(h).buckets.take(
            0,
        ));
    } else {
        let k = (n - 1) as nat;
        lemma_bucket_values(h, base, engine, model, k);
        assert(ss.drop_last() =~= bucket_samples(h, base, front, model, k));
        lemma_bucket_bound(h, engine, model, k as int);
        lemma_infinite_bound();
        assert(scrape::buckets_named(ss, base + "_bucket"@) =~= histogram_readback(h).buckets.take(
            n as int,
        ));
    }
}

/// A histogram that stands in one block alone reads back as itself.
proof fn lemma_histogram_readback(
    ss: Seq<SampleView>,
    h: HistAcc<String>,
    base: Seq<char>,
    engine: bool,
    model: Seq<char>,
)
    requires
        writable_histogram(h),
        named(ss, base + "_bucket"@) == named(
            histogram_samples(h, base, histogram::front_labels(engine), model),
            base + "_bucket"@,
        ),
        named(ss, base + "_count"@) == named(
            histogram_samples(h, base, histogram::front_labels(engine), model),
            base + "_count"@,
        ),
        named(ss, base + "_sum"@) == named(
            histogram_samples(h, base, histogram::front_labels(engine), model),
            base + "_sum"@,
        ),
    ensures
        scrape::histogram_named(ss, base) == histogram_readback(h),
{
    reveal_strlit("_bucket");
    reveal_strlit("_count");
    reveal_strlit("_sum");
    let front = histogram::front_labels(engine);
    let bn = base + "_bucket"@;
    let cn = base + "_count"@;
    let sn = base + "_sum"@;
    assert(bn.len() != cn.len() && cn.len() != sn.len() && bn.len() != sn.len());
    let bs = bucket_samples(h, base, front, model, h.buckets@.len());
    let l = histogram::plain_labels(front, model);
    let c = sample(cn, l, histogram::count_token(h.count));
    let s = sample(sn, l, h.sum@);
    let tail = seq![c, s];
    lemma_named(ss, bn);
    lemma_named(ss, cn);
    lemma_named(ss, sn);
    lemma_named_add(bs, tail, bn);
    lemma_named_add(bs, tail, cn);
    lemma_named_add(bs, tail, sn);
    lemma_named_all(bs, bn);
    lemma_named_none(bs, cn);
    lemma_named_none(bs, sn);
    lemma_named_none(tail, bn);
    assert(tail.drop_last() =~= seq![c]);
    assert(seq![c].drop_last() =~= Seq::empty());
    assert(named(seq![c].drop_last(), cn) =~= Seq::empty());
    assert(named(seq![c].drop_last(), sn) =~= Seq::empty());
    assert(named(seq![c], cn) =~= seq![c]);
    assert(named(seq![c], sn) =~= Seq::empty());
    assert(named(tail, cn) =~= seq![c]);
    assert(named(tail, sn) =~= seq![s]);
    assert(named(ss, bn) =~= bs);
    assert(named(ss, cn) =~= seq![c]);
    assert(named(ss, sn) =~= seq![s]);
    assert(seq![s].drop_last() =~= Seq::empty());
    assert(scrape::values_named(seq![c].drop_last(), cn) =~= Seq::empty());
    assert(scrape::values_named(seq![s].drop_last(), sn) =~= Seq::empty());
    assert(scrape::values_named(seq![c], cn) =~= seq![c.value]);
    assert(scrape::values_named(seq![s], sn) =~= seq![s.value]);
    lemma_bucket_values(h, base, engine, model, h.buckets@.len());
    assert(histogram_readback(h).buckets.take(h.buckets@.len() as int)
        =~= histogram_readback(h).buckets);
}

/// A scalar that stands in one block alone reads back as itself.
proof fn lemma_scalar_readback(ss: Seq<SampleView>, x: SampleView)
    requires
        named(ss, x.name) == named(seq![x], x.name),
    ensures
        named(ss, x.name) == seq![x],
        scrape::values_named(ss, x.name) == seq![x.value],
        scrape::last_named(ss, x.name) == Some(x.value),
{
    lemma_named(ss, x.name);
    assert(seq![x].drop_last() =~= Seq::empty());
    assert(named(seq![x].drop_last(), x.name) =~= Seq::empty());
    assert(named(seq![x], x.name) =~= seq![x]);
    assert(scrape::values_named(seq![x].drop_last(), x.name) =~= Seq::empty());
    assert(scrape::values_named(seq![x], x.name) =~= seq![x.value]);
}


proof fn lemma_flat_lines(bs: Seq<Seq<Seq<char>>>)
    requires
        forall|i: int| 0 <= i < bs.len() ==> exposition::are_lines(#[trigger] bs[i]),
    ensures
        exposition::are_lines(render::flat(bs)),
    decreases bs.len(),
{
    if bs.len() > 0 {
        let front = bs.drop_last();
        assert forall|i: int| 0 <= i < front.len() implies exposition::are_lines(
            #[trigger] front[i],
        ) by {
            assert(front[i] == bs[i]);
        }
        lemma_flat_lines(front);
        assert(exposition::are_lines(bs[bs.len() - 1]));
        let all = render::flat(bs);
        assert forall|i: int| 0 <= i < all.len() implies exposition::is_line(#[trigger] all[i]) by {
            if i < render::flat(front).len() {
                assert(all[i] == render::flat(front)[i]);
            } else {
                assert(all[i] == bs.last()[i - render::flat(front).len()]);
            }
        }
    }
}

/// The labels of plain samples can be written, and name the model.
proof fn lemma_plain_model(engine: bool, model: Seq<char>)
    requires
        exposition::is_plain(model),
    ensures
        exposition::writable_labels(
            histogram::plain_labels(histogram::front_labels(engine), model),
        ),
        scrape::first_label(
            histogram::plain_labels(histogram::front_labels(engine), model),
            "model_name"@,
        ) == Some(model),
        scrape::first_label(Seq::<(Seq<char>, Seq<char>)>::empty(), "model_name"@) is None,
{
    reveal_strlit("engine");
    reveal_strlit("0");
    reveal_strlit("model_name");
    assert("engine"@.len() != "model_name"@.len());
    let l = histogram::plain_labels(histogram::front_labels(engine), model);
    if engine {
        lemma_first_label(l, "model_name"@, 1);
    } else {
        lemma_first_label(l, "model_name"@, 0);
    }
}

proof fn lemma_single_model(x: SampleView, model: Seq<char>)
    requires
        scrape::first_label(x.labels, "model_name"@) == Some(model),
    ensures
        scrape::model_named(seq![x]) == model_readback(model),
{
    assert(seq![x].drop_last() =~= Seq::empty());
    assert(scrape::model_named(seq![x].drop_last()) is None);
}

/// The name starts with the base.
spec fn extends(name: Seq<char>, base: Seq<char>) -> bool {
    name.len() >= base.len() && forall|i: int| 0 <= i < base.len() ==> #[trigger] name[i] == base[i]
}

proof fn lemma_histogram_names(h: HistAcc<String>, base: Seq<char>, engine: bool, model: Seq<char>)
    requires
        writable_histogram(h),
        exposition::is_plain(model),
    ensures
        forall|k: int|
            0 <= k < histogram_samples(h, base, histogram::front_labels(engine), model).len()
                ==> extends(
                (#[trigger] histogram_samples(
                    h,
                    base,
                    histogram::front_labels(engine),
                    model,
                )[k]).name,
                base,
            ) && names_model(
                histogram_samples(h, base, histogram::front_labels(engine), model)[k],
                model,
            ),
{
    reveal_strlit("engine");
    reveal_strlit("le");
    reveal_strlit("model_name");
    assert("engine"@.len() != "model_name"@.len());
    assert("le"@.len() != "model_name"@.len());
    lemma_plain_model(engine, model);
    let ss = histogram_samples(h, base, histogram::front_labels(engine), model);
    assert forall|k: int| 0 <= k < ss.len() implies extends((#[trigger] ss[k]).name, base)
        && names_model(ss[k], model) by {
        if k < h.buckets@.len() {
            let l = histogram::bucket_labels(h, histogram::front_labels(engine), model, k);
            if engine {
                lemma_first_label(l, "model_name"@, 2);
            } else {
                lemma_first_label(l, "model_name"@, 1);
            }
        }
    }
}

proof fn lemma_last_label(labels: Seq<(Seq<char>, Seq<char>)>, key: Seq<char>, at: int)
    requires
        0 <= at < labels.len(),
        labels[at].0 == key,
        forall|i: int| at < i < labels.len() ==> (#[trigger] labels[i]).0 != key,
    ensures
        scrape::last_label(labels, key) == Some(labels[at].1),
    decreases labels.len() - at,
{
    if at < labels.len() - 1 {
        let rest = labels.drop_last();
        assert forall|i: int| at < i < rest.len() implies (#[trigger] rest[i]).0 != key by {
            assert(rest[i] == labels[i]);
        }
        assert(labels[labels.len() - 1].0 != key);
        lemma_last_label(rest, key, at);
    }
}

proof fn lemma_config_labels(model: Seq<char>)
    requires
        exposition::is_plain(model),
    ensures
        exposition::writable_labels(render::config_labels(model)),
        scrape::first_label(render::config_labels(model), "model_name"@) == Some(model),
        scrape::last_label(render::config_labels(model), "block_size"@) == Some("16"@),
        scrape::last_label(render::config_labels(model), "cache_dtype"@) == Some("auto"@),
        scrape::last_label(
            render::config_labels(model),
            "enable_prefix_caching"@) == Some("False"@,
        ),
        scrape::last_label(render::config_labels(model), "gpu_memory_utilization"@) == Some("0.9"@),
        scrape::last_label(render::config_labels(model), "num_gpu_blocks"@) == Some("1024"@),
{
    reveal_strlit("block_size");
    reveal_strlit("cache_dtype");
    reveal_strlit("enable_prefix_caching");
    reveal_strlit("engine");
    reveal_strlit("gpu_memory_utilization");
    reveal_strlit("model_name");
    reveal_strlit("num_gpu_blocks");
    reveal_strlit("16");
    reveal_strlit("auto");
    reveal_strlit("False");
    reveal_strlit("0");
    reveal_strlit("0.9");
    reveal_strlit("1024");
    let l = render::config_labels(model);
    assert("block_size"@[0] != "model_name"@[0]);
    assert("cache_dtype"@.len() == 11);
    assert("enable_prefix_caching"@.len() == 21);
    assert("engine"@.len() == 6);
    assert("gpu_memory_utilization"@.len() == 22);
    assert("model_name"@.len() == 10);
    assert("num_gpu_blocks"@.len() == 14);
    lemma_first_label(l, "model_name"@, 5);
    lemma_last_label(l, "block_size"@, 0);
    lemma_last_label(l, "cache_dtype"@, 1);
    lemma_last_label(l, "enable_prefix_caching"@, 2);
    lemma_last_label(l, "gpu_memory_utilization"@, 4);
    lemma_last_label(l, "num_gpu_blocks"@, 6);
}

proof fn lemma_sleep_labels(model: Seq<char>)
    requires
        exposition::is_plain(model),
    ensures
        exposition::writable_labels(render::sleep_labels(model)),
        scrape::first_label(render::sleep_labels(model), "model_name"@) == Some(model),
        scrape::has_label(render::sleep_labels(model), "sleep_state"@, "awake"@),
{
    reveal_strlit("engine");
    reveal_strlit("model_name");
    reveal_strlit("sleep_state");
    reveal_strlit("0");
    reveal_strlit("awake");
    let l = render::sleep_labels(model);
    lemma_first_label(l, "model_name"@, 1);
    assert(l[2] == ("sleep_state"@, "awake"@));
}

/// The series of the exposition, block by block.
pub open spec fn vllm_series(i: int) -> Seq<char> {
    if i == 0 {
        "process_start_time_seconds"@
    } else if i == 1 {
        "vllm:num_requests_running"@
    } else if i == 2 {
        "vllm:num_requests_waiting"@
    } else if i == 3 {
        "vllm:kv_cache_usage_perc"@
    } else if i == 4 {
        "vllm:prompt_tokens_total"@
    } else if i == 5 {
        "vllm:generation_tokens_total"@
    } else if i == 6 {
        "vllm:prompt_tokens_cached_total"@
    } else if i == 7 {
        "vllm:num_preemptions_total"@
    } else if i == 8 {
        "vllm:prefix_cache_hits_total"@
    } else if i == 9 {
        "vllm:prefix_cache_queries_total"@
    } else if i == 10 {
        "vllm:request_success_total"@
    } else if i == 11 {
        "vllm:time_to_first_token_seconds"@
    } else if i == 12 {
        "vllm:inter_token_latency_seconds"@
    } else if i == 13 {
        "vllm:e2e_request_latency_seconds"@
    } else if i == 14 {
        "vllm:request_queue_time_seconds"@
    } else if i == 15 {
        "vllm:request_prompt_tokens"@
    } else if i == 16 {
        "vllm:request_generation_tokens"@
    } else if i == 17 {
        "vllm:request_prefill_time_seconds"@
    } else if i == 18 {
        "vllm:request_decode_time_seconds"@
    } else if i == 19 {
        "vllm:cache_config_info"@
    } else {
        "vllm:engine_sleep_state"@
    }
}

/// Two characters that tell the series apart.
spec fn vllm_stamp(s: Seq<char>) -> (char, char) {
    (s[13], s[19])
}

spec fn vllm_code(i: int) -> (char, char) {
    if i == 0 {
        ('_', 's')
    } else if i == 1 {
        ('e', 'u')
    } else if i == 2 {
        ('e', 'a')
    } else if i == 3 {
        ('_', '_')
    } else if i == 4 {
        ('o', 't')
    } else if i == 5 {
        ('o', 'e')
    } else if i == 6 {
        ('o', 'c')
    } else if i == 7 {
        ('m', 's')
    } else if i == 8 {
        ('a', 'i')
    } else if i == 9 {
        ('a', 'u')
    } else if i == 10 {
        ('s', 's')
    } else if i == 11 {
        ('f', 't')
    } else if i == 12 {
        ('k', 't')
    } else if i == 13 {
        ('e', 't')
    } else if i == 14 {
        ('q', 't')
    } else if i == 15 {
        ('p', '_')
    } else if i == 16 {
        ('g', 't')
    } else if i == 17 {
        ('p', 'l')
    } else if i == 18 {
        ('d', '_')
    } else if i == 19 {
        ('n', 'n')
    } else {
        ('l', 't')
    }
}

proof fn lemma_vllm_series(i: int)
    requires
        0 <= i < 21,
    ensures
        vllm_series(i).len() > 19,
        vllm_stamp(vllm_series(i)) == vllm_code(i),
        exposition::is_name(vllm_series(i)),
{
    if i == 0 {
        reveal_strlit("process_start_time_seconds");
    } else if i == 1 {
        reveal_strlit("vllm:num_requests_running");
    } else if i == 2 {
        reveal_strlit("vllm:num_requests_waiting");
    } else if i == 3 {
        reveal_strlit("vllm:kv_cache_usage_perc");
    } else if i == 4 {
        reveal_strlit("vllm:prompt_tokens_total");
    } else if i == 5 {
        reveal_strlit("vllm:generation_tokens_total");
    } else if i == 6 {
        reveal_strlit("vllm:prompt_tokens_cached_total");
    } else if i == 7 {
        reveal_strlit("vllm:num_preemptions_total");
    } else if i == 8 {
        reveal_strlit("vllm:prefix_cache_hits_total");
    } else if i == 9 {
        reveal_strlit("vllm:prefix_cache_queries_total");
    } else if i == 10 {
        reveal_strlit("vllm:request_success_total");
    } else if i == 11 {
        reveal_strlit("vllm:time_to_first_token_seconds");
    } else if i == 12 {
        reveal_strlit("vllm:inter_token_latency_seconds");
    } else if i == 13 {
        reveal_strlit("vllm:e2e_request_latency_seconds");
    } else if i == 14 {
        reveal_strlit("vllm:request_queue_time_seconds");
    } else if i == 15 {
        reveal_strlit("vllm:request_prompt_tokens");
    } else if i == 16 {
        reveal_strlit("vllm:request_generation_tokens");
    } else if i == 17 {
        reveal_strlit("vllm:request_prefill_time_seconds");
    } else if i == 18 {
        reveal_strlit("vllm:request_decode_time_seconds");
    } else if i == 19 {
        reveal_strlit("vllm:cache_config_info");
    } else if i == 20 {
        reveal_strlit("vllm:engine_sleep_state");
    }
}

/// The samples of block `i`.
spec fn vllm_samples(s: VllmState<String>, i: int) -> Seq<SampleView> {
    let m = s.model@;
    if i == 0 {
        seq![sample("process_start_time_seconds"@, Seq::empty(), s.process_start_time@)]
    } else if i == 1 {
        seq![sample("vllm:num_requests_running"@, render::vllm_labels(m), s.num_requests_running@)]
    } else if i == 2 {
        seq![sample("vllm:num_requests_waiting"@, render::vllm_labels(m), s.num_requests_waiting@)]
    } else if i == 3 {
        seq![sample("vllm:kv_cache_usage_perc"@, render::vllm_labels(m), s.kv_cache_usage_perc@)]
    } else if i == 4 {
        seq![sample("vllm:prompt_tokens_total"@, render::vllm_labels(m), s.prompt_tokens_total@)]
    } else if i == 5 {
        seq![
            sample(
                "vllm:generation_tokens_total"@,
                render::vllm_labels(m),
                s.generation_tokens_total@,
            ),
        ]
    } else if i == 6 {
        seq![
            sample(
                "vllm:prompt_tokens_cached_total"@,
                render::vllm_labels(m),
                s.prompt_tokens_cached_total@,
            ),
        ]
    } else if i == 7 {
        seq![
            sample("vllm:num_preemptions_total"@, render::vllm_labels(m), s.num_preemptions_total@),
        ]
    } else if i == 8 {
        seq![
            sample(
                "vllm:prefix_cache_hits_total"@,
                render::vllm_labels(m),
                s.prefix_cache_hits_total@,
            ),
        ]
    } else if i == 9 {
        seq![
            sample(
                "vllm:prefix_cache_queries_total"@,
                render::vllm_labels(m),
                s.prefix_cache_queries_total@,
            ),
        ]
    } else if i == 10 {
        seq![
            sample("vllm:request_success_total"@, render::vllm_labels(m), s.request_success_total@),
        ]
    } else if i == 11 {
        histogram_samples(
            s.ttft,
            "vllm:time_to_first_token_seconds"@,
            histogram::front_labels(true),
            m,
        )
    } else if i == 12 {
        histogram_samples(
            s.inter_token,
            "vllm:inter_token_latency_seconds"@,
            histogram::front_labels(true),
            m,
        )
    } else if i == 13 {
        histogram_samples(
            s.e2e,
            "vllm:e2e_request_latency_seconds"@,
            histogram::front_labels(true),
            m,
        )
    } else if i == 14 {
        histogram_samples(
            s.queue_time,
            "vllm:request_queue_time_seconds"@,
            histogram::front_labels(true),
            m,
        )
    } else if i == 15 {
        histogram_samples(
            s.req_prompt_tokens,
            "vllm:request_prompt_tokens"@,
            histogram::front_labels(true),
            m,
        )
    } else if i == 16 {
        histogram_samples(
            s.req_gen_tokens,
            "vllm:request_generation_tokens"@,
            histogram::front_labels(true),
            m,
        )
    } else if i == 17 {
        histogram_samples(
            s.prefill_time,
            "vllm:request_prefill_time_seconds"@,
            histogram::front_labels(true),
            m,
        )
    } else if i == 18 {
        histogram_samples(
            s.decode_time,
            "vllm:request_decode_time_seconds"@,
            histogram::front_labels(true),
            m,
        )
    } else if i == 19 {
        seq![sample("vllm:cache_config_info"@, render::config_labels(m), "1.0"@)]
    } else {
        seq![sample("vllm:engine_sleep_state"@, render::sleep_labels(m), "1.0"@)]
    }
}

/// The samples all carry the two characters of series `i`, and the model.
spec fn vllm_marked(ss: Seq<SampleView>, i: int, model: Seq<char>) -> bool {
    forall|k: int|
        0 <= k < ss.len() ==> (#[trigger] ss[k]).name.len() > 19 && vllm_stamp(ss[k].name)
            == vllm_code(i) && names_model(ss[k], model)
}

/// A state whose texts can stand in the exposition: the model needs no
/// escapes, and the numbers are tokens.
pub open spec fn vllm_writable(s: VllmState<String>) -> bool {
    &&& exposition::is_plain(s.model@)
    &&& exposition::is_token(s.process_start_time@)
    &&& exposition::is_token(s.num_requests_running@)
    &&& exposition::is_token(s.num_requests_waiting@)
    &&& exposition::is_token(s.kv_cache_usage_perc@)
    &&& exposition::is_token(s.prompt_tokens_total@)
    &&& exposition::is_token(s.generation_tokens_total@)
    &&& exposition::is_token(s.prompt_tokens_cached_total@)
    &&& exposition::is_token(s.num_preemptions_total@)
    &&& exposition::is_token(s.prefix_cache_hits_total@)
    &&& exposition::is_token(s.prefix_cache_queries_total@)
    &&& exposition::is_token(s.request_success_total@)
    &&& writable_histogram(s.ttft)
    &&& writable_histogram(s.inter_token)
    &&& writable_histogram(s.e2e)
    &&& writable_histogram(s.queue_time)
    &&& writable_histogram(s.req_prompt_tokens)
    &&& writable_histogram(s.req_gen_tokens)
    &&& writable_histogram(s.prefill_time)
    &&& writable_histogram(s.decode_time)
}

proof fn lemma_vllm_scalar_block(
    i: int,
    model: Seq<char>,
    name: Seq<char>,
    help: Seq<char>,
    kind: Seq<char>,
    labels: Seq<(Seq<char>, Seq<char>)>,
    token: Seq<char>,
)
    requires
        name.len() > 19,
        vllm_stamp(name) == vllm_code(i),
        exposition::is_name(name),
        exposition::is_line(help),
        exposition::is_line(kind),
        exposition::writable_labels(labels),
        exposition::is_token(token),
        scrape::first_label(labels, "model_name"@) is None || scrape::first_label(
            labels,
            "model_name"@,
        ) == Some(model),
    ensures
        exposition::are_lines(render::scalar_lines(name, help, kind, labels, token)),
        scrape::samples_in(render::scalar_lines(name, help, kind, labels, token)) == seq![
            sample(name, labels, token),
        ],
        vllm_marked(seq![sample(name, labels, token)], i, model),
{
    lemma_scalar_block(name, help, kind, labels, token);
}

proof fn lemma_vllm_histogram_block(
    i: int,
    h: HistAcc<String>,
    base: Seq<char>,
    help: Seq<char>,
    model: Seq<char>,
)
    requires
        base.len() > 19,
        vllm_stamp(base) == vllm_code(i),
        writable_histogram(h),
        exposition::is_plain(model),
        exposition::is_name(base),
        exposition::is_line(help),
    ensures
        exposition::are_lines(
            histogram::histogram_lines(h, base, help, histogram::front_labels(true), model),
        ),
        scrape::samples_in(
            histogram::histogram_lines(h, base, help, histogram::front_labels(true), model),
        ) == histogram_samples(h, base, histogram::front_labels(true), model),
        vllm_marked(
            histogram_samples(h, base, histogram::front_labels(true), model),
            i,
            model,
        ),
{
    lemma_histogram_block(h, base, help, true, model);
    lemma_histogram_names(h, base, true, model);
}

/// Block `i` is made of lines, and holds the samples that it should.
spec fn vllm_block_ok(s: VllmState<String>, i: int) -> bool {
    &&& exposition::are_lines(render::vllm_blocks(s)[i])
    &&& scrape::samples_in(render::vllm_blocks(s)[i]) == vllm_samples(s, i)
    &&& vllm_marked(vllm_samples(s, i), i, s.model@)
}

#[verifier::rlimit(60)]
#[verifier::spinoff_prover]
proof fn lemma_vllm_gauges(s: VllmState<String>, i: int)
    requires
        vllm_writable(s),
        0 <= i < 5,
    ensures
        vllm_block_ok(s, i),
{
    let m = s.model@;
    lemma_vllm_series(i);
    lemma_plain_model(true, m);
    if i == 0 {
        let name = "process_start_time_seconds"@;
        let help = "Start time of the process since unix epoch in seconds."@;
        reveal_strlit("Start time of the process since unix epoch in seconds.");
        reveal_strlit("gauge");
        lemma_vllm_scalar_block(i, m, name, help, "gauge"@, Seq::empty(), s.process_start_time@);
        assert(vllm_block_ok(s, 0));
    } else if i == 1 {
        reveal_strlit("mock vLLM metric.");
        reveal_strlit("gauge");
        lemma_vllm_scalar_block(
            i,
            m,
            "vllm:num_requests_running"@,
            "mock vLLM metric."@,
            "gauge"@,
            render::vllm_labels(m),
            s.num_requests_running@,
        );
        assert(vllm_block_ok(s, 1));
    } else if i == 2 {
        reveal_strlit("mock vLLM metric.");
        reveal_strlit("gauge");
        lemma_vllm_scalar_block(
            i,
            m,
            "vllm:num_requests_waiting"@,
            "mock vLLM metric."@,
            "gauge"@,
            render::vllm_labels(m),
            s.num_requests_waiting@,
        );
        assert(vllm_block_ok(s, 2));
    } else if i == 3 {
        reveal_strlit("mock vLLM metric.");
        reveal_strlit("gauge");
        lemma_vllm_scalar_block(
            i,
            m,
            "vllm:kv_cache_usage_perc"@,
            "mock vLLM metric."@,
            "gauge"@,
            render::vllm_labels(m),
            s.kv_cache_usage_perc@,
        );
        assert(vllm_block_ok(s, 3));
    } else if i == 4 {
        reveal_strlit("mock vLLM metric.");
        reveal_strlit("counter");
        lemma_vllm_scalar_block(
            i,
            m,
            "vllm:prompt_tokens_total"@,
            "mock vLLM metric."@,
            "counter"@,
            render::vllm_labels(m),
            s.prompt_tokens_total@,
        );
        assert(vllm_block_ok(s, 4));
    }
}

#[verifier::rlimit(60)]
#[verifier::spinoff_prover]
proof fn lemma_vllm_counters(s: VllmState<String>, i: int)
    requires
        vllm_writable(s),
        5 <= i < 11,
    ensures
        vllm_block_ok(s, i),
{
    let m = s.model@;
    lemma_vllm_series(i);
    lemma_plain_model(true, m);
    if i == 5 {
        reveal_strlit("mock vLLM metric.");
        reveal_strlit("counter");
        lemma_vllm_scalar_block(
            i,
            m,
            "vllm:generation_tokens_total"@,
            "mock vLLM metric."@,
            "counter"@,
            render::vllm_labels(m),
            s.generation_tokens_total@,
        );
        assert(vllm_block_ok(s, 5));
    } else if i == 6 {
        reveal_strlit("mock vLLM metric.");
        reveal_strlit("counter");
        lemma_vllm_scalar_block(
            i,
            m,
            "vllm:prompt_tokens_cached_total"@,
            "mock vLLM metric."@,
            "counter"@,
            render::vllm_labels(m),
            s.prompt_tokens_cached_total@,
        );
        assert(vllm_block_ok(s, 6));
    } else if i == 7 {
        reveal_strlit("mock vLLM metric.");
        reveal_strlit("counter");
        lemma_vllm_scalar_block(
            i,
            m,
            "vllm:num_preemptions_total"@,
            "mock vLLM metric."@,
            "counter"@,
            render::vllm_labels(m),
            s.num_preemptions_total@,
        );
        assert(vllm_block_ok(s, 7));
    } else if i == 8 {
        reveal_strlit("mock vLLM metric.");
        reveal_strlit("counter");
        lemma_vllm_scalar_block(
            i,
            m,
            "vllm:prefix_cache_hits_total"@,
            "mock vLLM metric."@,
            "counter"@,
            render::vllm_labels(m),
            s.prefix_cache_hits_total@,
        );
        assert(vllm_block_ok(s, 8));
    } else if i == 9 {
        reveal_strlit("mock vLLM metric.");
        reveal_strlit("counter");
        lemma_vllm_scalar_block(
            i,
            m,
            "vllm:prefix_cache_queries_total"@,
            "mock vLLM metric."@,
            "counter"@,
            render::vllm_labels(m),
            s.prefix_cache_queries_total@,
        );
        assert(vllm_block_ok(s, 9));
    } else if i == 10 {
        reveal_strlit("mock vLLM metric.");
        reveal_strlit("counter");
        lemma_vllm_scalar_block(
            i,
            m,
            "vllm:request_success_total"@,
            "mock vLLM metric."@,
            "counter"@,
            render::vllm_labels(m),
            s.request_success_total@,
        );
        assert(vllm_block_ok(s, 10));
    }
}

#[verifier::rlimit(60)]
#[verifier::spinoff_prover]
proof fn lemma_vllm_latencies(s: VllmState<String>, i: int)
    requires
        vllm_writable(s),
        11 <= i < 15,
    ensures
        vllm_block_ok(s, i),
{
    let m = s.model@;
    lemma_vllm_series(i);
    lemma_plain_model(true, m);
    if i == 11 {
        reveal_strlit("time to first token in seconds.");
        lemma_vllm_histogram_block(
            i,
            s.ttft,
            "vllm:time_to_first_token_seconds"@,
            "time to first token in seconds."@,
            m,
        );
        assert(vllm_block_ok(s, 11));
    } else if i == 12 {
        reveal_strlit("inter-token latency in seconds.");
        lemma_vllm_histogram_block(
            i,
            s.inter_token,
            "vllm:inter_token_latency_seconds"@,
            "inter-token latency in seconds."@,
            m,
        );
        assert(vllm_block_ok(s, 12));
    } else if i == 13 {
        reveal_strlit("e2e request latency in seconds.");
        lemma_vllm_histogram_block(
            i,
            s.e2e,
            "vllm:e2e_request_latency_seconds"@,
            "e2e request latency in seconds."@,
            m,
        );
        assert(vllm_block_ok(s, 13));
    } else if i == 14 {
        reveal_strlit("time spent in WAITING phase for request.");
        lemma_vllm_histogram_block(
            i,
            s.queue_time,
            "vllm:request_queue_time_seconds"@,
            "time spent in WAITING phase for request."@,
            m,
        );
        assert(vllm_block_ok(s, 14));
    }
}

#[verifier::rlimit(60)]
#[verifier::spinoff_prover]
proof fn lemma_vllm_phases(s: VllmState<String>, i: int)
    requires
        vllm_writable(s),
        15 <= i < 19,
    ensures
        vllm_block_ok(s, i),
{
    let m = s.model@;
    lemma_vllm_series(i);
    lemma_plain_model(true, m);
    if i == 15 {
        reveal_strlit("prefill tokens per request.");
        lemma_vllm_histogram_block(
            i,
            s.req_prompt_tokens,
            "vllm:request_prompt_tokens"@,
            "prefill tokens per request."@,
            m,
        );
        assert(vllm_block_ok(s, 15));
    } else if i == 16 {
        reveal_strlit("generation tokens per request.");
        lemma_vllm_histogram_block(
            i,
            s.req_gen_tokens,
            "vllm:request_generation_tokens"@,
            "generation tokens per request."@,
            m,
        );
        assert(vllm_block_ok(s, 16));
    } else if i == 17 {
        reveal_strlit("time spent in PREFILL phase for request.");
        lemma_vllm_histogram_block(
            i,
            s.prefill_time,
            "vllm:request_prefill_time_seconds"@,
            "time spent in PREFILL phase for request."@,
            m,
        );
        assert(vllm_block_ok(s, 17));
    } else if i == 18 {
        reveal_strlit("time spent in DECODE phase for request.");
        lemma_vllm_histogram_block(
            i,
            s.decode_time,
            "vllm:request_decode_time_seconds"@,
            "time spent in DECODE phase for request."@,
            m,
        );
        assert(vllm_block_ok(s, 18));
    }
}

#[verifier::rlimit(60)]
#[verifier::spinoff_prover]
proof fn lemma_vllm_infos(s: VllmState<String>, i: int)
    requires
        vllm_writable(s),
        19 <= i < 21,
    ensures
        vllm_block_ok(s, i),
{
    let m = s.model@;
    lemma_vllm_series(i);
    lemma_plain_model(true, m);
    if i == 19 {
        reveal_strlit("Information of the LLMEngine CacheConfig");
        reveal_strlit("gauge");
        reveal_strlit("1.0");
        lemma_config_labels(m);
        lemma_vllm_scalar_block(
            i,
            m,
            "vllm:cache_config_info"@,
            "Information of the LLMEngine CacheConfig"@,
            "gauge"@,
            render::config_labels(m),
            "1.0"@,
        );
        assert(vllm_block_ok(s, 19));
    } else if i == 20 {
        reveal_strlit("Engine sleep state.");
        reveal_strlit("gauge");
        reveal_strlit("1.0");
        lemma_sleep_labels(m);
        lemma_vllm_scalar_block(
            i,
            m,
            "vllm:engine_sleep_state"@,
            "Engine sleep state."@,
            "gauge"@,
            render::sleep_labels(m),
            "1.0"@,
        );
        assert(vllm_block_ok(s, 20));
    }
}

proof fn lemma_vllm_block(s: VllmState<String>, i: int)
    requires
        vllm_writable(s),
        0 <= i < 21,
    ensures
        exposition::are_lines(render::vllm_blocks(s)[i]),
        scrape::samples_in(render::vllm_blocks(s)[i]) == vllm_samples(s, i),
        vllm_marked(vllm_samples(s, i), i, s.model@),
{
    if i < 5 {
        lemma_vllm_gauges(s, i);
    } else if i < 11 {
        lemma_vllm_counters(s, i);
    } else if i < 15 {
        lemma_vllm_latencies(s, i);
    } else if i < 19 {
        lemma_vllm_phases(s, i);
    } else {
        lemma_vllm_infos(s, i);
    }
}

/// The samples of a name that carries the characters of series `j` stand in
/// block `j`.
proof fn lemma_vllm_named(s: VllmState<String>, j: int, name: Seq<char>)
    requires
        vllm_writable(s),
        0 <= j < 21,
        name.len() > 19,
        vllm_stamp(name) == vllm_code(j),
    ensures
        named(scrape::samples_in(render::flat(render::vllm_blocks(s))), name) == named(
            vllm_samples(s, j),
            name,
        ),
{
    let bs = render::vllm_blocks(s);
    let sb = block_samples(bs);
    lemma_chained(bs);
    assert forall|i: int, k: int| 0 <= i < sb.len() && i != j && 0 <= k < sb[i].len() implies (
    #[trigger] sb[i][k]).name != name by {
        lemma_vllm_block(s, i);
        lemma_vllm_codes(i, j);
        assert(vllm_marked(sb[i], i, s.model@));
    }
    lemma_only_block(sb, j, name);
    lemma_vllm_block(s, j);
}

proof fn lemma_vllm_codes(i: int, j: int)
    requires
        0 <= i < 21,
        0 <= j < 21,
        i != j,
    ensures
        vllm_code(i) != vllm_code(j),
{
}

proof fn lemma_vllm_histogram(
    s: VllmState<String>,
    j: int,
    h: HistAcc<String>,
)
    requires
        vllm_writable(s),
        0 <= j < 21,
        writable_histogram(h),
        vllm_samples(s, j) == histogram_samples(
            h,
            vllm_series(j),
            histogram::front_labels(true),
            s.model@,
        ),
    ensures
        scrape::histogram_named(
            scrape::samples_in(render::flat(render::vllm_blocks(s))),
            vllm_series(j),
        ) == histogram_readback(h),
{
    let base = vllm_series(j);
    lemma_vllm_series(j);
    lemma_vllm_named(s, j, base + "_bucket"@);
    lemma_vllm_named(s, j, base + "_count"@);
    lemma_vllm_named(s, j, base + "_sum"@);
    lemma_histogram_readback(
        scrape::samples_in(render::flat(render::vllm_blocks(s))),
        h,
        base,
        true,
        s.model@,
    );
}

proof fn lemma_vllm_scalar(s: VllmState<String>, j: int, x: SampleView)
    requires
        vllm_writable(s),
        0 <= j < 21,
        vllm_samples(s, j) == seq![x],
        x.name == vllm_series(j),
    ensures
        named(scrape::samples_in(render::flat(render::vllm_blocks(s))), x.name) == seq![x],
        scrape::values_named(
            scrape::samples_in(render::flat(render::vllm_blocks(s))),
            x.name,
        ) == seq![x.value],
        scrape::last_named(
            scrape::samples_in(render::flat(render::vllm_blocks(s))),
            x.name,
        ) == Some(x.value),
{
    lemma_vllm_series(j);
    lemma_vllm_named(s, j, x.name);
    lemma_scalar_readback(scrape::samples_in(render::flat(render::vllm_blocks(s))), x);
}

proof fn lemma_vllm_all_lines(s: VllmState<String>)
    requires
        vllm_writable(s),
    ensures
        exposition::are_lines(render::flat(render::vllm_blocks(s))),
{
    let bs = render::vllm_blocks(s);
    assert forall|i: int| 0 <= i < bs.len() implies exposition::are_lines(#[trigger] bs[i]) by {
        lemma_vllm_block(s, i);
    }
    lemma_flat_lines(bs);
}

proof fn lemma_vllm_lines(s: VllmState<String>)
    requires
        vllm_writable(s),
    ensures
        scrape::samples(render::exposition_of(render::vllm_blocks(s))) == scrape::samples_in(
            render::flat(render::vllm_blocks(s)),
        ),
{
    lemma_vllm_all_lines(s);
    exposition::law_lines_read_back(render::flat(render::vllm_blocks(s)));
}

proof fn lemma_vllm_marked(s: VllmState<String>, i: int)
    requires
        vllm_writable(s),
        0 <= i < 21,
    ensures
        vllm_marked(block_samples(render::vllm_blocks(s))[i], i, s.model@),
{
    lemma_vllm_block(s, i);
}

proof fn lemma_vllm_model(s: VllmState<String>)
    requires
        vllm_writable(s),
    ensures
        scrape::model_named(scrape::samples_in(render::flat(render::vllm_blocks(s))))
            == model_readback(s.model@),
{
    let bs = render::vllm_blocks(s);
    let sb = block_samples(bs);
    lemma_chained(bs);
    assert forall|i: int, k: int| 0 <= i < sb.len() && 0 <= k < sb[i].len() implies names_model(
        #[trigger] sb[i][k],
        s.model@,
    ) by {
        lemma_vllm_marked(s, i);
    }
    assert(scrape::model_named(sb[1]) == model_readback(s.model@)) by {
        lemma_vllm_block(s, 1);
        lemma_plain_model(true, s.model@);
        lemma_single_model(vllm_samples(s, 1)[0], s.model@);
        assert(sb[1] =~= seq![vllm_samples(s, 1)[0]]);
    }
    lemma_model_chained(sb, s.model@, 1);
}

/// What reading a vLLM exposition back gives.
pub open spec fn vllm_readback(s: VllmState<String>) -> ScrapeView {
    ScrapeView {
        reachable: true,
        error: None,
        model_name: model_readback(s.model@),
        process_start_time: Some(common::value_numeral(s.process_start_time@)),
        cache_dtype: Some("auto"@),
        block_size: Some("16"@),
        gpu_memory_utilization: Some("0.9"@),
        num_gpu_blocks: Some("1024"@),
        enable_prefix_caching: Some(false),
        engine_awake: Some(common::value_numeral("1.0"@)),
        num_requests_running: reading(s.num_requests_running@),
        num_requests_waiting: reading(s.num_requests_waiting@),
        kv_cache_usage_perc: reading(s.kv_cache_usage_perc@),
        prompt_tokens_total: reading(s.prompt_tokens_total@),
        generation_tokens_total: reading(s.generation_tokens_total@),
        prompt_tokens_cached_total: reading(s.prompt_tokens_cached_total@),
        num_preemptions_total: reading(s.num_preemptions_total@),
        prefix_cache_hits_total: reading(s.prefix_cache_hits_total@),
        prefix_cache_queries_total: reading(s.prefix_cache_queries_total@),
        request_success_total: reading(s.request_success_total@),
        ttft: histogram_readback(s.ttft),
        inter_token: histogram_readback(s.inter_token),
        e2e: histogram_readback(s.e2e),
        queue_time: histogram_readback(s.queue_time),
        req_prompt_tokens: histogram_readback(s.req_prompt_tokens),
        req_gen_tokens: histogram_readback(s.req_gen_tokens),
        prefill_time: histogram_readback(s.prefill_time),
        decode_time: histogram_readback(s.decode_time),
    }
}

/// Reading back what the mock vLLM server writes gives its state: each
/// scalar, each histogram bucket by bucket, and the model.
pub proof fn law_vllm_read_back(s: VllmState<String>)
    requires
        vllm_writable(s),
    ensures
        vllm::scrape_of(scrape::samples(render::exposition_of(render::vllm_blocks(s))))
            == vllm_readback(s),
{
    let m = s.model@;
    let ss = scrape::samples_in(render::flat(render::vllm_blocks(s)));
    let l = render::vllm_labels(m);
    lemma_vllm_lines(s);
    lemma_vllm_model(s);
    lemma_vllm_scalar(
        s,
        0,
        sample("process_start_time_seconds"@, Seq::empty(), s.process_start_time@),
    );
    lemma_vllm_scalar(s, 1, sample("vllm:num_requests_running"@, l, s.num_requests_running@));
    lemma_vllm_scalar(s, 2, sample("vllm:num_requests_waiting"@, l, s.num_requests_waiting@));
    lemma_vllm_scalar(s, 3, sample("vllm:kv_cache_usage_perc"@, l, s.kv_cache_usage_perc@));
    lemma_vllm_scalar(s, 4, sample("vllm:prompt_tokens_total"@, l, s.prompt_tokens_total@));
    lemma_vllm_scalar(s, 5, sample("vllm:generation_tokens_total"@, l, s.generation_tokens_total@));
    lemma_vllm_scalar(
        s,
        6,
        sample("vllm:prompt_tokens_cached_total"@, l, s.prompt_tokens_cached_total@),
    );
    lemma_vllm_scalar(s, 7, sample("vllm:num_preemptions_total"@, l, s.num_preemptions_total@));
    lemma_vllm_scalar(s, 8, sample("vllm:prefix_cache_hits_total"@, l, s.prefix_cache_hits_total@));
    lemma_vllm_scalar(
        s,
        9,
        sample("vllm:prefix_cache_queries_total"@, l, s.prefix_cache_queries_total@),
    );
    lemma_vllm_scalar(s, 10, sample("vllm:request_success_total"@, l, s.request_success_total@));
    lemma_vllm_histogram(s, 11, s.ttft);
    lemma_vllm_histogram(s, 12, s.inter_token);
    lemma_vllm_histogram(s, 13, s.e2e);
    lemma_vllm_histogram(s, 14, s.queue_time);
    lemma_vllm_histogram(s, 15, s.req_prompt_tokens);
    lemma_vllm_histogram(s, 16, s.req_gen_tokens);
    lemma_vllm_histogram(s, 17, s.prefill_time);
    lemma_vllm_histogram(s, 18, s.decode_time);
    lemma_vllm_scalar(s, 19, sample("vllm:cache_config_info"@, render::config_labels(m), "1.0"@));
    lemma_vllm_scalar(s, 20, sample("vllm:engine_sleep_state"@, render::sleep_labels(m), "1.0"@));
    lemma_config_labels(m);
    lemma_sleep_labels(m);
    let config = "vllm:cache_config_info"@;
    lemma_named_label(ss, config, "cache_dtype"@);
    lemma_named_label(ss, config, "block_size"@);
    lemma_named_label(ss, config, "gpu_memory_utilization"@);
    lemma_named_label(ss, config, "num_gpu_blocks"@);
    lemma_named_label(ss, config, "enable_prefix_caching"@);
    lemma_named_labelled(ss, "vllm:engine_sleep_state"@, "sleep_state"@, "awake"@);
    reveal_strlit("True");
    reveal_strlit("False");
    assert("True"@.len() != "False"@.len());
}

/// The series of the exposition, block by block.
pub open spec fn sgl_series(i: int) -> Seq<char> {
    if i == 0 {
        "process_start_time_seconds"@
    } else if i == 1 {
        "sglang:prompt_tokens_total"@
    } else if i == 2 {
        "sglang:generation_tokens_total"@
    } else if i == 3 {
        "sglang:num_running_reqs"@
    } else if i == 4 {
        "sglang:num_queue_reqs"@
    } else if i == 5 {
        "sglang:cache_hit_rate"@
    } else if i == 6 {
        "sglang:token_usage"@
    } else if i == 7 {
        "sglang:num_used_tokens"@
    } else if i == 8 {
        "sglang:gen_throughput"@
    } else if i == 9 {
        "sglang:time_to_first_token_seconds"@
    } else if i == 10 {
        "sglang:e2e_request_latency_seconds"@
    } else {
        "sglang:time_per_output_token_seconds"@
    }
}

/// Two characters that tell the series apart.
spec fn sgl_stamp(s: Seq<char>) -> (char, char) {
    (s[7], s[14])
}

spec fn sgl_code(i: int) -> (char, char) {
    if i == 0 {
        ('_', 't')
    } else if i == 1 {
        ('p', 't')
    } else if i == 2 {
        ('g', 'i')
    } else if i == 3 {
        ('n', 'n')
    } else if i == 4 {
        ('n', 'u')
    } else if i == 5 {
        ('c', 'i')
    } else if i == 6 {
        ('t', 's')
    } else if i == 7 {
        ('n', 'd')
    } else if i == 8 {
        ('g', 'o')
    } else if i == 9 {
        ('t', '_')
    } else if i == 10 {
        ('e', 'u')
    } else {
        ('t', 'r')
    }
}

proof fn lemma_sgl_series(i: int)
    requires
        0 <= i < 12,
    ensures
        sgl_series(i).len() > 14,
        sgl_stamp(sgl_series(i)) == sgl_code(i),
        exposition::is_name(sgl_series(i)),
{
    if i == 0 {
        reveal_strlit("process_start_time_seconds");
    } else if i == 1 {
        reveal_strlit("sglang:prompt_tokens_total");
    } else if i == 2 {
        reveal_strlit("sglang:generation_tokens_total");
    } else if i == 3 {
        reveal_strlit("sglang:num_running_reqs");
    } else if i == 4 {
        reveal_strlit("sglang:num_queue_reqs");
    } else if i == 5 {
        reveal_strlit("sglang:cache_hit_rate");
    } else if i == 6 {
        reveal_strlit("sglang:token_usage");
    } else if i == 7 {
        reveal_strlit("sglang:num_used_tokens");
    } else if i == 8 {
        reveal_strlit("sglang:gen_throughput");
    } else if i == 9 {
        reveal_strlit("sglang:time_to_first_token_seconds");
    } else if i == 10 {
        reveal_strlit("sglang:e2e_request_latency_seconds");
    } else if i == 11 {
        reveal_strlit("sglang:time_per_output_token_seconds");
    }
}

/// The samples of block `i`.
spec fn sgl_samples(s: SglState<String>, i: int) -> Seq<SampleView> {
    let m = s.model@;
    if i == 0 {
        seq![sample("process_start_time_seconds"@, Seq::empty(), s.process_start_time@)]
    } else if i == 1 {
        seq![sample("sglang:prompt_tokens_total"@, render::sgl_labels(m), s.prompt_tokens_total@)]
    } else if i == 2 {
        seq![
            sample(
                "sglang:generation_tokens_total"@,
                render::sgl_labels(m),
                s.generation_tokens_total@,
            ),
        ]
    } else if i == 3 {
        seq![sample("sglang:num_running_reqs"@, render::sgl_labels(m), s.num_running_reqs@)]
    } else if i == 4 {
        seq![sample("sglang:num_queue_reqs"@, render::sgl_labels(m), s.num_queue_reqs@)]
    } else if i == 5 {
        seq![sample("sglang:cache_hit_rate"@, render::sgl_labels(m), s.cache_hit_rate@)]
    } else if i == 6 {
        seq![sample("sglang:token_usage"@, render::sgl_labels(m), s.token_usage@)]
    } else if i == 7 {
        seq![sample("sglang:num_used_tokens"@, render::sgl_labels(m), s.num_used_tokens@)]
    } else if i == 8 {
        seq![sample("sglang:gen_throughput"@, render::sgl_labels(m), s.gen_throughput@)]
    } else if i == 9 {
        histogram_samples(
            s.ttft,
            "sglang:time_to_first_token_seconds"@,
            histogram::front_labels(false),
            m,
        )
    } else if i == 10 {
        histogram_samples(
            s.e2e,
            "sglang:e2e_request_latency_seconds"@,
            histogram::front_labels(false),
            m,
        )
    } else {
        histogram_samples(
            s.tpot,
            "sglang:time_per_output_token_seconds"@,
            histogram::front_labels(false),
            m,
        )
    }
}

/// The samples all carry the two characters of series `i`, and the model.
spec fn sgl_marked(ss: Seq<SampleView>, i: int, model: Seq<char>) -> bool {
    forall|k: int|
        0 <= k < ss.len() ==> (#[trigger] ss[k]).name.len() > 14 && sgl_stamp(ss[k].name)
            == sgl_code(i) && names_model(ss[k], model)
}

/// A state whose texts can stand in the exposition: the model needs no
/// escapes, and the numbers are tokens.
pub open spec fn sgl_writable(s: SglState<String>) -> bool {
    &&& exposition::is_plain(s.model@)
    &&& exposition::is_token(s.process_start_time@)
    &&& exposition::is_token(s.prompt_tokens_total@)
    &&& exposition::is_token(s.generation_tokens_total@)
    &&& exposition::is_token(s.num_running_reqs@)
    &&& exposition::is_token(s.num_queue_reqs@)
    &&& exposition::is_token(s.cache_hit_rate@)
    &&& exposition::is_token(s.token_usage@)
    &&& exposition::is_token(s.num_used_tokens@)
    &&& exposition::is_token(s.gen_throughput@)
    &&& writable_histogram(s.ttft)
    &&& writable_histogram(s.e2e)
    &&& writable_histogram(s.tpot)
}

proof fn lemma_sgl_scalar_block(
    i: int,
    model: Seq<char>,
    name: Seq<char>,
    help: Seq<char>,
    kind: Seq<char>,
    labels: Seq<(Seq<char>, Seq<char>)>,
    token: Seq<char>,
)
    requires
        name.len() > 14,
        sgl_stamp(name) == sgl_code(i),
        exposition::is_name(name),
        exposition::is_line(help),
        exposition::is_line(kind),
        exposition::writable_labels(labels),
        exposition::is_token(token),
        scrape::first_label(labels, "model_name"@) is None || scrape::first_label(
            labels,
            "model_name"@,
        ) == Some(model),
    ensures
        exposition::are_lines(render::scalar_lines(name, help, kind, labels, token)),
        scrape::samples_in(render::scalar_lines(name, help, kind, labels, token)) == seq![
            sample(name, labels, token),
        ],
        sgl_marked(seq![sample(name, labels, token)], i, model),
{
    lemma_scalar_block(name, help, kind, labels, token);
}

proof fn lemma_sgl_histogram_block(
    i: int,
    h: HistAcc<String>,
    base: Seq<char>,
    help: Seq<char>,
    model: Seq<char>,
)
    requires
        base.len() > 14,
        sgl_stamp(base) == sgl_code(i),
        writable_histogram(h),
        exposition::is_plain(model),
        exposition::is_name(base),
        exposition::is_line(help),
    ensures
        exposition::are_lines(
            histogram::histogram_lines(h, base, help, histogram::front_labels(false), model),
        ),
        scrape::samples_in(
            histogram::histogram_lines(h, base, help, histogram::front_labels(false), model),
        ) == histogram_samples(h, base, histogram::front_labels(false), model),
        sgl_marked(
            histogram_samples(h, base, histogram::front_labels(false), model),
            i,
            model,
        ),
{
    lemma_histogram_block(h, base, help, false, model);
    lemma_histogram_names(h, base, false, model);
}

#[verifier::rlimit(60)]
proof fn lemma_sgl_block(s: SglState<String>, i: int)
    requires
        sgl_writable(s),
        0 <= i < 12,
    ensures
        exposition::are_lines(render::sgl_blocks(s)[i]),
        scrape::samples_in(render::sgl_blocks(s)[i]) == sgl_samples(s, i),
        sgl_marked(sgl_samples(s, i), i, s.model@),
{
    let m = s.model@;
    let bs = render::sgl_blocks(s);
    lemma_sgl_series(i);
    lemma_plain_model(false, m);
    if i == 0 {
        let name = "process_start_time_seconds"@;
        let help = "Start time of the process since unix epoch in seconds."@;
        reveal_strlit("Start time of the process since unix epoch in seconds.");
        reveal_strlit("gauge");
        lemma_sgl_scalar_block(i, m, name, help, "gauge"@, Seq::empty(), s.process_start_time@);
    } else if i == 1 {
        reveal_strlit("mock SGLang metric.");
        reveal_strlit("counter");
        lemma_sgl_scalar_block(
            i,
            m,
            "sglang:prompt_tokens_total"@,
            "mock SGLang metric."@,
            "counter"@,
            render::sgl_labels(m),
            s.prompt_tokens_total@,
        );
    } else if i == 2 {
        reveal_strlit("mock SGLang metric.");
        reveal_strlit("counter");
        lemma_sgl_scalar_block(
            i,
            m,
            "sglang:generation_tokens_total"@,
            "mock SGLang metric."@,
            "counter"@,
            render::sgl_labels(m),
            s.generation_tokens_total@,
        );
    } else if i == 3 {
        reveal_strlit("mock SGLang metric.");
        reveal_strlit("gauge");
        lemma_sgl_scalar_block(
            i,
            m,
            "sglang:num_running_reqs"@,
            "mock SGLang metric."@,
            "gauge"@,
            render::sgl_labels(m),
            s.num_running_reqs@,
        );
    } else if i == 4 {
        reveal_strlit("mock SGLang metric.");
        reveal_strlit("gauge");
        lemma_sgl_scalar_block(
            i,
            m,
            "sglang:num_queue_reqs"@,
            "mock SGLang metric."@,
            "gauge"@,
            render::sgl_labels(m),
            s.num_queue_reqs@,
        );
    } else if i == 5 {
        reveal_strlit("mock SGLang metric.");
        reveal_strlit("gauge");
        lemma_sgl_scalar_block(
            i,
            m,
            "sglang:cache_hit_rate"@,
            "mock SGLang metric."@,
            "gauge"@,
            render::sgl_labels(m),
            s.cache_hit_rate@,
        );
    } else if i == 6 {
        reveal_strlit("mock SGLang metric.");
        reveal_strlit("gauge");
        lemma_sgl_scalar_block(
            i,
            m,
            "sglang:token_usage"@,
            "mock SGLang metric."@,
            "gauge"@,
            render::sgl_labels(m),
            s.token_usage@,
        );
    } else if i == 7 {
        reveal_strlit("mock SGLang metric.");
        reveal_strlit("gauge");
        lemma_sgl_scalar_block(
            i,
            m,
            "sglang:num_used_tokens"@,
            "mock SGLang metric."@,
            "gauge"@,
            render::sgl_labels(m),
            s.num_used_tokens@,
        );
    } else if i == 8 {
        reveal_strlit("mock SGLang metric.");
        reveal_strlit("gauge");
        lemma_sgl_scalar_block(
            i,
            m,
            "sglang:gen_throughput"@,
            "mock SGLang metric."@,
            "gauge"@,
            render::sgl_labels(m),
            s.gen_throughput@,
        );
    } else if i == 9 {
        reveal_strlit("Histogram of time to first token in seconds.");
        lemma_sgl_histogram_block(
            i,
            s.ttft,
            "sglang:time_to_first_token_seconds"@,
            "Histogram of time to first token in seconds."@,
            m,
        );
    } else if i == 10 {
        reveal_strlit("Histogram of End-to-end request latency in seconds");
        lemma_sgl_histogram_block(
            i,
            s.e2e,
            "sglang:e2e_request_latency_seconds"@,
            "Histogram of End-to-end request latency in seconds"@,
            m,
        );
    } else if i == 11 {
        reveal_strlit("Histogram of time per output token in seconds.");
        lemma_sgl_histogram_block(
            i,
            s.tpot,
            "sglang:time_per_output_token_seconds"@,
            "Histogram of time per output token in seconds."@,
            m,
        );
    }
}

/// The samples of a name that carries the characters of series `j` stand in
/// block `j`.
proof fn lemma_sgl_named(s: SglState<String>, j: int, name: Seq<char>)
    requires
        sgl_writable(s),
        0 <= j < 12,
        name.len() > 14,
        sgl_stamp(name) == sgl_code(j),
    ensures
        named(scrape::samples_in(render::flat(render::sgl_blocks(s))), name) == named(
            sgl_samples(s, j),
            name,
        ),
{
    let bs = render::sgl_blocks(s);
    let sb = block_samples(bs);
    lemma_chained(bs);
    assert forall|i: int, k: int| 0 <= i < sb.len() && i != j && 0 <= k < sb[i].len() implies (
    #[trigger] sb[i][k]).name != name by {
        lemma_sgl_block(s, i);
        lemma_sgl_codes(i, j);
        assert(sgl_marked(sb[i], i, s.model@));
    }
    lemma_only_block(sb, j, name);
    lemma_sgl_block(s, j);
}

proof fn lemma_sgl_codes(i: int, j: int)
    requires
        0 <= i < 12,
        0 <= j < 12,
        i != j,
    ensures
        sgl_code(i) != sgl_code(j),
{
}

proof fn lemma_sgl_histogram(
    s: SglState<String>,
    j: int,
    h: HistAcc<String>,
)
    requires
        sgl_writable(s),
        0 <= j < 12,
        writable_histogram(h),
        sgl_samples(s, j) == histogram_samples(
            h,
            sgl_series(j),
            histogram::front_labels(false),
            s.model@,
        ),
    ensures
        scrape::histogram_named(
            scrape::samples_in(render::flat(render::sgl_blocks(s))),
            sgl_series(j),
        ) == histogram_readback(h),
{
    let base = sgl_series(j);
    lemma_sgl_series(j);
    lemma_sgl_named(s, j, base + "_bucket"@);
    lemma_sgl_named(s, j, base + "_count"@);
    lemma_sgl_named(s, j, base + "_sum"@);
    lemma_histogram_readback(
        scrape::samples_in(render::flat(render::sgl_blocks(s))),
        h,
        base,
        false,
        s.model@,
    );
}

proof fn lemma_sgl_scalar(s: SglState<String>, j: int, x: SampleView)
    requires
        sgl_writable(s),
        0 <= j < 12,
        sgl_samples(s, j) == seq![x],
        x.name == sgl_series(j),
    ensures
        named(scrape::samples_in(render::flat(render::sgl_blocks(s))), x.name) == seq![x],
        scrape::values_named(
            scrape::samples_in(render::flat(render::sgl_blocks(s))),
            x.name,
        ) == seq![x.value],
        scrape::last_named(
            scrape::samples_in(render::flat(render::sgl_blocks(s))),
            x.name,
        ) == Some(x.value),
{
    lemma_sgl_series(j);
    lemma_sgl_named(s, j, x.name);
    lemma_scalar_readback(scrape::samples_in(render::flat(render::sgl_blocks(s))), x);
}

proof fn lemma_sgl_all_lines(s: SglState<String>)
    requires
        sgl_writable(s),
    ensures
        exposition::are_lines(render::flat(render::sgl_blocks(s))),
{
    let bs = render::sgl_blocks(s);
    assert forall|i: int| 0 <= i < bs.len() implies exposition::are_lines(#[trigger] bs[i]) by {
        lemma_sgl_block(s, i);
    }
    lemma_flat_lines(bs);
}

proof fn lemma_sgl_lines(s: SglState<String>)
    requires
        sgl_writable(s),
    ensures
        scrape::samples(render::exposition_of(render::sgl_blocks(s))) == scrape::samples_in(
            render::flat(render::sgl_blocks(s)),
        ),
{
    lemma_sgl_all_lines(s);
    exposition::law_lines_read_back(render::flat(render::sgl_blocks(s)));
}

proof fn lemma_sgl_marked(s: SglState<String>, i: int)
    requires
        sgl_writable(s),
        0 <= i < 12,
    ensures
        sgl_marked(block_samples(render::sgl_blocks(s))[i], i, s.model@),
{
    lemma_sgl_block(s, i);
}

proof fn lemma_sgl_model(s: SglState<String>)
    requires
        sgl_writable(s),
    ensures
        scrape::model_named(scrape::samples_in(render::flat(render::sgl_blocks(s))))
            == model_readback(s.model@),
{
    let bs = render::sgl_blocks(s);
    let sb = block_samples(bs);
    lemma_chained(bs);
    assert forall|i: int, k: int| 0 <= i < sb.len() && 0 <= k < sb[i].len() implies names_model(
        #[trigger] sb[i][k],
        s.model@,
    ) by {
        lemma_sgl_marked(s, i);
    }
    assert(scrape::model_named(sb[1]) == model_readback(s.model@)) by {
        lemma_sgl_block(s, 1);
        lemma_plain_model(false, s.model@);
        lemma_single_model(sgl_samples(s, 1)[0], s.model@);
        assert(sb[1] =~= seq![sgl_samples(s, 1)[0]]);
    }
    lemma_model_chained(sb, s.model@, 1);
}

/// What reading an SGLang exposition back gives.
pub open spec fn sgl_readback(s: SglState<String>) -> ScrapeView {
    ScrapeView {
        model_name: model_readback(s.model@),
        process_start_time: Some(common::value_numeral(s.process_start_time@)),
        prompt_tokens_total: reading(s.prompt_tokens_total@),
        generation_tokens_total: reading(s.generation_tokens_total@),
        num_requests_running: reading(s.num_running_reqs@),
        num_requests_waiting: reading(s.num_queue_reqs@),
        prefix_cache_hits_total: ReadingView::Value(common::value_numeral(s.cache_hit_rate@)),
        prefix_cache_queries_total: ReadingView::Value(NumeralView::Text("1"@)),
        ttft: histogram_readback(s.ttft),
        e2e: histogram_readback(s.e2e),
        inter_token: histogram_readback(s.tpot),
        ..scrape::empty_scrape(true, None)
    }
}

/// Reading back what the mock SGLang server writes gives what its state says
/// of the series that are collected.
pub proof fn law_sgl_read_back(s: SglState<String>)
    requires
        sgl_writable(s),
    ensures
        sglang::scrape_of(scrape::samples(render::exposition_of(render::sgl_blocks(s))))
            == sgl_readback(s),
{
    let l = render::sgl_labels(s.model@);
    lemma_sgl_lines(s);
    lemma_sgl_model(s);
    lemma_sgl_scalar(
        s,
        0,
        sample("process_start_time_seconds"@, Seq::empty(), s.process_start_time@),
    );
    lemma_sgl_scalar(s, 1, sample("sglang:prompt_tokens_total"@, l, s.prompt_tokens_total@));
    lemma_sgl_scalar(
        s,
        2,
        sample("sglang:generation_tokens_total"@, l, s.generation_tokens_total@),
    );
    lemma_sgl_scalar(s, 3, sample("sglang:num_running_reqs"@, l, s.num_running_reqs@));
    lemma_sgl_scalar(s, 4, sample("sglang:num_queue_reqs"@, l, s.num_queue_reqs@));
    lemma_sgl_scalar(s, 5, sample("sglang:cache_hit_rate"@, l, s.cache_hit_rate@));
    lemma_sgl_histogram(s, 9, s.ttft);
    lemma_sgl_histogram(s, 10, s.e2e);
    lemma_sgl_histogram(s, 11, s.tpot);
}

proof fn lemma_flat_front(bs: Seq<Seq<Seq<char>>>)
    requires
        bs.len() >= 2,
    ensures
        render::flat(bs).len() >= bs[0].len() + bs[1].len(),
        forall|i: int| 0 <= i < bs[0].len() ==> #[trigger] render::flat(bs)[i] == bs[0][i],
        forall|i: int|
            0 <= i < bs[1].len() ==> render::flat(bs)[bs[0].len() + i] == #[trigger] bs[1][i],
    decreases bs.len(),
{
    if bs.len() == 2 {
        let one = bs.drop_last();
        assert(one.drop_last() =~= Seq::empty());
        assert(render::flat(one.drop_last()) =~= Seq::empty());
        assert(render::flat(one) =~= bs[0]);
        assert(render::flat(bs) =~= bs[0] + bs[1]);
    } else {
        let front = bs.drop_last();
        lemma_flat_front(front);
        assert(front[0] == bs[0] && front[1] == bs[1]);
        assert forall|i: int| 0 <= i < bs[0].len() implies #[trigger] render::flat(bs)[i]
            == bs[0][i] by {
            assert(render::flat(bs)[i] == render::flat(front)[i]);
        }
        assert forall|i: int| 0 <= i < bs[1].len() implies render::flat(bs)[bs[0].len() + i]
            == #[trigger] bs[1][i] by {
            assert(render::flat(bs)[bs[0].len() + i] == render::flat(front)[bs[0].len() + i]);
            assert(front[1][i] == bs[1][i]);
        }
    }
}

/// A line that starts with another character than the prefixes decides nothing.
proof fn lemma_undecided(ls: Seq<Seq<char>>, i: int)
    requires
        0 <= i < ls.len(),
        exposition::is_line(ls[i]),
        ls[i].len() > 0,
        ls[i][0] == '#' || ls[i][0] == 'p',
    ensures
        collectors::detected_in(ls.skip(i)) == collectors::detected_in(ls.skip(i + 1)),
{
    reveal_strlit("vllm:");
    reveal_strlit("sglang:");
    let t = ls[i];
    exposition::lemma_not_trimmed(t);
    assert(ls.skip(i)[0] == t);
    assert(ls.skip(i).skip(1) =~= ls.skip(i + 1));
    if text::starts_with(t, "vllm:"@) {
        assert(t.take("vllm:"@.len() as int)[0] == t[0]);
    }
    if text::starts_with(t, "sglang:"@) {
        assert(t.take("sglang:"@.len() as int)[0] == t[0]);
    }
}

proof fn lemma_heading_start(name: Seq<char>, help: Seq<char>, kind: Seq<char>)
    ensures
        exposition::help_line(name, help).len() > 0,
        exposition::help_line(name, help)[0] == '#',
        exposition::type_line(name, kind).len() > 0,
        exposition::type_line(name, kind)[0] == '#',
{
    reveal_strlit("# HELP ");
    reveal_strlit("# TYPE ");
}

/// The first five lines of an exposition decide nothing; the sixth is the
/// sample of the second series.
proof fn lemma_first_decision(
    bs: Seq<Seq<Seq<char>>>,
    ls: Seq<Seq<char>>,
    start: Seq<char>,
    name: Seq<char>,
    help: Seq<char>,
    kind: Seq<char>,
    labels: Seq<(Seq<char>, Seq<char>)>,
    token: Seq<char>,
)
    requires
        bs.len() >= 2,
        ls == render::flat(bs),
        exposition::are_lines(ls),
        bs[0] == render::start_time_lines(start),
        bs[1] == render::scalar_lines(name, help, kind, labels, token),
    ensures
        ls.len() >= 6,
        ls[5] == exposition::sample_line(name, labels, token),
        collectors::detected_in(ls) == collectors::detected_in(ls.skip(5)),
{
    let first = "process_start_time_seconds"@;
    let words = "Start time of the process since unix epoch in seconds."@;
    reveal_strlit("process_start_time_seconds");
    lemma_flat_front(bs);
    lemma_heading_start(first, words, "gauge"@);
    lemma_heading_start(name, help, kind);
    assert(ls[0] == bs[0][0]);
    assert(ls[1] == bs[0][1]);
    assert(ls[2] == bs[0][2]);
    assert(bs[0].len() == 3);
    assert(ls[3] == bs[1][0]);
    assert(ls[4] == bs[1][1]);
    assert(ls[5] == bs[1][2]);
    assert(ls[2][0] == first[0]);
    assert(ls.skip(0) =~= ls);
    lemma_undecided(ls, 0);
    lemma_undecided(ls, 1);
    lemma_undecided(ls, 2);
    lemma_undecided(ls, 3);
    lemma_undecided(ls, 4);
}

/// A line that starts with the prefix of a backend decides.
proof fn lemma_decided(ls: Seq<Seq<char>>, i: int)
    requires
        0 <= i < ls.len(),
        exposition::is_line(ls[i]),
    ensures
        text::starts_with(ls[i], "vllm:"@) ==> collectors::detected_in(ls.skip(i))
            == BackendKind::Vllm,
        text::starts_with(ls[i], "sglang:"@) ==> collectors::detected_in(ls.skip(i))
            == BackendKind::Sgl,
{
    reveal_strlit("vllm:");
    reveal_strlit("sglang:");
    let t = ls[i];
    assert(ls.skip(i)[0] == t);
    if text::starts_with(t, "vllm:"@) {
        assert(t.take(5)[0] == t[0]);
        exposition::lemma_not_trimmed(t);
    }
    if text::starts_with(t, "sglang:"@) {
        assert(t.take(7)[0] == t[0]);
        exposition::lemma_not_trimmed(t);
    }
}

/// A sample starts with what its name starts with.
proof fn lemma_sample_prefix(
    name: Seq<char>,
    labels: Seq<(Seq<char>, Seq<char>)>,
    token: Seq<char>,
    prefix: Seq<char>,
)
    requires
        text::starts_with(name, prefix),
    ensures
        text::starts_with(exposition::sample_line(name, labels, token), prefix),
{
    let t = exposition::sample_line(name, labels, token);
    let n = prefix.len() as int;
    assert(name.take(n) == prefix);
    assert(t.take(n) =~= prefix) by {
        assert forall|i: int| 0 <= i < n implies t[i] == prefix[i] by {
            assert(name.take(n)[i] == name[i]);
        }
    }
}

/// What the first series of an exposition is named after decides.
proof fn lemma_detected(
    bs: Seq<Seq<Seq<char>>>,
    start: Seq<char>,
    name: Seq<char>,
    help: Seq<char>,
    kind: Seq<char>,
    labels: Seq<(Seq<char>, Seq<char>)>,
    token: Seq<char>,
)
    requires
        bs.len() >= 2,
        exposition::are_lines(render::flat(bs)),
        bs[0] == render::start_time_lines(start),
        bs[1] == render::scalar_lines(name, help, kind, labels, token),
    ensures
        text::starts_with(name, "vllm:"@) ==> collectors::detected(render::exposition_of(bs))
            == BackendKind::Vllm,
        text::starts_with(name, "sglang:"@) ==> collectors::detected(render::exposition_of(bs))
            == BackendKind::Sgl,
{
    let ls = render::flat(bs);
    exposition::law_lines_read_back(ls);
    lemma_first_decision(bs, ls, start, name, help, kind, labels, token);
    if text::starts_with(name, "vllm:"@) {
        lemma_sample_prefix(name, labels, token, "vllm:"@);
    }
    if text::starts_with(name, "sglang:"@) {
        lemma_sample_prefix(name, labels, token, "sglang:"@);
    }
    lemma_decided(ls, 5);
}

/// The backend of what the mock vLLM server writes is detected.
pub proof fn law_vllm_detected(s: VllmState<String>)
    requires
        vllm_writable(s),
    ensures
        collectors::detected(render::exposition_of(render::vllm_blocks(s))) == BackendKind::Vllm,
{
    let name = "vllm:num_requests_running"@;
    lemma_vllm_all_lines(s);
    lemma_detected(
        render::vllm_blocks(s),
        s.process_start_time@,
        name,
        "mock vLLM metric."@,
        "gauge"@,
        render::vllm_labels(s.model@),
        s.num_requests_running@,
    );
    reveal_strlit("vllm:num_requests_running");
    reveal_strlit("vllm:");
    assert(name.take(5) =~= "vllm:"@);
}

/// The backend of what the mock SGLang server writes is detected.
pub proof fn law_sgl_detected(s: SglState<String>)
    requires
        sgl_writable(s),
    ensures
        collectors::detected(render::exposition_of(render::sgl_blocks(s))) == BackendKind::Sgl,
{
    let name = "sglang:prompt_tokens_total"@;
    lemma_sgl_all_lines(s);
    lemma_detected(
        render::sgl_blocks(s),
        s.process_start_time@,
        name,
        "mock SGLang metric."@,
        "counter"@,
        render::sgl_labels(s.model@),
        s.prompt_tokens_total@,
    );
    reveal_strlit("sglang:prompt_tokens_total");
    reveal_strlit("sglang:");
    assert(name.take(7) =~= "sglang:"@);
}

/// The texts of numbers can stand in the exposition: no white space, quote or
/// backslash is in them, and they open no block of labels.
pub open spec fn spells_tokens<T: Spelling>(t: T) -> bool {
    forall|a: T::F, s: String| #[trigger]
        call_ensures(T::plain, (&t, a), s) ==> exposition::is_token(s@) && exposition::is_plain(s@)
}

proof fn lemma_spelled_token<T: Spelling>(t: T, zero: T::F, v: T::F, s: Seq<char>)
    requires
        spells_tokens(t),
        histogram::is_token(t, zero, v, s),
    ensures
        exposition::is_token(s),
{
    reveal_strlit("NaN");
    reveal_strlit("+Inf");
    reveal_strlit("-Inf");
    reveal_strlit(".0");
    if s != "NaN"@ && s != "+Inf"@ && s != "-Inf"@ {
        let plain = choose|plain: String| #[trigger]
            call_ensures(T::plain, (&t, v), plain) && s == histogram::with_point(plain@);
        if !plain@.contains('.') {
            lemma_within_add(plain@, ".0"@, Class::Word);
            assert(s[0] == plain@[0]);
        }
    }
}

proof fn lemma_spelled_histogram<T: Spelling>(
    t: T,
    zero: T::F,
    h: HistAcc<T::F>,
    s: HistAcc<String>,
)
    requires
        spells_tokens(t),
        histogram::spelled(t, zero, h, s),
    ensures
        writable_histogram(s),
{
    lemma_spelled_token(t, zero, h.sum, s.sum@);
}

/// What the mock vLLM server writes of any state reads back as that state, its
/// numbers as they are spelled, and as coming from vLLM. A model that would
/// need escapes is left out.
pub proof fn law_vllm_metrics_read_back<T: Spelling>(
    t: T,
    zero: T::F,
    s: VllmState<T::F>,
    x: VllmState<String>,
)
    requires
        spells_tokens(t),
        exposition::is_plain(s.model@),
        VllmState::spelled(t, zero, s, x),
    ensures
        vllm::scrape_of(scrape::samples(render::metrics_text(BackendState::Vllm(x))))
            == vllm_readback(x),
        collectors::detected(render::metrics_text(BackendState::Vllm(x))) == BackendKind::Vllm,
{
    lemma_spelled_token(t, zero, s.process_start_time, x.process_start_time@);
    lemma_spelled_token(t, zero, s.num_requests_running, x.num_requests_running@);
    lemma_spelled_token(t, zero, s.num_requests_waiting, x.num_requests_waiting@);
    lemma_spelled_token(t, zero, s.kv_cache_usage_perc, x.kv_cache_usage_perc@);
    lemma_spelled_token(t, zero, s.prompt_tokens_total, x.prompt_tokens_total@);
    lemma_spelled_token(t, zero, s.generation_tokens_total, x.generation_tokens_total@);
    lemma_spelled_token(t, zero, s.prompt_tokens_cached_total, x.prompt_tokens_cached_total@);
    lemma_spelled_token(t, zero, s.num_preemptions_total, x.num_preemptions_total@);
    lemma_spelled_token(t, zero, s.prefix_cache_hits_total, x.prefix_cache_hits_total@);
    lemma_spelled_token(t, zero, s.prefix_cache_queries_total, x.prefix_cache_queries_total@);
    lemma_spelled_token(t, zero, s.request_success_total, x.request_success_total@);
    lemma_spelled_histogram(t, zero, s.ttft, x.ttft);
    lemma_spelled_histogram(t, zero, s.inter_token, x.inter_token);
    lemma_spelled_histogram(t, zero, s.e2e, x.e2e);
    lemma_spelled_histogram(t, zero, s.queue_time, x.queue_time);
    lemma_spelled_histogram(t, zero, s.req_prompt_tokens, x.req_prompt_tokens);
    lemma_spelled_histogram(t, zero, s.req_gen_tokens, x.req_gen_tokens);
    lemma_spelled_histogram(t, zero, s.prefill_time, x.prefill_time);
    lemma_spelled_histogram(t, zero, s.decode_time, x.decode_time);
    law_vllm_read_back(x);
    law_vllm_detected(x);
}

/// What the mock SGLang server writes of any state reads back as what the
/// state says of the series that are collected, and as coming from SGLang. A
/// model that would need escapes is left out.
pub proof fn law_sgl_metrics_read_back<T: Spelling>(
    t: T,
    zero: T::F,
    s: SglState<T::F>,
    x: SglState<String>,
)
    requires
        spells_tokens(t),
        exposition::is_plain(s.model@),
        SglState::spelled(t, zero, s, x),
    ensures
        sglang::scrape_of(scrape::samples(render::metrics_text(BackendState::Sgl(x))))
            == sgl_readback(x),
        collectors::detected(render::metrics_text(BackendState::Sgl(x))) == BackendKind::Sgl,
{
    lemma_spelled_token(t, zero, s.process_start_time, x.process_start_time@);
    lemma_spelled_token(t, zero, s.prompt_tokens_total, x.prompt_tokens_total@);
    lemma_spelled_token(t, zero, s.generation_tokens_total, x.generation_tokens_total@);
    lemma_spelled_token(t, zero, s.num_running_reqs, x.num_running_reqs@);
    lemma_spelled_token(t, zero, s.num_queue_reqs, x.num_queue_reqs@);
    lemma_spelled_token(t, zero, s.cache_hit_rate, x.cache_hit_rate@);
    lemma_spelled_token(t, zero, s.token_usage, x.token_usage@);
    lemma_spelled_token(t, zero, s.num_used_tokens, x.num_used_tokens@);
    lemma_spelled_token(t, zero, s.gen_throughput, x.gen_throughput@);
    lemma_spelled_histogram(t, zero, s.ttft, x.ttft);
    lemma_spelled_histogram(t, zero, s.e2e, x.e2e);
    lemma_spelled_histogram(t, zero, s.tpot, x.tpot);
    law_sgl_read_back(x);
    law_sgl_detected(x);
}

/// The bucket without a bound counts what the histogram counts.
pub proof fn law_infinite_bucket_is_count(h: HistAcc<String>)
    requires
        h.wf(),
    ensures
        histogram_readback(h).buckets.last() == (
            NumeralView::PosInf,
            histogram_readback(h).count[0],
        ),
{
}

} // verus!
