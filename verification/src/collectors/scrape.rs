//! What one scrape of `/metrics` says, before its numbers are evaluated.

use vstd::prelude::*;

use crate::collectors::common;
use crate::collectors::common::{le_to_float, parse_line, Numeral, NumeralView, Sample, SampleView};
use crate::text;
use crate::text::{same, split_lines};

verus! {

/// A scalar as the text gives it.
pub enum Reading {
    /// The sum of the values of every sample of the series, in their order.
    Sum(Vec<Numeral>),
    /// One value that stands for itself.
    Value(Numeral),
}

pub enum ReadingView {
    Sum(Seq<NumeralView>),
    Value(NumeralView),
}

pub open spec fn numeral_views(v: Seq<Numeral>) -> Seq<NumeralView> {
    v.map_values(|n: Numeral| n@)
}

impl View for Reading {
    type V = ReadingView;

    open spec fn view(&self) -> ReadingView {
        match self {
            Reading::Sum(v) => ReadingView::Sum(numeral_views(v@)),
            Reading::Value(n) => ReadingView::Value(n@),
        }
    }
}

/// A histogram as the text gives it: addends of `count` and `sum`, and one
/// pair of upper bound and addend for each bucket line.
pub struct HistogramReading {
    pub count: Vec<Numeral>,
    pub sum: Vec<Numeral>,
    pub buckets: Vec<(Numeral, Numeral)>,
}

pub struct HistogramReadingView {
    pub count: Seq<NumeralView>,
    pub sum: Seq<NumeralView>,
    pub buckets: Seq<(NumeralView, NumeralView)>,
}

pub open spec fn bucket_views(v: Seq<(Numeral, Numeral)>) -> Seq<(NumeralView, NumeralView)> {
    v.map_values(|b: (Numeral, Numeral)| (b.0@, b.1@))
}

impl View for HistogramReading {
    type V = HistogramReadingView;

    open spec fn view(&self) -> HistogramReadingView {
        HistogramReadingView {
            count: numeral_views(self.count@),
            sum: numeral_views(self.sum@),
            buckets: bucket_views(self.buckets@),
        }
    }
}

/// Everything that one scrape says.
pub struct Scrape {
    pub reachable: bool,
    pub error: Option<String>,
    pub model_name: Option<String>,
    pub process_start_time: Option<Numeral>,
    pub cache_dtype: Option<String>,
    pub block_size: Option<String>,
    pub gpu_memory_utilization: Option<String>,
    pub num_gpu_blocks: Option<String>,
    pub enable_prefix_caching: Option<bool>,
    /// The value of the sample that tells whether the engine is awake.
    pub engine_awake: Option<Numeral>,
    pub generation_tokens_total: Reading,
    pub prompt_tokens_total: Reading,
    pub prompt_tokens_cached_total: Reading,
    pub num_preemptions_total: Reading,
    pub prefix_cache_hits_total: Reading,
    pub prefix_cache_queries_total: Reading,
    pub request_success_total: Reading,
    pub num_requests_running: Reading,
    pub num_requests_waiting: Reading,
    pub kv_cache_usage_perc: Reading,
    pub ttft: HistogramReading,
    pub inter_token: HistogramReading,
    pub e2e: HistogramReading,
    pub queue_time: HistogramReading,
    pub req_prompt_tokens: HistogramReading,
    pub req_gen_tokens: HistogramReading,
    pub prefill_time: HistogramReading,
    pub decode_time: HistogramReading,
}

#[verifier::ext_equal]
pub struct ScrapeView {
    pub reachable: bool,
    pub error: Option<Seq<char>>,
    pub model_name: Option<Seq<char>>,
    pub process_start_time: Option<NumeralView>,
    pub cache_dtype: Option<Seq<char>>,
    pub block_size: Option<Seq<char>>,
    pub gpu_memory_utilization: Option<Seq<char>>,
    pub num_gpu_blocks: Option<Seq<char>>,
    pub enable_prefix_caching: Option<bool>,
    pub engine_awake: Option<NumeralView>,
    pub generation_tokens_total: ReadingView,
    pub prompt_tokens_total: ReadingView,
    pub prompt_tokens_cached_total: ReadingView,
    pub num_preemptions_total: ReadingView,
    pub prefix_cache_hits_total: ReadingView,
    pub prefix_cache_queries_total: ReadingView,
    pub request_success_total: ReadingView,
    pub num_requests_running: ReadingView,
    pub num_requests_waiting: ReadingView,
    pub kv_cache_usage_perc: ReadingView,
    pub ttft: HistogramReadingView,
    pub inter_token: HistogramReadingView,
    pub e2e: HistogramReadingView,
    pub queue_time: HistogramReadingView,
    pub req_prompt_tokens: HistogramReadingView,
    pub req_gen_tokens: HistogramReadingView,
    pub prefill_time: HistogramReadingView,
    pub decode_time: HistogramReadingView,
}

pub open spec fn text_view(t: Option<String>) -> Option<Seq<char>> {
    match t {
        Some(s) => Some(s@),
        None => None,
    }
}

pub open spec fn numeral_view(n: Option<Numeral>) -> Option<NumeralView> {
    match n {
        Some(v) => Some(v@),
        None => None,
    }
}

impl View for Scrape {
    type V = ScrapeView;

    open spec fn view(&self) -> ScrapeView {
        ScrapeView {
            reachable: self.reachable,
            error: text_view(self.error),
            model_name: text_view(self.model_name),
            process_start_time: numeral_view(self.process_start_time),
            cache_dtype: text_view(self.cache_dtype),
            block_size: text_view(self.block_size),
            gpu_memory_utilization: text_view(self.gpu_memory_utilization),
            num_gpu_blocks: text_view(self.num_gpu_blocks),
            enable_prefix_caching: self.enable_prefix_caching,
            engine_awake: numeral_view(self.engine_awake),
            generation_tokens_total: self.generation_tokens_total@,
            prompt_tokens_total: self.prompt_tokens_total@,
            prompt_tokens_cached_total: self.prompt_tokens_cached_total@,
            num_preemptions_total: self.num_preemptions_total@,
            prefix_cache_hits_total: self.prefix_cache_hits_total@,
            prefix_cache_queries_total: self.prefix_cache_queries_total@,
            request_success_total: self.request_success_total@,
            num_requests_running: self.num_requests_running@,
            num_requests_waiting: self.num_requests_waiting@,
            kv_cache_usage_perc: self.kv_cache_usage_perc@,
            ttft: self.ttft@,
            inter_token: self.inter_token@,
            e2e: self.e2e@,
            queue_time: self.queue_time@,
            req_prompt_tokens: self.req_prompt_tokens@,
            req_gen_tokens: self.req_gen_tokens@,
            prefill_time: self.prefill_time@,
            decode_time: self.decode_time@,
        }
    }
}

/// A scalar of which no sample was seen.
pub open spec fn nothing_summed() -> ReadingView {
    ReadingView::Sum(Seq::empty())
}

/// A histogram of which no sample was seen.
pub open spec fn empty_histogram() -> HistogramReadingView {
    HistogramReadingView { count: Seq::empty(), sum: Seq::empty(), buckets: Seq::empty() }
}

/// A scrape in which nothing was seen.
pub open spec fn empty_scrape(reachable: bool, error: Option<Seq<char>>) -> ScrapeView {
    ScrapeView {
        reachable,
        error,
        model_name: None,
        process_start_time: None,
        cache_dtype: None,
        block_size: None,
        gpu_memory_utilization: None,
        num_gpu_blocks: None,
        enable_prefix_caching: None,
        engine_awake: None,
        generation_tokens_total: nothing_summed(),
        prompt_tokens_total: nothing_summed(),
        prompt_tokens_cached_total: nothing_summed(),
        num_preemptions_total: nothing_summed(),
        prefix_cache_hits_total: nothing_summed(),
        prefix_cache_queries_total: nothing_summed(),
        request_success_total: nothing_summed(),
        num_requests_running: nothing_summed(),
        num_requests_waiting: nothing_summed(),
        kv_cache_usage_perc: nothing_summed(),
        ttft: empty_histogram(),
        inter_token: empty_histogram(),
        e2e: empty_histogram(),
        queue_time: empty_histogram(),
        req_prompt_tokens: empty_histogram(),
        req_gen_tokens: empty_histogram(),
        prefill_time: empty_histogram(),
        decode_time: empty_histogram(),
    }
}

/// The samples that the lines hold, in order.
pub open spec fn samples_in(ls: Seq<Seq<char>>) -> Seq<SampleView>
    decreases ls.len(),
{
    if ls.len() == 0 {
        Seq::empty()
    } else {
        match common::sample_of(ls.last()) {
            Some(s) => samples_in(ls.drop_last()).push(s),
            None => samples_in(ls.drop_last()),
        }
    }
}

/// The samples of an exposition text, in order.
pub open spec fn samples(text: Seq<char>) -> Seq<SampleView> {
    samples_in(text::lines(text))
}

/// The values of the samples with the given name, in order.
pub open spec fn values_named(ss: Seq<SampleView>, name: Seq<char>) -> Seq<NumeralView>
    decreases ss.len(),
{
    if ss.len() == 0 {
        Seq::empty()
    } else {
        let before = values_named(ss.drop_last(), name);
        if ss.last().name == name {
            before.push(ss.last().value)
        } else {
            before
        }
    }
}

/// The value of the last sample with the given name.
pub open spec fn last_named(ss: Seq<SampleView>, name: Seq<char>) -> Option<NumeralView>
    decreases ss.len(),
{
    if ss.len() == 0 {
        None
    } else if ss.last().name == name {
        Some(ss.last().value)
    } else {
        last_named(ss.drop_last(), name)
    }
}

/// The value of the first label with the given key.
pub open spec fn first_label(
    labels: Seq<(Seq<char>, Seq<char>)>,
    key: Seq<char>,
) -> Option<Seq<char>>
    decreases labels.len(),
{
    if labels.len() == 0 {
        None
    } else if labels[0].0 == key {
        Some(labels[0].1)
    } else {
        first_label(labels.skip(1), key)
    }
}

/// The value of the last label with the given key.
pub open spec fn last_label(
    labels: Seq<(Seq<char>, Seq<char>)>,
    key: Seq<char>,
) -> Option<Seq<char>>
    decreases labels.len(),
{
    if labels.len() == 0 {
        None
    } else if labels.last().0 == key {
        Some(labels.last().1)
    } else {
        last_label(labels.drop_last(), key)
    }
}

/// The value of the last label with the given key on the samples with the
/// given name.
pub open spec fn last_label_named(
    ss: Seq<SampleView>,
    name: Seq<char>,
    key: Seq<char>,
) -> Option<Seq<char>>
    decreases ss.len(),
{
    if ss.len() == 0 {
        None
    } else if ss.last().name == name && last_label(ss.last().labels, key) is Some {
        last_label(ss.last().labels, key)
    } else {
        last_label_named(ss.drop_last(), name, key)
    }
}

/// The model that a sample's labels name; an empty name does not count.
pub open spec fn model_label(s: SampleView) -> Option<Seq<char>> {
    match first_label(s.labels, "model_name"@) {
        Some(m) => if m.len() == 0 {
            None
        } else {
            Some(m)
        },
        None => None,
    }
}

/// The model that the first sample to name one names.
pub open spec fn model_named(ss: Seq<SampleView>) -> Option<Seq<char>>
    decreases ss.len(),
{
    if ss.len() == 0 {
        None
    } else if model_named(ss.drop_last()) is Some {
        model_named(ss.drop_last())
    } else {
        model_label(ss.last())
    }
}

/// One of the labels is exactly `key` with `value`.
pub open spec fn has_label(
    labels: Seq<(Seq<char>, Seq<char>)>,
    key: Seq<char>,
    value: Seq<char>,
) -> bool {
    exists|i: int| 0 <= i < labels.len() && #[trigger] labels[i] == (key, value)
}

/// The value of the last sample with the given name and label.
pub open spec fn last_labelled(
    ss: Seq<SampleView>,
    name: Seq<char>,
    key: Seq<char>,
    value: Seq<char>,
) -> Option<NumeralView>
    decreases ss.len(),
{
    if ss.len() == 0 {
        None
    } else if ss.last().name == name && has_label(ss.last().labels, key, value) {
        Some(ss.last().value)
    } else {
        last_labelled(ss.drop_last(), name, key, value)
    }
}

/// The upper bound of a bucket sample; without an `le` label it is infinite.
pub open spec fn bucket_bound(s: SampleView) -> NumeralView {
    match first_label(s.labels, "le"@) {
        Some(le) => common::bound_numeral(le),
        None => NumeralView::PosInf,
    }
}

/// Bound and value of the samples with the given name, in order.
pub open spec fn buckets_named(ss: Seq<SampleView>, name: Seq<char>) -> Seq<
    (NumeralView, NumeralView),
>
    decreases ss.len(),
{
    if ss.len() == 0 {
        Seq::empty()
    } else {
        let before = buckets_named(ss.drop_last(), name);
        if ss.last().name == name {
            before.push((bucket_bound(ss.last()), ss.last().value))
        } else {
            before
        }
    }
}

/// The histogram whose series carry the given base name.
pub open spec fn histogram_named(ss: Seq<SampleView>, base: Seq<char>) -> HistogramReadingView {
    HistogramReadingView {
        count: values_named(ss, base + "_count"@),
        sum: values_named(ss, base + "_sum"@),
        buckets: buckets_named(ss, base + "_bucket"@),
    }
}

pub open spec fn sum_named(ss: Seq<SampleView>, name: Seq<char>) -> ReadingView {
    ReadingView::Sum(values_named(ss, name))
}

pub open spec fn sample_views(v: Seq<Sample>) -> Seq<SampleView> {
    v.map_values(|s: Sample| s@)
}

/// Every sample of an exposition text.
pub fn parse_samples(text: &str) -> (r: Vec<Sample>)
    ensures
        sample_views(r@) == samples(text@),
{
    let ls = split_lines(text);
    let mut r: Vec<Sample> = Vec::new();
    assert(sample_views(r@) =~= samples_in(text::views(ls@).take(0)));
    for i in 0..ls.len()
        invariant
            sample_views(r@) == samples_in(text::views(ls@).take(i as int)),
    {
        let ghost before = r@;
        proof {
            let now = text::views(ls@).take(i + 1);
            assert(now.drop_last() =~= text::views(ls@).take(i as int));
            assert(now.last() == ls@[i as int]@);
        }
        match parse_line(ls[i].as_str()) {
            Some(s) => {
                r.push(s);
                assert(sample_views(r@) =~= sample_views(before).push(s@));
            },
            None => {},
        }
    }
    assert(text::views(ls@).take(ls@.len() as int) =~= text::views(ls@));
    r
}

/// The values of the samples with the given name.
pub fn collect_values(ss: &Vec<Sample>, name: &str) -> (r: Vec<Numeral>)
    ensures
        numeral_views(r@) == values_named(sample_views(ss@), name@),
{
    let mut r: Vec<Numeral> = Vec::new();
    assert(numeral_views(r@) =~= values_named(sample_views(ss@).take(0), name@));
    for i in 0..ss.len()
        invariant
            numeral_views(r@) == values_named(sample_views(ss@).take(i as int), name@),
    {
        let ghost before = r@;
        proof {
            let now = sample_views(ss@).take(i + 1);
            assert(now.drop_last() =~= sample_views(ss@).take(i as int));
            assert(now.last() == ss@[i as int]@);
        }
        if same(ss[i].name.as_str(), name) {
            let v = ss[i].value.copied();
            r.push(v);
            assert(numeral_views(r@) =~= numeral_views(before).push(v@));
        }
    }
    assert(sample_views(ss@).take(ss@.len() as int) =~= sample_views(ss@));
    r
}

/// The value of the last sample with the given name.
pub fn find_last(ss: &Vec<Sample>, name: &str) -> (r: Option<Numeral>)
    ensures
        numeral_view(r) == last_named(sample_views(ss@), name@),
{
    let mut r: Option<Numeral> = None;
    for i in 0..ss.len()
        invariant
            numeral_view(r) == last_named(sample_views(ss@).take(i as int), name@),
    {
        proof {
            let now = sample_views(ss@).take(i + 1);
            assert(now.drop_last() =~= sample_views(ss@).take(i as int));
            assert(now.last() == ss@[i as int]@);
        }
        if same(ss[i].name.as_str(), name) {
            r = Some(ss[i].value.copied());
        }
    }
    assert(sample_views(ss@).take(ss@.len() as int) =~= sample_views(ss@));
    r
}

fn find_first_label(labels: &Vec<(String, String)>, key: &str) -> (r: Option<String>)
    ensures
        text_view(r) == first_label(common::label_views(labels@), key@),
{
    let ghost all = common::label_views(labels@);
    assert(all.skip(0) =~= all);
    for i in 0..labels.len()
        invariant
            all == common::label_views(labels@),
            first_label(all.skip(i as int), key@) == first_label(all, key@),
    {
        assert(all.skip(i as int)[0] == (labels@[i as int].0@, labels@[i as int].1@));
        assert(all.skip(i as int).skip(1) =~= all.skip(i + 1));
        if same(labels[i].0.as_str(), key) {
            return Some(labels[i].1.clone());
        }
    }
    None
}

fn find_last_label(labels: &Vec<(String, String)>, key: &str) -> (r: Option<String>)
    ensures
        text_view(r) == last_label(common::label_views(labels@), key@),
{
    let ghost all = common::label_views(labels@);
    let mut r: Option<String> = None;
    for i in 0..labels.len()
        invariant
            all == common::label_views(labels@),
            text_view(r) == last_label(all.take(i as int), key@),
    {
        assert(all.take(i + 1).drop_last() =~= all.take(i as int));
        assert(all.take(i + 1).last() == (labels@[i as int].0@, labels@[i as int].1@));
        if same(labels[i].0.as_str(), key) {
            r = Some(labels[i].1.clone());
        }
    }
    assert(all.take(labels@.len() as int) =~= all);
    r
}

/// The value of the last label with the given key on samples so named.
pub fn find_config(ss: &Vec<Sample>, name: &str, key: &str) -> (r: Option<String>)
    ensures
        text_view(r) == last_label_named(sample_views(ss@), name@, key@),
{
    let mut r: Option<String> = None;
    for i in 0..ss.len()
        invariant
            text_view(r) == last_label_named(sample_views(ss@).take(i as int), name@, key@),
    {
        proof {
            let now = sample_views(ss@).take(i + 1);
            assert(now.drop_last() =~= sample_views(ss@).take(i as int));
            assert(now.last() == ss@[i as int]@);
        }
        if same(ss[i].name.as_str(), name) {
            match find_last_label(&ss[i].labels, key) {
                Some(v) => {
                    r = Some(v);
                },
                None => {},
            }
        }
    }
    assert(sample_views(ss@).take(ss@.len() as int) =~= sample_views(ss@));
    r
}

/// The model that the first sample to name one names.
pub fn find_model(ss: &Vec<Sample>) -> (r: Option<String>)
    ensures
        text_view(r) == model_named(sample_views(ss@)),
{
    let mut r: Option<String> = None;
    for i in 0..ss.len()
        invariant
            text_view(r) == model_named(sample_views(ss@).take(i as int)),
    {
        proof {
            let now = sample_views(ss@).take(i + 1);
            assert(now.drop_last() =~= sample_views(ss@).take(i as int));
            assert(now.last() == ss@[i as int]@);
        }
        if r.is_none() {
            match find_first_label(&ss[i].labels, "model_name") {
                Some(m) => if !m.as_str().is_empty() {
                    r = Some(m);
                },
                None => {},
            }
        }
    }
    assert(sample_views(ss@).take(ss@.len() as int) =~= sample_views(ss@));
    r
}

fn carries_label(labels: &Vec<(String, String)>, key: &str, value: &str) -> (r: bool)
    ensures
        r == has_label(common::label_views(labels@), key@, value@),
{
    let ghost all = common::label_views(labels@);
    for i in 0..labels.len()
        invariant
            all == common::label_views(labels@),
            forall|j: int| 0 <= j < i ==> #[trigger] all[j] != (key@, value@),
    {
        assert(all[i as int] == (labels@[i as int].0@, labels@[i as int].1@));
        if same(labels[i].0.as_str(), key) && same(labels[i].1.as_str(), value) {
            return true;
        }
    }
    false
}

/// The value of the last sample with the given name and label.
pub fn find_labelled(ss: &Vec<Sample>, name: &str, key: &str, value: &str) -> (r: Option<Numeral>)
    ensures
        numeral_view(r) == last_labelled(sample_views(ss@), name@, key@, value@),
{
    let mut r: Option<Numeral> = None;
    for i in 0..ss.len()
        invariant
            numeral_view(r) == last_labelled(
                sample_views(ss@).take(i as int),
                name@,
                key@,
                value@,
            ),
    {
        proof {
            let now = sample_views(ss@).take(i + 1);
            assert(now.drop_last() =~= sample_views(ss@).take(i as int));
            assert(now.last() == ss@[i as int]@);
        }
        if same(ss[i].name.as_str(), name) && carries_label(&ss[i].labels, key, value) {
            r = Some(ss[i].value.copied());
        }
    }
    assert(sample_views(ss@).take(ss@.len() as int) =~= sample_views(ss@));
    r
}

fn bound_of(s: &Sample) -> (r: Numeral)
    ensures
        r@ == bucket_bound(s@),
{
    match find_first_label(&s.labels, "le") {
        Some(le) => le_to_float(le.as_str()),
        None => Numeral::PosInf,
    }
}

/// Bound and value of the samples with the given name.
pub fn collect_buckets(ss: &Vec<Sample>, name: &str) -> (r: Vec<(Numeral, Numeral)>)
    ensures
        bucket_views(r@) == buckets_named(sample_views(ss@), name@),
{
    let mut r: Vec<(Numeral, Numeral)> = Vec::new();
    assert(bucket_views(r@) =~= buckets_named(sample_views(ss@).take(0), name@));
    for i in 0..ss.len()
        invariant
            bucket_views(r@) == buckets_named(sample_views(ss@).take(i as int), name@),
    {
        let ghost before = r@;
        proof {
            let now = sample_views(ss@).take(i + 1);
            assert(now.drop_last() =~= sample_views(ss@).take(i as int));
            assert(now.last() == ss@[i as int]@);
        }
        if same(ss[i].name.as_str(), name) {
            let b = (bound_of(&ss[i]), ss[i].value.copied());
            r.push(b);
            assert(bucket_views(r@) =~= bucket_views(before).push((b.0@, b.1@)));
        }
    }
    assert(sample_views(ss@).take(ss@.len() as int) =~= sample_views(ss@));
    r
}

pub fn collect_sum(ss: &Vec<Sample>, name: &str) -> (r: Reading)
    ensures
        r@ == sum_named(sample_views(ss@), name@),
{
    Reading::Sum(collect_values(ss, name))
}

/// The histogram whose series carry the given base name.
pub fn collect_histogram(ss: &Vec<Sample>, base: &str) -> (r: HistogramReading)
    ensures
        r@ == histogram_named(sample_views(ss@), base@),
{
    let count_name = base.to_owned().concat("_count");
    let sum_name = base.to_owned().concat("_sum");
    let bucket_name = base.to_owned().concat("_bucket");
    HistogramReading {
        count: collect_values(ss, count_name.as_str()),
        sum: collect_values(ss, sum_name.as_str()),
        buckets: collect_buckets(ss, bucket_name.as_str()),
    }
}

pub fn no_samples() -> (r: Reading)
    ensures
        r@ == nothing_summed(),
{
    let none: Vec<Numeral> = Vec::new();
    assert(numeral_views(none@) =~= Seq::empty());
    Reading::Sum(none)
}

pub fn no_histogram() -> (r: HistogramReading)
    ensures
        r@ == empty_histogram(),
{
    let r = HistogramReading { count: Vec::new(), sum: Vec::new(), buckets: Vec::new() };
    assert(numeral_views(r.count@) =~= Seq::empty());
    assert(numeral_views(r.sum@) =~= Seq::empty());
    assert(bucket_views(r.buckets@) =~= Seq::empty());
    r
}

impl Scrape {
    /// A scrape in which nothing was seen.
    pub fn empty(reachable: bool, error: Option<String>) -> (r: Scrape)
        ensures
            r@ == empty_scrape(reachable, text_view(error)),
    {
        Scrape {
            reachable,
            error,
            model_name: None,
            process_start_time: None,
            cache_dtype: None,
            block_size: None,
            gpu_memory_utilization: None,
            num_gpu_blocks: None,
            enable_prefix_caching: None,
            engine_awake: None,
            generation_tokens_total: no_samples(),
            prompt_tokens_total: no_samples(),
            prompt_tokens_cached_total: no_samples(),
            num_preemptions_total: no_samples(),
            prefix_cache_hits_total: no_samples(),
            prefix_cache_queries_total: no_samples(),
            request_success_total: no_samples(),
            num_requests_running: no_samples(),
            num_requests_waiting: no_samples(),
            kv_cache_usage_perc: no_samples(),
            ttft: no_histogram(),
            inter_token: no_histogram(),
            e2e: no_histogram(),
            queue_time: no_histogram(),
            req_prompt_tokens: no_histogram(),
            req_gen_tokens: no_histogram(),
            prefill_time: no_histogram(),
            decode_time: no_histogram(),
        }
    }
}

} // verus!
