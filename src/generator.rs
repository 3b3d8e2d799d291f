//! Traces, segments and spans: the records of one generation run, with the
//! remote-parent links that chain the segments of a trace.
use vstd::prelude::*;

use crate::config::{Config, MAX_PROJECTS};
use crate::ids::{SpanId, TraceId};
use crate::random::{coin_flip, pick_one, random_below};
use crate::tags::{draw_tags, is_tags_from, SentryTags, TagPools};
use crate::tree::{
    arrange_span_refs, build_span_tree, is_arranged, is_span_tree, lemma_arranged_is_permutation,
    lemma_arranged_tree,
    SpanRef,
};

verus! {

/// Nanoseconds in one millisecond.
pub const NANOS_PER_MS: i128 = 1_000_000;

/// Nanoseconds in one hour: the window in which a span ends.
pub const HOUR_NS: i128 = 3_600_000_000_000;

/// The longest span, exclusive, in milliseconds.
pub const MAX_DURATION_MS: u32 = 2000;

/// The bound on clock readings in nanoseconds since the epoch that the time
/// library can hold (its dates span at most a million years either way).
pub const MAX_TIME_NS: i128 = 100_000_000_000_000_000_000_000;

/// The platform of every span record.
pub const SPAN_PLATFORM: &'static str = "other";

/// How long every span is retained, in days.
pub const RETENTION_DAYS: u16 = 30;

/// Counts of what a run generated.
#[derive(Debug, Clone, Copy)]
pub struct Stats {
    pub spans: usize,
    pub segments: usize,
    pub traces: usize,
}

/// A trace: its id and the organization it belongs to.
#[derive(Debug, Clone, Copy)]
pub struct TraceInfo {
    pub trace_id: TraceId,
    pub organization_id: u64,
}

impl TraceInfo {
    /// A trace of the organization with a fresh random id.
    pub fn new(organization_id: u64) -> (r: Self)
        ensures
            r.organization_id == organization_id,
            r.trace_id@.len() == 16,
    {
        TraceInfo { trace_id: TraceId::generate(), organization_id }
    }
}

/// A segment of a trace: its project, the id of its root span, and the tags
/// that all its spans share.
#[derive(Debug, Clone)]
pub struct SegmentInfo {
    pub trace: TraceInfo,
    pub project_id: u64,
    pub span_id: SpanId,
    pub sentry_tags: SentryTags,
}

impl SegmentInfo {
    /// A segment of the trace with a fresh random root span id.
    pub fn new(trace: TraceInfo, project_id: u64, sentry_tags: SentryTags) -> (r: Self)
        ensures
            r.trace == trace,
            r.project_id == project_id,
            r.sentry_tags == sentry_tags,
            r.span_id@.len() == 8,
    {
        SegmentInfo { trace, project_id, span_id: SpanId::generate(), sentry_tags }
    }
}

/// The records of one segment, with the segment they belong to.
#[derive(Debug)]
pub struct SegmentBatch {
    pub segment: SegmentInfo,
    pub spans: Vec<Span>,
}

/// One output record. Times are nanoseconds since the Unix epoch.
#[derive(Debug, Clone)]
pub struct Span {
    pub trace_id: TraceId,
    pub span_id: SpanId,
    pub parent_span_id: Option<SpanId>,
    /// The segment's root span id; none for the root span itself.
    pub segment_id: Option<SpanId>,
    pub is_remote: bool,
    pub organization_id: u64,
    pub project_id: u64,
    pub description: String,
    pub origin: String,
    pub received_ns: i128,
    pub start_timestamp_ns: i128,
    pub end_timestamp_ns: i128,
    pub start_timestamp_ms: i128,
    pub duration_ms: u32,
    pub platform: &'static str,
    pub retention_days: u16,
}

/// The timestamps of a record agree: it starts its duration before it ends,
/// the start in milliseconds is the start rounded down, and it ends within the
/// hour before it was received.
pub open spec fn has_consistent_times(r: Span) -> bool {
    &&& r.start_timestamp_ns == r.end_timestamp_ns - r.duration_ms * NANOS_PER_MS
    &&& r.start_timestamp_ms == r.start_timestamp_ns / NANOS_PER_MS
    &&& r.received_ns - HOUR_NS <= r.end_timestamp_ns <= r.received_ns
}

/// `r` is the record of node `sr` of segment `seg`, before any remote link.
pub open spec fn is_record_of(r: Span, seg: SegmentInfo, sr: SpanRef) -> bool {
    &&& r.trace_id == seg.trace.trace_id
    &&& r.span_id == sr.span_id
    &&& r.segment_id == (if sr.parent_id is None { None } else { Some(seg.span_id) })
    &&& r.organization_id == seg.trace.organization_id
    &&& r.project_id == seg.project_id
    &&& r.platform == SPAN_PLATFORM
    &&& r.retention_days == RETENTION_DAYS
    &&& has_consistent_times(r)
}

/// `r` is the record of node `sr` of segment `seg` as emitted: the segment's
/// root takes the remote parent `remote` and is remote exactly when there is
/// one; every other node keeps its own parent and is not remote.
pub open spec fn is_linked_record_of(r: Span, seg: SegmentInfo, sr: SpanRef, remote: Option<SpanId>) -> bool {
    &&& is_record_of(r, seg, sr)
    &&& if sr.parent_id is None {
        r.parent_span_id == remote && r.is_remote == remote is Some
    } else {
        r.parent_span_id == sr.parent_id && !r.is_remote
    }
}

/// `remote` is no link, or the id of one of the spans `refs`.
pub open spec fn is_link_into(remote: Option<SpanId>, refs: Seq<SpanRef>) -> bool {
    remote matches Some(id) ==> exists|i: int| 0 <= i < refs.len() && refs[i].span_id == id
}

/// `remote` is no link, or the span id of one of the records `spans`.
pub open spec fn is_link_into_spans(remote: Option<SpanId>, spans: Seq<Span>) -> bool {
    remote matches Some(id) ==> exists|i: int| 0 <= i < spans.len() && spans[i].span_id == id
}

/// A record with consistent times starts no later than it ends, and the two
/// lie exactly its duration apart.
pub proof fn lemma_record_times(r: Span)
    requires
        has_consistent_times(r),
    ensures
        r.start_timestamp_ns <= r.end_timestamp_ns,
        r.end_timestamp_ns - r.start_timestamp_ns == r.duration_ms * NANOS_PER_MS,
{
}

/// The root record of a segment, linked to what the previous segment of the
/// trace handed on, either has no parent and is not remote, or has a span of
/// the previous segment as its parent and is remote; never both.
pub proof fn lemma_segment_root_link(
    prev: Seq<Span>,
    remote: Option<SpanId>,
    seg: SegmentInfo,
    root: SpanRef,
    r: Span,
)
    requires
        is_link_into_spans(remote, prev),
        root.parent_id is None,
        is_linked_record_of(r, seg, root, remote),
    ensures
        (r.parent_span_id is None && !r.is_remote) != (r.is_remote && is_link_into_spans(r.parent_span_id, prev)
            && r.parent_span_id is Some),
{
}

/// What a trace in progress holds: the trace, the segments still to emit, and
/// the remote parent that the next segment's root takes.
pub struct TraceRunState {
    pub trace: TraceInfo,
    pub segments_left: usize,
    pub remote_parent: Option<SpanId>,
}

/// A trace in progress, emitted one segment at a time.
pub struct TraceRun {
    trace: TraceInfo,
    segments_left: usize,
    remote_parent: Option<SpanId>,
}

impl View for TraceRun {
    type V = TraceRunState;

    closed spec fn view(&self) -> TraceRunState {
        TraceRunState {
            trace: self.trace,
            segments_left: self.segments_left,
            remote_parent: self.remote_parent,
        }
    }
}

impl TraceRun {
    pub fn trace(&self) -> (r: TraceInfo)
        ensures
            r == self@.trace,
    {
        self.trace
    }

    /// Whether every segment of the trace has been emitted.
    pub fn is_done(&self) -> (r: bool)
        ensures
            r == (self@.segments_left == 0),
    {
        self.segments_left == 0
    }
}

/// A drawn count, made at least one.
pub open spec fn at_least_one(n: usize) -> usize {
    if n < 1 { 1 } else { n }
}

/// `refs` is a span tree rooted at `root`, no deeper than the settings allow,
/// written in the order they ask for.
pub open spec fn is_tree_in_order(refs: Seq<SpanRef>, root: SpanId, config: Config) -> bool {
    exists|nodes: Seq<SpanRef>, parents: Seq<usize>|
        {
            &&& is_span_tree(nodes, parents, root, config.tree_depth as nat)
            &&& is_arranged(config.order, nodes, refs)
        }
}

/// The span tree of a segment, in whatever order it is written, holds the
/// segment's root span, which is the only span without a parent, and every
/// parent id names one of its spans.
pub proof fn lemma_tree_in_order_has_single_root(refs: Seq<SpanRef>, root: SpanId, config: Config)
    requires
        is_tree_in_order(refs, root, config),
    ensures
        exists|i: int| 0 <= i < refs.len() && refs[i].span_id == root && refs[i].parent_id is None,
        forall|i: int| 0 <= i < refs.len() && (#[trigger] refs[i]).parent_id is None ==> refs[i].span_id == root,
        forall|i: int| 0 <= i < refs.len() && (#[trigger] refs[i]).parent_id is Some ==> exists|j: int|
            0 <= j < refs.len() && Some(refs[j].span_id) == refs[i].parent_id,
{
    let (nodes, parents) = choose|nodes: Seq<SpanRef>, parents: Seq<usize>|
        {
            &&& is_span_tree(nodes, parents, root, config.tree_depth as nat)
            &&& is_arranged(config.order, nodes, refs)
        };
    lemma_arranged_tree(config.order, nodes, parents, root, config.tree_depth as nat, refs);
    let i = choose|i: int| 0 <= i < refs.len() && refs[i] == nodes[0];
    assert(refs[i].span_id == root && refs[i].parent_id is None);
}

/// `spans` are the records of segment `seg` of `trace`, one for each node of
/// its span tree `refs` in turn, the root linked to `remote`.
pub open spec fn is_segment_emission(
    spans: Seq<Span>,
    seg: SegmentInfo,
    refs: Seq<SpanRef>,
    trace: TraceInfo,
    config: Config,
    remote: Option<SpanId>,
) -> bool {
    &&& seg.trace == trace
    &&& refs.len() == spans.len()
    &&& is_tree_in_order(refs, seg.span_id, config)
    &&& forall|i: int| 0 <= i < spans.len() ==> #[trigger] is_linked_record_of(spans[i], seg, refs[i], remote)
}

/// The remote parent handed on to the next segment, given the coin `flip`
/// and the span id `picked` from this segment: the picked one where the coin
/// came up, else none.
pub fn remote_parent_of(flip: bool, picked: Option<SpanId>) -> (r: Option<SpanId>)
    ensures
        r == (if flip { picked } else { None }),
{
    if flip {
        picked
    } else {
        None
    }
}

/// A count drawn from a distribution, already rounded: at least one.
pub fn clamp_count(rounded: usize) -> (r: usize)
    ensures
        r == at_least_one(rounded),
{
    if rounded < 1 {
        1
    } else {
        rounded
    }
}

/// `a / b` rounded down, for a positive `b`.
fn floor_div(a: i128, b: i128) -> (r: i128)
    requires
        b > 0,
        -3 * MAX_TIME_NS <= a <= 3 * MAX_TIME_NS,
        b <= MAX_TIME_NS,
    ensures
        r == a / b,
{
    if a >= 0 {
        a / b
    } else {
        let n = -a;
        let q = (n + b - 1) / b;
        proof {
            let qi = q as int;
            let ni = n as int;
            let bi = b as int;
            vstd::arithmetic::div_mod::lemma_fundamental_div_mod(ni + bi - 1, bi);
            vstd::arithmetic::div_mod::lemma_fundamental_div_mod(a as int, bi);
            let m = (ni + bi - 1) % bi;
            let f = (a as int) / bi;
            let g = (a as int) % bi;
            assert(ni + bi - 1 == bi * qi + m);
            assert(a as int == bi * f + g);
            assert(0 <= m < bi && 0 <= g < bi);
            assert(bi * (f + qi) == bi - 1 - g - m) by (nonlinear_arith)
                requires
                    ni + bi - 1 == bi * qi + m,
                    a as int == bi * f + g,
                    ni == -(a as int),
            ;
            assert(f + qi == 0) by (nonlinear_arith)
                requires
                    bi * (f + qi) == bi - 1 - g - m,
                    0 <= m < bi,
                    0 <= g < bi,
            ;
        }
        -q
    }
}

/// Builds the record of node `span_ref` of `segment` from the clock reading
/// `now_ns`, the end `end_ns` and the duration: the span starts its duration
/// before its end, and is neither remote nor has a remote parent.
pub fn assemble_span(
    segment: &SegmentInfo,
    span_ref: SpanRef,
    now_ns: i128,
    end_ns: i128,
    duration_ms: u32,
    description: String,
    origin: String,
) -> (r: Span)
    requires
        -2 * MAX_TIME_NS <= end_ns <= 2 * MAX_TIME_NS,
        now_ns - HOUR_NS <= end_ns <= now_ns,
    ensures
        is_record_of(r, *segment, span_ref),
        r.parent_span_id == span_ref.parent_id,
        !r.is_remote,
        r.received_ns == now_ns,
        r.end_timestamp_ns == end_ns,
        r.duration_ms == duration_ms,
        r.description == description,
        r.origin == origin,
{
    let start_ns = end_ns - duration_ms as i128 * NANOS_PER_MS;
    let segment_id = match span_ref.parent_id {
        None => None,
        Some(_) => Some(segment.span_id),
    };
    Span {
        trace_id: segment.trace.trace_id,
        span_id: span_ref.span_id,
        parent_span_id: span_ref.parent_id,
        segment_id,
        is_remote: false,
        organization_id: segment.trace.organization_id,
        project_id: segment.project_id,
        description,
        origin,
        received_ns: now_ns,
        start_timestamp_ns: start_ns,
        end_timestamp_ns: end_ns,
        start_timestamp_ms: floor_div(start_ns, NANOS_PER_MS),
        duration_ms,
        platform: SPAN_PLATFORM,
        retention_days: RETENTION_DAYS,
    }
}

/// Gives the root of a segment the remote parent `remote`, and marks it remote
/// exactly when there is one. Other records are left as they are.
pub fn link_segment_root(span: &mut Span, span_ref: &SpanRef, remote: Option<SpanId>)
    ensures
        span_ref.parent_id is None ==> *final(span) == (Span {
            parent_span_id: remote,
            is_remote: remote is Some,
            ..*old(span)
        }),
        span_ref.parent_id is Some ==> *final(span) == *old(span),
{
    if span_ref.parent_id.is_none() {
        span.parent_span_id = remote;
        span.is_remote = remote.is_some();
    }
}

/// Relies on time's OffsetDateTime::now_utc: the current time, which the
/// library's dates can hold.
#[verifier::external_body]
fn now_ns() -> (r: i128)
    ensures
        -MAX_TIME_NS <= r <= MAX_TIME_NS,
{
    time::OffsetDateTime::now_utc().unix_timestamp_nanos()
}

/// Relies on fake's DateTimeBetween for time's dates: the lower end plus a
/// whole number of minutes below the whole minutes between the two ends, so
/// the ends must lie a minute apart. None where time cannot hold an end.
#[verifier::external_body]
fn time_between(lower_ns: i128, upper_ns: i128) -> (r: Option<i128>)
    requires
        upper_ns - lower_ns >= 60_000_000_000,
    ensures
        r matches Some(t) ==> lower_ns <= t < upper_ns,
{
    let lower = time::OffsetDateTime::from_unix_timestamp_nanos(lower_ns).ok()?;
    let upper = time::OffsetDateTime::from_unix_timestamp_nanos(upper_ns).ok()?;
    let between = fake::faker::time::en::DateTimeBetween(lower, upper);
    Some(fake::Fake::fake::<time::OffsetDateTime>(&between).unix_timestamp_nanos())
}

/// Relies on fake's range faker for `u32`: a value inside the range.
#[verifier::external_body]
fn random_duration_ms() -> (r: u32)
    ensures
        1 <= r < MAX_DURATION_MS,
{
    fake::Fake::fake::<u32>(&(1..MAX_DURATION_MS))
}

/// Relies on fake's lorem Sentence faker: three to five words joined by
/// spaces and closed by a full stop.
#[verifier::external_body]
fn fake_sentence() -> (r: String)
    ensures
        r@.len() > 0,
        r@.last() == '.',
{
    fake::Fake::fake::<String>(&fake::faker::lorem::en::Sentence(3..6))
}

/// Relies on fake's filesystem DirPath faker: a plausible directory path.
#[verifier::external_body]
fn fake_dir_path() -> (r: String) {
    fake::Fake::fake::<String>(&fake::faker::filesystem::en::DirPath())
}

/// What a generator holds: its settings, the pools that tags are drawn from,
/// and its counts.
pub struct GeneratorState {
    pub config: Config,
    pub pools: TagPools,
    pub stats: Stats,
}

/// Generates traces, segments and spans with random content.
pub struct RandomGenerator {
    config: Config,
    pools: TagPools,
    stats: Stats,
}

impl View for RandomGenerator {
    type V = GeneratorState;

    closed spec fn view(&self) -> GeneratorState {
        GeneratorState { config: self.config, pools: self.pools, stats: self.stats }
    }
}

impl RandomGenerator {
    /// The settings that a generator works with: valid, with every project id
    /// fitting in 64 bits.
    pub open spec fn accepts(config: Config) -> bool {
        &&& config.is_valid()
        &&& (config.orgs - 1) * MAX_PROJECTS + config.projects <= u64::MAX
    }

    pub fn new(config: Config, pools: TagPools) -> (r: Self)
        requires
            Self::accepts(config),
        ensures
            r@.config == config,
            r@.pools == pools,
            r@.stats == (Stats { spans: 0, segments: 0, traces: 0 }),
    {
        RandomGenerator { config, pools, stats: Stats { spans: 0, segments: 0, traces: 0 } }
    }

    pub fn config(&self) -> (r: &Config)
        ensures
            *r == self@.config,
    {
        &self.config
    }

    pub fn stats(&self) -> (r: &Stats)
        ensures
            *r == self@.stats,
    {
        &self.stats
    }

    /// Whether the run has generated as many spans as asked for. Checked
    /// between traces only: a started trace is always finished.
    pub fn is_finished(&self) -> (r: bool)
        ensures
            r == (self@.stats.spans >= self@.config.count),
    {
        self.stats.spans >= self.config.count
    }

    /// A random organization id, from 1 to the number of organizations.
    pub fn organization_id(&mut self) -> (r: u64)
        requires
            Self::accepts(old(self)@.config),
        ensures
            final(self)@ == old(self)@,
            1 <= r <= old(self)@.config.orgs,
    {
        random_below(self.config.orgs) + 1
    }

    /// A random project id of the organization: each organization owns a
    /// block of ids, of which the first few are used.
    pub fn project_id(&mut self, organization_id: u64) -> (r: u64)
        requires
            Self::accepts(old(self)@.config),
            1 <= organization_id <= old(self)@.config.orgs,
        ensures
            final(self)@ == old(self)@,
            (organization_id - 1) * MAX_PROJECTS + 1 <= r,
            r <= (organization_id - 1) * MAX_PROJECTS + old(self)@.config.projects,
    {
        assert((organization_id - 1) * MAX_PROJECTS <= (self.config.orgs - 1) * MAX_PROJECTS)
            by (nonlinear_arith)
            requires
                1 <= organization_id <= self.config.orgs,
        ;
        random_below(self.config.projects) + 1 + (organization_id - 1) * MAX_PROJECTS
    }

    /// Starts a trace of a random organization.
    pub fn trace(&mut self) -> (r: TraceInfo)
        requires
            Self::accepts(old(self)@.config),
            old(self)@.stats.traces < usize::MAX,
        ensures
            final(self)@.config == old(self)@.config,
            final(self)@.pools == old(self)@.pools,
            final(self)@.stats == (Stats { traces: (old(self)@.stats.traces + 1) as usize, ..old(self)@.stats }),
            1 <= r.organization_id <= old(self)@.config.orgs,
    {
        self.stats.traces = self.stats.traces + 1;
        let organization_id = self.organization_id();
        TraceInfo::new(organization_id)
    }

    /// A fresh tag bundle with values drawn from the generator's pools.
    pub fn sentry_tags(&mut self) -> (r: SentryTags)
        ensures
            final(self)@ == old(self)@,
            is_tags_from(r, old(self)@.pools),
    {
        draw_tags(&self.pools)
    }

    /// Starts a segment of the trace, in a random project of its organization.
    pub fn segment(&mut self, trace: &TraceInfo) -> (r: SegmentInfo)
        requires
            Self::accepts(old(self)@.config),
            1 <= trace.organization_id <= old(self)@.config.orgs,
            old(self)@.stats.segments < usize::MAX,
        ensures
            final(self)@.config == old(self)@.config,
            final(self)@.pools == old(self)@.pools,
            final(self)@.stats == (Stats { segments: (old(self)@.stats.segments + 1) as usize, ..old(self)@.stats }),
            r.trace == *trace,
            is_tags_from(r.sentry_tags, old(self)@.pools),
            (trace.organization_id - 1) * MAX_PROJECTS + 1 <= r.project_id,
            r.project_id <= (trace.organization_id - 1) * MAX_PROJECTS + old(self)@.config.projects,
    {
        self.stats.segments = self.stats.segments + 1;
        let project_id = self.project_id(trace.organization_id);
        let sentry_tags = self.sentry_tags();
        SegmentInfo::new(*trace, project_id, sentry_tags)
    }

    /// The span tree of a segment with `len` spans: a random tree rooted at the
    /// segment's span, no deeper than the configured depth, written in the
    /// configured order.
    pub fn span_refs(&mut self, segment: &SegmentInfo, len: usize) -> (r: Vec<SpanRef>)
        requires
            Self::accepts(old(self)@.config),
            len >= 1,
        ensures
            final(self)@ == old(self)@,
            r@.len() == len,
            is_tree_in_order(r@, segment.span_id, old(self)@.config),
    {
        let (nodes, parents) = build_span_tree(segment.span_id, len, self.config.tree_depth);
        let ghost built = nodes@;
        let r = arrange_span_refs(nodes, self.config.order);
        proof {
            lemma_arranged_is_permutation(self@.config.order, built, r@);
        }
        assert(built.len() == len && is_span_tree(built, parents@, segment.span_id, self@.config.tree_depth as nat)
            && is_arranged(self@.config.order, built, r@));
        r
    }

    /// The record of node `span_ref` of the segment: it ends at a random time
    /// within the hour before now (at now itself where the time library cannot
    /// hold the start of that hour) and lasts a random 1 to 1999 milliseconds.
    pub fn span(&mut self, segment: &SegmentInfo, span_ref: SpanRef) -> (r: Span)
        requires
            old(self)@.stats.spans < usize::MAX,
        ensures
            final(self)@.config == old(self)@.config,
            final(self)@.pools == old(self)@.pools,
            final(self)@.stats == (Stats { spans: (old(self)@.stats.spans + 1) as usize, ..old(self)@.stats }),
            is_record_of(r, *segment, span_ref),
            r.parent_span_id == span_ref.parent_id,
            !r.is_remote,
            1 <= r.duration_ms < MAX_DURATION_MS,
            r.description@.len() > 0,
    {
        self.stats.spans = self.stats.spans + 1;
        let now = now_ns();
        let end = match time_between(now - HOUR_NS, now) {
            Some(t) => t,
            None => now,
        };
        let duration_ms = random_duration_ms();
        assemble_span(segment, span_ref, now, end, duration_ms, fake_sentence(), fake_dir_path())
    }

    /// The records of a segment's span tree, in the order of `refs`, with the
    /// segment's root linked to the remote parent `remote`.
    pub fn segment_spans(&mut self, segment: &SegmentInfo, refs: &Vec<SpanRef>, remote: Option<SpanId>) -> (r: Vec<Span>)
        requires
            old(self)@.stats.spans + refs@.len() <= usize::MAX,
        ensures
            final(self)@.config == old(self)@.config,
            final(self)@.pools == old(self)@.pools,
            final(self)@.stats == (Stats { spans: (old(self)@.stats.spans + refs@.len()) as usize, ..old(self)@.stats }),
            r@.len() == refs@.len(),
            forall|i: int| 0 <= i < r@.len() ==> #[trigger] is_linked_record_of(r@[i], *segment, refs@[i], remote),
            forall|i: int| 0 <= i < r@.len() ==> 1 <= #[trigger] r@[i].duration_ms < MAX_DURATION_MS,
    {
        let mut out: Vec<Span> = Vec::new();
        let mut i: usize = 0;
        while i < refs.len()
            invariant
                i <= refs@.len(),
                out@.len() == i,
                self@.config == old(self)@.config,
                self@.pools == old(self)@.pools,
                self@.stats == (Stats { spans: (old(self)@.stats.spans + i) as usize, ..old(self)@.stats }),
                old(self)@.stats.spans + refs@.len() <= usize::MAX,
                forall|j: int| 0 <= j < i ==> #[trigger] is_linked_record_of(out@[j], *segment, refs@[j], remote),
                forall|j: int| 0 <= j < i ==> 1 <= #[trigger] out@[j].duration_ms < MAX_DURATION_MS,
            decreases refs@.len() - i,
        {
            let span_ref = refs[i];
            let mut span = self.span(segment, span_ref);
            link_segment_root(&mut span, &span_ref, remote);
            out.push(span);
            i = i + 1;
        }
        out
    }

    /// Starts a trace of a random organization with `segment_count` segments
    /// (at least one), the first of which has no remote parent.
    pub fn start_trace(&mut self, segment_count: usize) -> (r: TraceRun)
        requires
            Self::accepts(old(self)@.config),
            old(self)@.stats.traces < usize::MAX,
        ensures
            final(self)@.config == old(self)@.config,
            final(self)@.pools == old(self)@.pools,
            final(self)@.stats == (Stats { traces: (old(self)@.stats.traces + 1) as usize, ..old(self)@.stats }),
            1 <= r@.trace.organization_id <= old(self)@.config.orgs,
            r@.segments_left == at_least_one(segment_count),
            r@.remote_parent is None,
    {
        let trace = self.trace();
        TraceRun { trace, segments_left: clamp_count(segment_count), remote_parent: None }
    }

    /// Emits the next segment of the trace with `span_count` spans (at least
    /// one), or nothing where the trace is done. The segment's root takes the
    /// remote parent that the run holds; the run then holds, half of the time,
    /// a random span of this segment, else none.
    pub fn next_segment(&mut self, run: &mut TraceRun, span_count: usize) -> (r: Option<SegmentBatch>)
        requires
            Self::accepts(old(self)@.config),
            1 <= old(run)@.trace.organization_id <= old(self)@.config.orgs,
            old(self)@.stats.segments < usize::MAX,
            old(self)@.stats.spans + at_least_one(span_count) <= usize::MAX,
        ensures
            final(self)@.config == old(self)@.config,
            final(self)@.pools == old(self)@.pools,
            final(run)@.trace == old(run)@.trace,
            old(run)@.segments_left == 0 ==> r is None && final(run)@ == old(run)@ && final(self)@ == old(self)@,
            old(run)@.segments_left > 0 ==> (r matches Some(batch) && {
                &&& final(run)@.segments_left == old(run)@.segments_left - 1
                &&& final(self)@.stats == (Stats {
                    spans: (old(self)@.stats.spans + batch.spans@.len()) as usize,
                    segments: (old(self)@.stats.segments + 1) as usize,
                    ..old(self)@.stats
                })
                &&& batch.spans@.len() == at_least_one(span_count)
                &&& is_tags_from(batch.segment.sentry_tags, old(self)@.pools)
                &&& exists|refs: Seq<SpanRef>| is_segment_emission(
                    batch.spans@, batch.segment, refs, old(run)@.trace, old(self)@.config, old(run)@.remote_parent)
                &&& forall|i: int| 0 <= i < batch.spans@.len() ==> 1 <= #[trigger] batch.spans@[i].duration_ms < MAX_DURATION_MS
                &&& is_link_into_spans(final(run)@.remote_parent, batch.spans@)
            }),
    {
        if run.segments_left == 0 {
            return None;
        }
        let segment = self.segment(&run.trace);
        let len = clamp_count(span_count);
        let refs = self.span_refs(&segment, len);
        let spans = self.segment_spans(&segment, &refs, run.remote_parent);
        let next = self.next_remote_parent(&refs);
        proof {
            assert forall|i: int| 0 <= i < refs@.len() implies #[trigger] refs@[i].span_id == spans@[i].span_id by {
                assert(is_linked_record_of(spans@[i], segment, refs@[i], run@.remote_parent));
            }
        }
        let batch = SegmentBatch { segment, spans };
        proof {
            assert(is_segment_emission(batch.spans@, batch.segment, refs@, run@.trace, self@.config, run@.remote_parent));
        }
        run.remote_parent = next;
        run.segments_left = run.segments_left - 1;
        Some(batch)
    }

    /// The remote parent for the next segment of the trace: half of the time a
    /// random span of this segment, otherwise none (see `remote_parent_of`).
    pub fn next_remote_parent(&mut self, refs: &Vec<SpanRef>) -> (r: Option<SpanId>)
        ensures
            final(self)@ == old(self)@,
            is_link_into(r, refs@),
            refs@.len() == 0 ==> r is None,
    {
        let flip = coin_flip();
        let picked = match pick_one(refs) {
            Some(span_ref) => Some(span_ref.span_id),
            None => None,
        };
        remote_parent_of(flip, picked)
    }
}

} // verus!
