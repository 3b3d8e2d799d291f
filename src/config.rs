//! The generator's settings and their normalization.
use vstd::prelude::*;

verus! {

/// The order in which spans are written in a segment.
#[derive(Debug, Clone, Copy, PartialEq, Eq, Structural)]
pub enum SpanOrder {
    /// Parents are written after their children.
    Post,
    /// Parents are written before their children.
    Pre,
    /// Spans are written in a random order.
    Random,
}

/// The result of lowercasing text.
pub uninterp spec fn lower_of(s: Seq<char>) -> Seq<char>;

/// Relies on str::to_lowercase: the result depends on the characters alone.
#[verifier::external_body]
fn lowercase(s: &str) -> (r: String)
    ensures
        r@ == lower_of(s@),
{
    s.to_lowercase()
}

/// The order that a lowercase name stands for.
pub open spec fn order_named(name: Seq<char>) -> Option<SpanOrder> {
    if name == "post"@ {
        Some(SpanOrder::Post)
    } else if name == "pre"@ {
        Some(SpanOrder::Pre)
    } else if name == "random"@ {
        Some(SpanOrder::Random)
    } else {
        None
    }
}

impl SpanOrder {
    /// The order named exactly `post`, `pre` or `random`.
    pub fn from_lowercase_name(name: &str) -> (r: Option<SpanOrder>)
        ensures
            r == order_named(name@),
    {
        let name = name.to_owned();
        if name == "post".to_owned() {
            Some(SpanOrder::Post)
        } else if name == "pre".to_owned() {
            Some(SpanOrder::Pre)
        } else if name == "random".to_owned() {
            Some(SpanOrder::Random)
        } else {
            None
        }
    }

    /// The order named `post`, `pre` or `random`, in any case.
    pub fn parse(s: &str) -> (r: Option<SpanOrder>)
        ensures
            r == order_named(lower_of(s@)),
    {
        let lower = lowercase(s);
        Self::from_lowercase_name(lower.as_str())
    }
}

/// Project ids of one organization lie in a block of this many ids.
pub const MAX_PROJECTS: u64 = 1000;

/// The generator's settings, as the command line gives them.
#[derive(Debug, Clone, Copy)]
pub struct Config {
    /// The number of spans to generate in total; started traces are finished.
    pub count: usize,
    /// The throughput of spans per second, if throttled.
    pub throughput: Option<u32>,
    /// The average number of spans per segment.
    pub spans_per_segment: usize,
    /// The average number of segments per trace.
    pub segments_per_trace: usize,
    /// The order in which spans are written in a segment.
    pub order: SpanOrder,
    /// The largest number of spans generated in one run.
    pub batch_size: usize,
    /// The delay in milliseconds between batches of a segment.
    pub batch_delay_ms: u64,
    /// The standard deviation of the batch delay in milliseconds.
    pub batch_delay_stddev: u64,
    /// The number of traces that interleave on the stream.
    pub concurrent_traces: usize,
    /// The size of the payload in bytes.
    pub payload_size: usize,
    /// The depth of the span tree within each segment.
    pub tree_depth: usize,
    /// The percentage of segments without an explicit root span.
    pub segments_without_root: u16,
    /// The number of organizations.
    pub orgs: u64,
    /// The number of projects per organization.
    pub projects: u64,
}

/// Why settings were refused.
#[derive(Debug, Clone, Copy, PartialEq, Eq, Structural)]
pub enum ConfigError {
    /// The percentage of segments without a root lies above 100.
    SegmentsWithoutRootOutOfRange,
}

impl ConfigError {
    /// A message for the user.
    pub fn message(&self) -> (r: &'static str) {
        match self {
            ConfigError::SegmentsWithoutRootOutOfRange => "segments-without-root must be between 0 and 100",
        }
    }
}

/// The settings with zero counts replaced: no organizations or projects
/// become one, and a tree depth of zero becomes one. Every other value is
/// kept as it is.
pub open spec fn normalized(c: Config) -> Config {
    Config {
        orgs: if c.orgs == 0 { 1 } else { c.orgs },
        projects: if c.projects == 0 { 1 } else { c.projects },
        tree_depth: if c.tree_depth == 0 { 1 } else { c.tree_depth },
        ..c
    }
}

impl Config {
    /// No zero counts of organizations, projects or tree levels.
    pub open spec fn is_valid(&self) -> bool {
        &&& self.orgs >= 1
        &&& self.projects >= 1
        &&& self.tree_depth >= 1
    }

    /// Replaces zero counts (see `normalized`), and refuses a
    /// percentage of segments without a root above 100.
    pub fn validate(&mut self) -> (r: Result<(), ConfigError>)
        ensures
            *final(self) == normalized(*old(self)),
            r is Err <==> old(self).segments_without_root > 100,
    {
        if self.orgs == 0 {
            self.orgs = 1;
        }
        if self.projects == 0 {
            self.projects = 1;
        }
        if self.tree_depth == 0 {
            self.tree_depth = 1;
        }
        if self.segments_without_root > 100 {
            return Err(ConfigError::SegmentsWithoutRootOutOfRange);
        }
        Ok(())
    }
}

/// Normalized settings are valid, and normalizing them again changes nothing.
pub proof fn lemma_normalize_idempotent(c: Config)
    ensures
        normalized(c).is_valid(),
        normalized(normalized(c)) == normalized(c),
{
}

} // verus!
