//! Usage evidence and its fusion into one estimate per item.
pub mod shell_history;
pub mod aggregator;
pub mod spotlight;

use vstd::prelude::*;

verus! {

/// One piece of usage evidence, tagged with where it came from.
#[derive(Debug, Clone, Copy, PartialEq, Eq, Structural)]
pub enum UsageSource {
    /// Matches in the command-line history: how many, and the newest instant
    /// among them when one carries a timestamp.
    ShellHistory { count: u32, last_used: Option<i64> },
    /// The operating system's own usage bookkeeping for an application bundle.
    SpotlightMetadata { last_used: Option<i64>, use_count: Option<u32> },
    /// The file's last access time.
    FileAccessTime { atime: i64 },
    /// Recorded by hand.
    Manual,
}

/// The usage estimate of one item.
#[derive(Debug)]
pub struct UsageInfo {
    pub last_used: Option<i64>,
    pub usage_count: u32,
    pub sources: Vec<UsageSource>,
}

/// A usage estimate as plain values.
pub struct UsageModel {
    pub last_used: Option<i64>,
    pub usage_count: u32,
    pub sources: Seq<UsageSource>,
}

impl View for UsageInfo {
    type V = UsageModel;

    open spec fn view(&self) -> UsageModel {
        UsageModel { last_used: self.last_used, usage_count: self.usage_count, sources: self.sources@ }
    }
}

/// An estimate that counts uses has evidence for them.
pub open spec fn estimate_well_formed(m: UsageModel) -> bool {
    m.usage_count > 0 ==> m.sources.len() > 0
}

pub open spec fn empty_estimate() -> UsageModel {
    UsageModel { last_used: None, usage_count: 0, sources: Seq::empty() }
}

impl UsageInfo {
    /// An estimate with no evidence yet.
    pub fn new() -> (r: UsageInfo)
        ensures
            r@ == empty_estimate(),
    {
        UsageInfo { last_used: None, usage_count: 0, sources: Vec::new() }
    }
}

} // verus!
