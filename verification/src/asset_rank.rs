use vstd::prelude::*;

verus! {

/// Quality ranking of an asset; negative scores mark assets a client should
/// treat with suspicion or hide.
#[derive(Clone, Copy, Debug, PartialEq, Eq, Structural)]
pub enum AssetRank {
    High,
    Medium,
    Low,
    Trivial,
    Unknown,
    Inactive,
    Abandoned,
    Suspended,
    Migrated,
    Deprecated,
    Spam,
    Fradulent,
}

impl AssetRank {
    pub open spec fn spec_rank(self) -> int {
        match self {
            AssetRank::High => 100,
            AssetRank::Medium => 50,
            AssetRank::Low => 25,
            AssetRank::Trivial => 15,
            AssetRank::Unknown => 0,
            AssetRank::Inactive => -2,
            AssetRank::Abandoned => -5,
            AssetRank::Suspended => -8,
            AssetRank::Migrated => -10,
            AssetRank::Deprecated => -12,
            AssetRank::Spam => -15,
            AssetRank::Fradulent => -20,
        }
    }

    /// The numeric score of a rank.
    pub fn rank(&self) -> (r: i32)
        ensures
            r == self.spec_rank(),
    {
        match self {
            AssetRank::High => 100,
            AssetRank::Medium => 50,
            AssetRank::Low => 25,
            AssetRank::Trivial => 15,
            AssetRank::Unknown => 0,
            AssetRank::Inactive => -2,
            AssetRank::Abandoned => -5,
            AssetRank::Suspended => -8,
            AssetRank::Migrated => -10,
            AssetRank::Deprecated => -12,
            AssetRank::Spam => -15,
            AssetRank::Fradulent => -20,
        }
    }
}

} // verus!
