use vstd::prelude::*;

verus! {

/// The time window a chart query covers.
#[derive(Clone, Copy, Debug, PartialEq, Eq, Structural)]
pub enum ChartPeriod {
    Hour,
    Day,
    Week,
    Month,
    Quarter,
    Year,
    All,
}

impl ChartPeriod {
    pub open spec fn spec_sql(self) -> Seq<char> {
        match self {
            ChartPeriod::Hour => "minute"@,
            ChartPeriod::Day => "minute"@,
            ChartPeriod::Week => "hour"@,
            ChartPeriod::Month => "hour"@,
            ChartPeriod::Quarter => "day"@,
            ChartPeriod::Year => "day"@,
            ChartPeriod::All => "day"@,
        }
    }

    /// The date-truncation granularity a chart period aggregates by.
    pub fn period_sql(&self) -> (r: &'static str)
        ensures
            r@ == self.spec_sql(),
    {
        match self {
            ChartPeriod::Hour => "minute",
            ChartPeriod::Day => "minute",
            ChartPeriod::Week => "hour",
            ChartPeriod::Month => "hour",
            ChartPeriod::Quarter => "day",
            ChartPeriod::Year => "day",
            ChartPeriod::All => "day",
        }
    }

    pub open spec fn spec_minutes(self) -> int {
        match self {
            ChartPeriod::Hour => 60,
            ChartPeriod::Day => 1440,
            ChartPeriod::Week => 10080,
            ChartPeriod::Month => 43200,
            ChartPeriod::Quarter => 131400,
            ChartPeriod::Year => 525600,
            ChartPeriod::All => 10525600,
        }
    }

    /// How many minutes back a chart period reaches.
    pub fn period_minutes(&self) -> (r: i32)
        ensures
            r == self.spec_minutes(),
    {
        match self {
            ChartPeriod::Hour => 60,
            ChartPeriod::Day => 1440,
            ChartPeriod::Week => 10080,
            ChartPeriod::Month => 43200,
            ChartPeriod::Quarter => 131400,
            ChartPeriod::Year => 525600,
            ChartPeriod::All => 10525600,
        }
    }
}

pub open spec fn spec_sum(s: Seq<i32>) -> int
    decreases s.len(),
{
    if s.len() == 0 {
        0
    } else {
        spec_sum(s.drop_last()) + s.last()
    }
}

/// The version derived from a node set: the sum of the node row
/// identifiers. Every prefix sum must fit in `i32`, as it does for any
/// realistic node table.
pub fn nodes_version(ids: &Vec<i32>) -> (r: i32)
    requires
        forall|i: int|
            0 <= i <= ids@.len() ==> i32::MIN <= spec_sum(#[trigger] ids@.take(i)) <= i32::MAX,
    ensures
        r == spec_sum(ids@),
{
    let mut acc: i32 = 0;
    let mut i: usize = 0;
    while i < ids.len()
        invariant
            i <= ids@.len(),
            acc == spec_sum(ids@.take(i as int)),
            forall|j: int|
                0 <= j <= ids@.len() ==> i32::MIN <= spec_sum(#[trigger] ids@.take(j)) <= i32::MAX,
        decreases ids.len() - i,
    {
        proof {
            assert(ids@.take(i + 1 as int).drop_last() =~= ids@.take(i as int));
            assert(ids@.take(i + 1 as int).last() == ids@[i as int]);
            assert(i32::MIN <= spec_sum(ids@.take(i + 1 as int)) <= i32::MAX);
        }
        acc = acc + ids[i];
        i += 1;
    }
    proof {
        assert(ids@.take(ids@.len() as int) =~= ids@);
    }
    acc
}

/// The moment `days` whole days before `now`, in unix seconds: rows not
/// updated since then are dropped by retention cleanup.
pub fn retention_cutoff(now: i64, days: i64) -> (r: i64)
    requires
        0 <= days <= 0x1_0000_0000,
        i64::MIN + days * 86400 <= now,
    ensures
        r == now - days * 86400,
{
    now - days * 86400
}

} // verus!
