//! The decisions of the multi-period simulation that do not depend on the
//! model's real-valued state: which policy regime runs, and in which year a
//! trajectory first crosses a threshold.

use vstd::prelude::*;

verus! {

/// The three policy regimes.
///
/// `Laissez`: free automation, no intervention. `Retraining`: classical
/// retraining (a higher re-insertion rate, incentives unchanged).
/// `ProofGate`: firms may automate freely while the demand mincut stays
/// above a threshold; below it they post a social-cost bond that throttles
/// the automation rate.
#[derive(Debug, Clone, Copy, PartialEq, Eq)]
pub enum PolicyKind {
    Laissez,
    Retraining,
    ProofGate,
}

/// The label under which a regime is reported.
pub open spec fn policy_label(kind: PolicyKind) -> Seq<char> {
    match kind {
        PolicyKind::Laissez => "laissez"@,
        PolicyKind::Retraining => "retraining"@,
        PolicyKind::ProofGate => "proof-gate"@,
    }
}

impl PolicyKind {
    /// The label under which this regime is reported.
    pub fn label(&self) -> (l: &'static str)
        ensures
            l@ == policy_label(*self),
    {
        match self {
            PolicyKind::Laissez => "laissez",
            PolicyKind::Retraining => "retraining",
            PolicyKind::ProofGate => "proof-gate",
        }
    }
}

/// One step of crossing detection: the first year at which a quantity fell
/// below its threshold is kept once it is known; otherwise `year` becomes
/// that year when the quantity is below the threshold in it.
pub open spec fn crossing_step(crossing: Option<usize>, year: usize, below: bool) -> Option<usize> {
    if crossing is None && below {
        Some(year)
    } else {
        crossing
    }
}

/// The crossing year known after years `1..=below.len()`, where `below[i]`
/// tells whether the quantity was below its threshold in year `i + 1`.
pub open spec fn crossing_after(below: Seq<bool>) -> Option<usize>
    decreases below.len(),
{
    if below.len() == 0 {
        None
    } else {
        crossing_step(crossing_after(below.drop_last()), below.len() as usize, below.last())
    }
}

/// Updates the crossing year with the observation for `year`.
pub fn record_crossing(crossing: Option<usize>, year: usize, below: bool) -> (next: Option<usize>)
    ensures
        next == crossing_step(crossing, year, below),
{
    if crossing.is_none() && below {
        Some(year)
    } else {
        crossing
    }
}

/// Recording a run year by year from no crossing finds the first year in
/// which the quantity was below its threshold, and none where it never was.
pub proof fn lemma_crossing_is_first_year(below: Seq<bool>)
    requires
        below.len() < usize::MAX,
    ensures
        match crossing_after(below) {
            Some(year) => {
                &&& 1 <= year <= below.len()
                &&& below[year - 1]
                &&& forall|i: int| 0 <= i < year - 1 ==> !below[i]
            },
            None => forall|i: int| 0 <= i < below.len() ==> !below[i],
        },
    decreases below.len(),
{
    if below.len() > 0 {
        let prefix = below.drop_last();
        lemma_crossing_is_first_year(prefix);
        assert forall|i: int| 0 <= i < prefix.len() implies prefix[i] == below[i] by {}
    }
}

/// Whether the trajectory report prints the row of `year`: every second
/// year keeps the table compact, and the final year is always shown.
pub fn report_shows_year(year: usize, last_year: usize) -> (shown: bool)
    ensures
        shown == (year % 2 == 0 || year == last_year),
{
    year % 2 == 0 || year == last_year
}

} // verus!
