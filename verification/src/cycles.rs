//! The cycle resolver: combines a recognized calendar grain with modifiers
//! ("this / next / last / N before or after / ordinal quarter of a year")
//! into a request against an external reference time.
//!
//! A resolver only computes the correct (grain, offset, anchor) triple from
//! the matched grammar; the calendar arithmetic itself is performed by the
//! external calendar primitives that consume a [`CycleRequest`].

use vstd::prelude::*;
use crate::values::{CycleValue, Grain, IntegerValue, OrdinalValue, RuleError};

verus! {

/// An opaque handle to a time value that the external matcher already
/// resolved (the explicit anchor of "the <cycle> after <time>"). The library
/// never looks inside it; it only routes it into a request.
#[derive(Clone, Copy, Debug, PartialEq, Eq, Structural)]
pub struct TimeRef {
    pub id: u64,
}

/// The reference a cycle offset is computed against.
#[derive(Clone, Copy, Debug, PartialEq, Eq, Structural)]
pub enum CycleAnchor {
    /// The implicit "now".
    Now,
    /// The cycle of the current year at offset zero, the implicit anchor of
    /// an ordinal quarter with no explicit year.
    CurrentYear,
    /// An explicitly matched anchor time.
    Time(TimeRef),
}

/// A request for the external calendar primitives: which grain to step, how
/// many steps, and from which anchor. `not_immediate` marks the N-cycle rules
/// whose offsets deliberately exclude the immediately adjacent cycle.
#[derive(Clone, Copy, Debug, PartialEq, Eq, Structural)]
pub struct CycleRequest {
    pub grain: Grain,
    pub offset: i64,
    pub anchor: CycleAnchor,
    pub not_immediate: bool,
}

/// "this <cycle>": offset 0 relative to the implicit "now".
pub fn this_cycle(cycle: &CycleValue) -> (r: CycleRequest)
    ensures
        r == (CycleRequest {
            grain: cycle.grain,
            offset: 0i64,
            anchor: CycleAnchor::Now,
            not_immediate: false,
        }),
{
    CycleRequest { grain: cycle.grain, offset: 0, anchor: CycleAnchor::Now, not_immediate: false }
}

/// "last <cycle>": offset -1 relative to the implicit "now".
pub fn last_cycle(cycle: &CycleValue) -> (r: CycleRequest)
    ensures
        r == (CycleRequest {
            grain: cycle.grain,
            offset: -1i64,
            anchor: CycleAnchor::Now,
            not_immediate: false,
        }),
{
    CycleRequest { grain: cycle.grain, offset: -1, anchor: CycleAnchor::Now, not_immediate: false }
}

/// "next <cycle>": offset +1 relative to the implicit "now".
pub fn next_cycle(cycle: &CycleValue) -> (r: CycleRequest)
    ensures
        r == (CycleRequest {
            grain: cycle.grain,
            offset: 1i64,
            anchor: CycleAnchor::Now,
            not_immediate: false,
        }),
{
    CycleRequest { grain: cycle.grain, offset: 1, anchor: CycleAnchor::Now, not_immediate: false }
}

/// "the <cycle> after <time>": offset +1 relative to an explicit anchor.
pub fn cycle_after(cycle: &CycleValue, anchor: &TimeRef) -> (r: CycleRequest)
    ensures
        r == (CycleRequest {
            grain: cycle.grain,
            offset: 1i64,
            anchor: CycleAnchor::Time(*anchor),
            not_immediate: false,
        }),
{
    CycleRequest {
        grain: cycle.grain,
        offset: 1,
        anchor: CycleAnchor::Time(*anchor),
        not_immediate: false,
    }
}

/// "the <cycle> before <time>": offset -1 relative to an explicit anchor.
pub fn cycle_before(cycle: &CycleValue, anchor: &TimeRef) -> (r: CycleRequest)
    ensures
        r == (CycleRequest {
            grain: cycle.grain,
            offset: -1i64,
            anchor: CycleAnchor::Time(*anchor),
            not_immediate: false,
        }),
{
    CycleRequest {
        grain: cycle.grain,
        offset: -1,
        anchor: CycleAnchor::Time(*anchor),
        not_immediate: false,
    }
}

/// "N <cycles> ago", N in [2, 9999]: offset -N, explicitly excluding the
/// immediate case. Offsets of magnitude 1 are the adjacent-cycle rules' own;
/// the disjoint integer ranges keep the two rule families from ever matching
/// the same span.
pub fn past_cycles(n: &IntegerValue, cycle: &CycleValue) -> (r: Result<CycleRequest, RuleError>)
    ensures
        r is Ok <==> 2 <= n.value <= 9999,
        r matches Ok(v) ==> v == (CycleRequest {
            grain: cycle.grain,
            offset: (-n.value) as i64,
            anchor: CycleAnchor::Now,
            not_immediate: true,
        }),
        r matches Err(e) ==> e == RuleError::InvalidComposition,
{
    if 2 <= n.value && n.value <= 9999 {
        Ok(
            CycleRequest {
                grain: cycle.grain,
                offset: -n.value,
                anchor: CycleAnchor::Now,
                not_immediate: true,
            },
        )
    } else {
        Err(RuleError::InvalidComposition)
    }
}

/// "N <cycles> from now", N in [2, 9999]: offset +N, excluding the immediate
/// case exactly as [`past_cycles`] does.
pub fn future_cycles(n: &IntegerValue, cycle: &CycleValue) -> (r: Result<CycleRequest, RuleError>)
    ensures
        r is Ok <==> 2 <= n.value <= 9999,
        r matches Ok(v) ==> v == (CycleRequest {
            grain: cycle.grain,
            offset: n.value,
            anchor: CycleAnchor::Now,
            not_immediate: true,
        }),
        r matches Err(e) ==> e == RuleError::InvalidComposition,
{
    if 2 <= n.value && n.value <= 9999 {
        Ok(
            CycleRequest {
                grain: cycle.grain,
                offset: n.value,
                anchor: CycleAnchor::Now,
                not_immediate: true,
            },
        )
    } else {
        Err(RuleError::InvalidComposition)
    }
}

/// "the R-th quarter" with no explicit year: the R-th quarter counted from
/// the start of the current year, so rank R resolves to offset R - 1 from the
/// current-year anchor (rank 1 is the first quarter itself). The cycle child
/// must carry the Quarter grain and the rank must be at least 1.
pub fn ordinal_quarter(ordinal: &OrdinalValue, cycle: &CycleValue) -> (r: Result<
    CycleRequest,
    RuleError,
>)
    ensures
        r is Ok <==> cycle.grain == Grain::Quarter && ordinal.value >= 1,
        r matches Ok(v) ==> v == (CycleRequest {
            grain: Grain::Quarter,
            offset: (ordinal.value - 1) as i64,
            anchor: CycleAnchor::CurrentYear,
            not_immediate: false,
        }),
        r matches Err(e) ==> e == RuleError::InvalidComposition,
{
    if cycle.grain == Grain::Quarter && ordinal.value >= 1 {
        Ok(
            CycleRequest {
                grain: Grain::Quarter,
                offset: ordinal.value - 1,
                anchor: CycleAnchor::CurrentYear,
                not_immediate: false,
            },
        )
    } else {
        Err(RuleError::InvalidComposition)
    }
}

/// "the R-th quarter of <year>": the R-th quarter counted from the start of
/// an explicitly matched year anchor.
pub fn ordinal_quarter_of_year(
    ordinal: &OrdinalValue,
    cycle: &CycleValue,
    year: &TimeRef,
) -> (r: Result<CycleRequest, RuleError>)
    ensures
        r is Ok <==> cycle.grain == Grain::Quarter && ordinal.value >= 1,
        r matches Ok(v) ==> v == (CycleRequest {
            grain: Grain::Quarter,
            offset: (ordinal.value - 1) as i64,
            anchor: CycleAnchor::Time(*year),
            not_immediate: false,
        }),
        r matches Err(e) ==> e == RuleError::InvalidComposition,
{
    if cycle.grain == Grain::Quarter && ordinal.value >= 1 {
        Ok(
            CycleRequest {
                grain: Grain::Quarter,
                offset: ordinal.value - 1,
                anchor: CycleAnchor::Time(*year),
                not_immediate: false,
            },
        )
    } else {
        Err(RuleError::InvalidComposition)
    }
}

/// The adjacent-cycle rules and the N-cycle rules can never produce the same
/// request: an N-cycle offset has magnitude at least 2 and is marked
/// not-immediate, while "this", "last" and "next" produce offsets 0 and
/// (+/-)1 without the mark. The grammar's disjoint integer ranges are
/// therefore mutually exclusive, never a tie to break.
pub proof fn law_cycle_rules_exclusive(n: int, g: Grain)
    requires
        2 <= n <= 9999,
    ensures
        forall|anchor: CycleAnchor|
            (CycleRequest { grain: g, offset: (-n) as i64, anchor, not_immediate: true })
                != (CycleRequest { grain: g, offset: -1i64, anchor, not_immediate: false })
            && (CycleRequest { grain: g, offset: n as i64, anchor, not_immediate: true })
                != (CycleRequest { grain: g, offset: 1i64, anchor, not_immediate: false })
            && (CycleRequest { grain: g, offset: (-n) as i64, anchor, not_immediate: true }).offset
                != 0 && (CycleRequest {
                grain: g,
                offset: n as i64,
                anchor,
                not_immediate: true,
            }).offset != 0,
{
}

} // verus!
