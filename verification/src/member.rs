//! The decisions around one member's projection run: whether its plan is solved at all, the
//! warning for a pension that falls inside an unpaid half-time phase, and the liabilities whose
//! schedule makes the debt grow.
use crate::decimal::{dec_le, dec_lt, Dec};
use crate::plan::{
    money_of, money_out, PLAN_ABSENT_HOUSEHOLD_NOT_SOLVED, PLAN_ABSENT_MONTHS_OVERRIDE,
    WARN_PENSION_UNPAID_DURING_PARTIAL,
};
use crate::profile::PensionPlan;
use crate::series::{push_warning, texts};
use vstd::prelude::*;

verus! {

// ---------------------------------------------------------------------------------------------
// Whether the plan is solved
// ---------------------------------------------------------------------------------------------

/// The structural reason not to solve a member's plan: every member of the household aggregate
/// goes unsolved, and in the requester's own view a custom horizon skips the solve.
pub open spec fn plan_veto_of(aggregated: bool, months_override: Option<u32>) -> Option<&'static str> {
    if aggregated {
        Some(PLAN_ABSENT_HOUSEHOLD_NOT_SOLVED)
    } else if months_override is Some {
        Some(PLAN_ABSENT_MONTHS_OVERRIDE)
    } else {
        None
    }
}

/// Why the member's plan is not solved: the structural veto when there is one (it wins over the
/// missing data), else the assembly's own reason; `None` means the plan is solved.
pub fn member_plan_absent_reason(
    aggregated: bool,
    months_override: Option<u32>,
    assembly_reason: Option<&'static str>,
) -> (r: Option<&'static str>)
    ensures
        r == (match plan_veto_of(aggregated, months_override) {
            Some(v) => Some(v),
            None => assembly_reason,
        }),
        plan_veto_of(aggregated, months_override) is Some ==> r == plan_veto_of(
            aggregated,
            months_override,
        ),
        r is None <==> (!aggregated && months_override is None && assembly_reason is None),
{
    if aggregated {
        Some(PLAN_ABSENT_HOUSEHOLD_NOT_SOLVED)
    } else if months_override.is_some() {
        Some(PLAN_ABSENT_MONTHS_OVERRIDE)
    } else {
        assembly_reason
    }
}

// ---------------------------------------------------------------------------------------------
// The pension inside an unpaid half-time phase
// ---------------------------------------------------------------------------------------------

/// The month the member fully retires, `u32::MAX` when it never does within the horizon (the
/// half-time phase then lasts to the end).
pub open spec fn full_retirement_or_never(retirement: Option<u32>) -> int {
    match retirement {
        Some(m) => m as int,
        None => u32::MAX as int,
    }
}

/// The pension starts inside the half-time phase and none of it is paid there: both months are
/// known, the declared fraction paid while half-time is not positive, and the pension starts at
/// or after the phase and before full retirement.
pub open spec fn pension_unpaid_in_partial(
    pension_start: Option<u32>,
    partial_start: Option<u32>,
    retirement: Option<u32>,
    pension: Option<PensionPlan>,
) -> bool {
    match (pension_start, partial_start) {
        (Some(ps), Some(pa)) => {
            &&& pension matches Some(p) && p.fraction_while_partial.units() <= 0
            &&& ps >= pa
            &&& ps < full_retirement_or_never(retirement)
        },
        _ => false,
    }
}

/// Whether the member's run earns the `pension_unpaid_during_partial` warning, from the three
/// effective months the engine publishes and the profile's pension.
pub fn pension_unpaid_during_partial(
    pension_start: Option<u32>,
    partial_start: Option<u32>,
    retirement: Option<u32>,
    pension: Option<PensionPlan>,
) -> (r: bool)
    ensures
        r == pension_unpaid_in_partial(pension_start, partial_start, retirement, pension),
{
    match (pension_start, partial_start) {
        (Some(ps), Some(pa)) => {
            let unpaid = match pension {
                Some(p) => dec_le(p.fraction_while_partial, Dec::zero()),
                None => false,
            };
            let full_retirement: u32 = match retirement {
                Some(m) => m,
                None => u32::MAX,
            };
            unpaid && ps >= pa && ps < full_retirement
        },
        _ => false,
    }
}

/// The warnings of a member's run after the simulation: `pension_unpaid_during_partial` is added
/// (once) exactly when the pension falls inside an unpaid half-time phase; nothing else changes.
pub fn add_run_warnings(
    warnings: &mut Vec<String>,
    pension_start: Option<u32>,
    partial_start: Option<u32>,
    retirement: Option<u32>,
    pension: Option<PensionPlan>,
)
    ensures
        !pension_unpaid_in_partial(pension_start, partial_start, retirement, pension)
            ==> final(warnings)@ == old(warnings)@,
        pension_unpaid_in_partial(pension_start, partial_start, retirement, pension)
            && texts(old(warnings)@).contains(WARN_PENSION_UNPAID_DURING_PARTIAL@)
            ==> final(warnings)@ == old(warnings)@,
        pension_unpaid_in_partial(pension_start, partial_start, retirement, pension)
            && !texts(old(warnings)@).contains(WARN_PENSION_UNPAID_DURING_PARTIAL@)
            ==> texts(final(warnings)@) == texts(old(warnings)@).push(
            WARN_PENSION_UNPAID_DURING_PARTIAL@,
        ),
{
    if pension_unpaid_during_partial(pension_start, partial_start, retirement, pension) {
        push_warning(warnings, WARN_PENSION_UNPAID_DURING_PARTIAL);
    }
}

// ---------------------------------------------------------------------------------------------
// Negative amortization
// ---------------------------------------------------------------------------------------------

/// Some month of the schedule repays a negative principal (the debt grows that month).
pub open spec fn repays_negative(principal_repaid: Seq<Dec>) -> bool {
    exists|i: int| 0 <= i < principal_repaid.len() && #[trigger] principal_repaid[i].units() < 0
}

/// A liability's schedule, read for negative amortization: its opening and final principal when
/// some month repays a negative principal, nothing otherwise. An interest-only loan (principal
/// frozen, repaying zero) is not flagged.
pub fn negative_amortization_of(principal_repaid: &Vec<Dec>, opening: Dec, final_principal: Dec) -> (r:
    Option<(Dec, Dec)>)
    ensures
        r == (if repays_negative(principal_repaid@) {
            Some((opening, final_principal))
        } else {
            None
        }),
{
    let mut i: usize = 0;
    while i < principal_repaid.len()
        invariant
            0 <= i <= principal_repaid.len(),
            forall|k: int| 0 <= k < i ==> #[trigger] principal_repaid@[k].units() >= 0,
        decreases principal_repaid.len() - i,
    {
        if dec_lt(principal_repaid[i], Dec::zero()) {
            assert(principal_repaid@[i as int].units() < 0);
            return Some((opening, final_principal));
        }
        i = i + 1;
    }
    assert(!repays_negative(principal_repaid@));
    None
}

/// A liability whose debt grows over the simulated horizon: its id, its label, the principal
/// today and at the end of the horizon (both as published money), and the horizon.
#[derive(Clone, Debug)]
pub struct LiabilityNegativeAmortization {
    pub liability_id: u128,
    pub label: String,
    pub opening_principal: Dec,
    pub final_principal: Dec,
    pub horizon_months: u32,
}

/// The published row of a flagged liability.
pub open spec fn negative_amortization_row(
    id_label: (u128, String),
    flag: (Dec, Dec),
    months: u32,
) -> LiabilityNegativeAmortization {
    LiabilityNegativeAmortization {
        liability_id: id_label.0,
        label: id_label.1,
        opening_principal: money_of(flag.0),
        final_principal: money_of(flag.1),
        horizon_months: months,
    }
}

/// The rows of the first `n` liabilities, in order, keeping the flagged ones only.
pub open spec fn negative_amortization_rows_upto(
    ids: Seq<(u128, String)>,
    flags: Seq<Option<(Dec, Dec)>>,
    months: u32,
    n: nat,
) -> Seq<LiabilityNegativeAmortization>
    decreases n,
{
    if n == 0 {
        Seq::empty()
    } else {
        let prev = negative_amortization_rows_upto(ids, flags, months, (n - 1) as nat);
        match flags[n - 1] {
            Some(flag) => prev.push(negative_amortization_row(ids[n - 1], flag, months)),
            None => prev,
        }
    }
}

/// The shorter of two lengths: the liabilities and their flags are walked side by side.
pub open spec fn paired_len(a: nat, b: nat) -> nat {
    if a <= b {
        a
    } else {
        b
    }
}

/// The published negative-amortization rows: the liabilities (id and label, in the assembly's
/// order) walked side by side with their flags, one row per flagged liability, in order.
pub fn negative_amortization_rows(
    ids: &Vec<(u128, String)>,
    flags: &Vec<Option<(Dec, Dec)>>,
    months: u32,
) -> (r: Vec<LiabilityNegativeAmortization>)
    ensures
        r@ == negative_amortization_rows_upto(
            ids@,
            flags@,
            months,
            paired_len(ids@.len(), flags@.len()),
        ),
{
    let n: usize = if ids.len() <= flags.len() {
        ids.len()
    } else {
        flags.len()
    };
    let mut out: Vec<LiabilityNegativeAmortization> = Vec::new();
    let mut i: usize = 0;
    while i < n
        invariant
            0 <= i <= n,
            n == paired_len(ids@.len(), flags@.len()),
            n <= ids@.len(),
            n <= flags@.len(),
            out@ == negative_amortization_rows_upto(ids@, flags@, months, i as nat),
        decreases n - i,
    {
        match flags[i] {
            Some((opening, final_p)) => {
                let label = ids[i].1.clone();
                out.push(
                    LiabilityNegativeAmortization {
                        liability_id: ids[i].0,
                        label,
                        opening_principal: money_out(opening),
                        final_principal: money_out(final_p),
                        horizon_months: months,
                    },
                );
            },
            None => {},
        }
        i = i + 1;
    }
    out
}

} // verus!
