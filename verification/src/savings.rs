//! The effective savings inputs of month 0: the budget, or the real averages of the transactions,
//! chosen side by side (income, expense) with a per-side fallback to the budget.
use crate::decimal::Dec;
use vstd::prelude::*;

verus! {

/// Where the regular income and expense of the projection come from.
#[derive(Clone, Copy, Debug, PartialEq, Eq, Structural)]
pub enum SavingsSource {
    /// The budget on both sides.
    Budget,
    /// The real averages on both sides.
    TransactionsAvg,
    /// Budgeted income, real expense.
    BudgetIncomeRealExpense,
}

/// How the averaging window is counted.
#[derive(Clone, Copy, Debug, PartialEq, Eq, Structural)]
pub enum AvgWindowMode {
    Data,
    Calendar,
}

/// The averaging window after its clamp.
#[derive(Clone, Copy, Debug, PartialEq, Eq, Structural)]
pub struct AvgWindow {
    pub months: u32,
    pub mode: AvgWindowMode,
}

/// One side (income or expense) of the transactions average.
#[derive(Clone, Debug)]
pub struct AvgSide {
    pub avg: Dec,
    pub months_with_data: u32,
    pub window: AvgWindow,
    pub first_month: Option<String>,
    pub last_month: Option<String>,
    pub has_gaps: bool,
}

/// Both sides of the transactions average.
#[derive(Clone, Debug)]
pub struct TransactionsAvg {
    pub income: AvgSide,
    pub expense: AvgSide,
}

/// Where one side of the savings came from.
#[derive(Clone, Debug)]
pub struct SavingsAvgBasis {
    /// `budget` or `average`.
    pub basis: &'static str,
    /// The months actually averaged; 0 exactly when the basis is the budget.
    pub avg_months: u32,
    /// The configured window after its clamp (0 when it does not apply).
    pub window_months: u32,
    /// `data` or `calendar`; absent when the side does not average.
    pub window_mode: Option<&'static str>,
    /// Oldest month included (`YYYY-MM`).
    pub first_month: Option<String>,
    /// Newest month included (`YYYY-MM`).
    pub last_month: Option<String>,
    /// The months included are not consecutive.
    pub has_gaps: bool,
}

/// A basis taken from the budget.
pub open spec fn is_budget_basis(b: SavingsAvgBasis) -> bool {
    &&& b.basis@ == "budget"@
    &&& b.avg_months == 0
    &&& b.window_months == 0
    &&& b.window_mode is None
    &&& b.first_month is None
    &&& b.last_month is None
    &&& !b.has_gaps
}

/// A basis taken from an averaged side.
pub open spec fn is_side_basis(b: SavingsAvgBasis, side: AvgSide) -> bool {
    &&& b.basis@ == "average"@
    &&& b.avg_months == side.months_with_data
    &&& b.window_months == side.window.months
    &&& b.window_mode matches Some(m) && m@ == (match side.window.mode {
        AvgWindowMode::Data => "data"@,
        AvgWindowMode::Calendar => "calendar"@,
    })
    &&& b.first_month == side.first_month
    &&& b.last_month == side.last_month
    &&& b.has_gaps == side.has_gaps
}

fn clone_text(o: &Option<String>) -> (r: Option<String>)
    ensures
        r == *o,
{
    match o {
        Some(s) => Some(s.clone()),
        None => None,
    }
}

impl SavingsAvgBasis {
    /// The side came from the budget.
    pub fn budget() -> (r: Self)
        ensures
            is_budget_basis(r),
    {
        SavingsAvgBasis {
            basis: "budget",
            avg_months: 0,
            window_months: 0,
            window_mode: None,
            first_month: None,
            last_month: None,
            has_gaps: false,
        }
    }

    /// The side came from the real average.
    pub fn from_side(side: &AvgSide) -> (r: Self)
        ensures
            is_side_basis(r, *side),
    {
        SavingsAvgBasis {
            basis: "average",
            avg_months: side.months_with_data,
            window_months: side.window.months,
            window_mode: Some(
                match side.window.mode {
                    AvgWindowMode::Data => "data",
                    AvgWindowMode::Calendar => "calendar",
                },
            ),
            first_month: clone_text(&side.first_month),
            last_month: clone_text(&side.last_month),
            has_gaps: side.has_gaps,
        }
    }
}

/// The effective regular inputs of month 0.
#[derive(Clone, Debug)]
pub struct EffectiveSavingsInputs {
    pub income: Dec,
    pub expense: Dec,
    /// The expense comes from the real average.
    pub expense_from_avg: bool,
    /// The effective source: the budget exactly when both sides fell back to it.
    pub effective_source: SavingsSource,
    pub income_basis: SavingsAvgBasis,
    pub expense_basis: SavingsAvgBasis,
}

/// The source averages the income side.
pub open spec fn averages_income(source: SavingsSource) -> bool {
    source == SavingsSource::TransactionsAvg
}

/// The source averages the expense side.
pub open spec fn averages_expense(source: SavingsSource) -> bool {
    source == SavingsSource::TransactionsAvg || source == SavingsSource::BudgetIncomeRealExpense
}

/// The income side is taken from the average (asked for, present, and with data).
pub open spec fn income_ok(source: SavingsSource, avg: Option<TransactionsAvg>) -> bool {
    averages_income(source) && (avg matches Some(a) && a.income.months_with_data > 0)
}

/// The expense side is taken from the average (asked for, present, and with data).
pub open spec fn expense_ok(source: SavingsSource, avg: Option<TransactionsAvg>) -> bool {
    averages_expense(source) && (avg matches Some(a) && a.expense.months_with_data > 0)
}

/// The single resolution of the mode and of the per-side fallback: each side is the average
/// when the mode asks for it and it has data, the budget otherwise; the effective source collapses
/// to the budget exactly when both sides fell back.
pub fn resolve_effective_savings_inputs(
    source: SavingsSource,
    budget_income: Dec,
    budget_expense: Dec,
    avg: Option<&TransactionsAvg>,
) -> (r: EffectiveSavingsInputs)
    ensures
        ({
            let a = match avg {
                Some(x) => Some(*x),
                None => None,
            };
            &&& r.income == (if income_ok(source, a) {
                a.unwrap().income.avg
            } else {
                budget_income
            })
            &&& r.expense == (if expense_ok(source, a) {
                a.unwrap().expense.avg
            } else {
                budget_expense
            })
            &&& r.expense_from_avg == expense_ok(source, a)
            &&& r.effective_source == (if income_ok(source, a) || expense_ok(source, a) {
                source
            } else {
                SavingsSource::Budget
            })
            &&& (r.effective_source == SavingsSource::Budget <==> !income_ok(source, a)
                && !expense_ok(source, a))
            &&& (if income_ok(source, a) {
                is_side_basis(r.income_basis, a.unwrap().income)
            } else {
                is_budget_basis(r.income_basis)
            })
            &&& (if expense_ok(source, a) {
                is_side_basis(r.expense_basis, a.unwrap().expense)
            } else {
                is_budget_basis(r.expense_basis)
            })
        }),
        // The budget mode, or no averages at all: the budget on both sides.
        source == SavingsSource::Budget || avg is None ==> r.income == budget_income && r.expense
            == budget_expense && r.effective_source == SavingsSource::Budget && !r.expense_from_avg,
        // Budget income with real expense never averages the income.
        source == SavingsSource::BudgetIncomeRealExpense ==> r.income == budget_income,
        // A side with data is averaged whenever the mode asks for it.
        source == SavingsSource::TransactionsAvg && avg is Some && avg.unwrap().income.months_with_data
            > 0 ==> r.income == avg.unwrap().income.avg && r.effective_source == source,
        source != SavingsSource::Budget && avg is Some && avg.unwrap().expense.months_with_data > 0
            ==> r.expense == avg.unwrap().expense.avg && r.expense_from_avg && r.effective_source
            == source,
        // A side without data falls back to the budget.
        avg is Some && avg.unwrap().income.months_with_data == 0 ==> r.income == budget_income,
        avg is Some && avg.unwrap().expense.months_with_data == 0 ==> r.expense == budget_expense
            && !r.expense_from_avg,
{
    let (use_income_avg, use_expense_avg) = match source {
        SavingsSource::Budget => (false, false),
        SavingsSource::TransactionsAvg => (true, true),
        SavingsSource::BudgetIncomeRealExpense => (false, true),
    };
    let (inc_ok, exp_ok) = match avg {
        Some(a) => (use_income_avg && a.income.months_with_data > 0, use_expense_avg
            && a.expense.months_with_data > 0),
        None => (false, false),
    };
    let (income, income_basis) = match avg {
        Some(a) => if inc_ok {
            (a.income.avg, SavingsAvgBasis::from_side(&a.income))
        } else {
            (budget_income, SavingsAvgBasis::budget())
        },
        None => (budget_income, SavingsAvgBasis::budget()),
    };
    let (expense, expense_basis) = match avg {
        Some(a) => if exp_ok {
            (a.expense.avg, SavingsAvgBasis::from_side(&a.expense))
        } else {
            (budget_expense, SavingsAvgBasis::budget())
        },
        None => (budget_expense, SavingsAvgBasis::budget()),
    };
    EffectiveSavingsInputs {
        income,
        expense,
        expense_from_avg: exp_ok,
        effective_source: if inc_ok || exp_ok {
            source
        } else {
            SavingsSource::Budget
        },
        income_basis,
        expense_basis,
    }
}

} // verus!
