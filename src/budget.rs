use vstd::prelude::*;
use crate::render::{decimal, push_decimal, push_decimal_u128};
use crate::text::{push_str, string_of};

verus! {

/// Budget ceilings as configured: duration in milliseconds, memory in megabytes.
pub struct Budgets {
    pub duration_ms: Option<u64>,
    pub memory_mb: Option<u64>,
}

/// Budget ceilings in the units of measurement: milliseconds and kilobytes.
pub struct BudgetsResolved {
    pub duration_ms: Option<u64>,
    pub memory_kb: Option<u64>,
}

/// Why a run broke its budget.
pub enum BudgetError {
    /// The run took longer than the ceiling.
    DurationExceeded { actual_ms: u128, max_ms: u64 },
    /// A memory ceiling is set but no memory sample was taken.
    MeasurementUnavailable,
    /// The peak memory was above the ceiling.
    MemoryExceeded { actual_kb: u64, max_kb: u64 },
}

/// Config budgets with command-line overrides applied: an override replaces the configured value.
pub fn resolve_budgets(base: Option<Budgets>, dur: Option<u64>, mem: Option<u64>) -> (r: Budgets)
    ensures
        r.duration_ms == (match dur {
            Some(d) => Some(d),
            None => match base {
                Some(b) => b.duration_ms,
                None => None,
            },
        }),
        r.memory_mb == (match mem {
            Some(m) => Some(m),
            None => match base {
                Some(b) => b.memory_mb,
                None => None,
            },
        }),
{
    let mut b = match base {
        Some(b) => b,
        None => Budgets { duration_ms: None, memory_mb: None },
    };
    if let Some(d) = dur {
        b.duration_ms = Some(d);
    }
    if let Some(m) = mem {
        b.memory_mb = Some(m);
    }
    b
}

impl Budgets {
    /// The ceilings in measurement units; megabytes become kilobytes exactly (`mb * 1024`).
    pub fn resolved(&self) -> (r: BudgetsResolved)
        requires
            self.memory_mb matches Some(mb) ==> mb * 1024 <= u64::MAX,
        ensures
            r.duration_ms == self.duration_ms,
            r.memory_kb == (match self.memory_mb {
                Some(mb) => Some((mb * 1024) as u64),
                None => None,
            }),
    {
        BudgetsResolved {
            duration_ms: self.duration_ms,
            memory_kb: match self.memory_mb {
                Some(mb) => Some(mb * 1024),
                None => None,
            },
        }
    }
}

/// The verdict of the budget check: the duration ceiling first (strictly greater fails), then the
/// memory ceiling, which needs a measurement.
pub open spec fn budget_verdict(duration_ms: u128, peak_kb: Option<u64>, b: BudgetsResolved) -> Option<
    BudgetError,
> {
    if b.duration_ms matches Some(max) && duration_ms > max as u128 {
        Some(BudgetError::DurationExceeded { actual_ms: duration_ms, max_ms: b.duration_ms->0 })
    } else {
        match b.memory_kb {
            None => None,
            Some(max) => match peak_kb {
                None => Some(BudgetError::MeasurementUnavailable),
                Some(actual) => if actual > max {
                    Some(BudgetError::MemoryExceeded { actual_kb: actual, max_kb: max })
                } else {
                    None
                },
            },
        }
    }
}

/// Compares a run's measurements with its budgets.
pub fn check_budgets(duration_ms: u128, max_rss_kb: Option<u64>, budgets: &BudgetsResolved) -> (r:
    Result<(), BudgetError>)
    ensures
        match budget_verdict(duration_ms, max_rss_kb, *budgets) {
            None => r is Ok,
            Some(e) => r == Err::<(), BudgetError>(e),
        },
{
    if let Some(max_duration) = budgets.duration_ms {
        if duration_ms > max_duration as u128 {
            return Err(BudgetError::DurationExceeded { actual_ms: duration_ms, max_ms: max_duration });
        }
    }
    if let Some(max_mem_kb) = budgets.memory_kb {
        match max_rss_kb {
            None => {
                return Err(BudgetError::MeasurementUnavailable);
            },
            Some(actual_kb) => {
                if actual_kb > max_mem_kb {
                    return Err(BudgetError::MemoryExceeded { actual_kb, max_kb: max_mem_kb });
                }
            },
        }
    }
    Ok(())
}

/// Text of a budget failure.
pub open spec fn budget_message(e: BudgetError) -> Seq<char> {
    match e {
        BudgetError::DurationExceeded { actual_ms, max_ms } => "Duration budget exceeded: "@
            + decimal(actual_ms as nat) + "ms (budget "@ + decimal(max_ms as nat) + "ms)"@,
        BudgetError::MeasurementUnavailable => "Memory budget set but memory measurement unavailable"@,
        BudgetError::MemoryExceeded { actual_kb, max_kb } => "Memory budget exceeded: "@ + decimal(
            (actual_kb / 1024) as nat,
        ) + "MB (budget "@ + decimal((max_kb / 1024) as nat) + "MB)"@,
    }
}

impl BudgetError {
    /// The failure as one line of text.
    pub fn message(&self) -> (r: String)
        ensures
            r@ == budget_message(*self),
    {
        let mut out: Vec<char> = Vec::new();
        match self {
            BudgetError::DurationExceeded { actual_ms, max_ms } => {
                push_str(&mut out, "Duration budget exceeded: ");
                push_decimal_u128(&mut out, *actual_ms);
                push_str(&mut out, "ms (budget ");
                push_decimal(&mut out, *max_ms);
                push_str(&mut out, "ms)");
            },
            BudgetError::MeasurementUnavailable => {
                push_str(&mut out, "Memory budget set but memory measurement unavailable");
            },
            BudgetError::MemoryExceeded { actual_kb, max_kb } => {
                push_str(&mut out, "Memory budget exceeded: ");
                push_decimal(&mut out, *actual_kb / 1024);
                push_str(&mut out, "MB (budget ");
                push_decimal(&mut out, *max_kb / 1024);
                push_str(&mut out, "MB)");
            },
        }
        assert(out@ =~= budget_message(*self));
        string_of(&out)
    }

    pub fn is_measurement_unavailable(&self) -> (r: bool)
        ensures
            r == (*self is MeasurementUnavailable),
    {
        match self {
            BudgetError::MeasurementUnavailable => true,
            _ => false,
        }
    }
}

/// A duration over its ceiling always fails, and a duration at or under it never fails on time.
pub proof fn lemma_duration_boundary(duration_ms: u128, peak_kb: Option<u64>, b: BudgetsResolved)
    requires
        b.duration_ms is Some,
    ensures
        duration_ms > b.duration_ms->0 as u128 ==> budget_verdict(duration_ms, peak_kb, b)
            == Some(BudgetError::DurationExceeded { actual_ms: duration_ms, max_ms: b.duration_ms->0 }),
        duration_ms <= b.duration_ms->0 as u128 ==> !(budget_verdict(duration_ms, peak_kb, b) matches Some(
            BudgetError::DurationExceeded { .. },
        )),
{
}

/// With a memory ceiling set and no measurement, the check fails with `MeasurementUnavailable`
/// whenever the duration is within budget; it never reports that memory was exceeded.
pub proof fn lemma_missing_measurement(duration_ms: u128, b: BudgetsResolved)
    requires
        b.memory_kb is Some,
    ensures
        !(b.duration_ms matches Some(max) && duration_ms > max as u128) ==> budget_verdict(
            duration_ms,
            None,
            b,
        ) == Some(BudgetError::MeasurementUnavailable),
        !(budget_verdict(duration_ms, None, b) matches Some(BudgetError::MemoryExceeded { .. })),
{
}

} // verus!
