//! Budgets of the sandboxed Lua VM that runs a section's Lua blocks.

use vstd::prelude::*;

verus! {

/// How many instructions between hook firings.
pub const HOOK_INTERVAL: u32 = 10_000u32;

/// Maximum number of hook firings before a block is aborted (~1e7 instructions).
pub const HOOK_BUDGET: u64 = 1_000u64;

/// Maximum number of Unicode scalar values accepted by `log`.
pub const LUA_LOG_CHARACTER_LIMIT: usize = 256usize;

/// Default per-VM Lua heap ceiling (64 MiB).
pub const DEFAULT_LUA_MEMORY_BYTES: usize = 67_108_864usize;

/// Default per-VM `log()` event budget.
pub const DEFAULT_LUA_LOG_EVENTS: u32 = 1024u32;

/// The cumulative `log()` byte ceiling for an event budget: the events times
/// the per-event character limit, saturating at `usize::MAX`.
pub open spec fn log_byte_budget_of(log_events: u32) -> usize {
    if log_events * LUA_LOG_CHARACTER_LIMIT > usize::MAX {
        usize::MAX
    } else {
        (log_events * LUA_LOG_CHARACTER_LIMIT) as usize
    }
}

/// Cumulative `log()` byte ceiling derived from the event budget.
///
/// Bounds total log volume (bytes) even when each event is under the per-event
/// character ceiling. Derived as `events * LUA_LOG_CHARACTER_LIMIT` so it scales
/// with the configured event budget.
pub fn log_byte_budget(log_events: u32) -> (budget: usize)
    ensures
        budget == log_byte_budget_of(log_events),
{
    match (log_events as usize).checked_mul(LUA_LOG_CHARACTER_LIMIT) {
        Some(bytes) => bytes,
        None => usize::MAX,
    }
}

/// The byte budget never shrinks as the event budget grows, and covers every
/// event at the full character limit whenever that product fits.
pub proof fn lemma_log_byte_budget_monotone(a: u32, b: u32)
    ensures
        a <= b ==> log_byte_budget_of(a) <= log_byte_budget_of(b),
        a * LUA_LOG_CHARACTER_LIMIT <= usize::MAX ==> log_byte_budget_of(a) == a * 256,
{
    if a <= b {
        assert(a * 256 <= b * 256) by (nonlinear_arith)
            requires
                a <= b,
        ;
    }
}

/// The byte budget gives every event the full per-event character limit and
/// adds up over events: one event's budget is the character limit, none
/// gives nothing, and while the total fits, the budget of `a + b` events is
/// the budget of `a` plus that of `b`.
pub proof fn lemma_log_byte_budget_per_event(a: u32, b: u32)
    ensures
        log_byte_budget_of(0) == 0,
        log_byte_budget_of(1) == LUA_LOG_CHARACTER_LIMIT,
        a + b <= u32::MAX && (a + b) * LUA_LOG_CHARACTER_LIMIT <= usize::MAX ==> log_byte_budget_of(
            (a + b) as u32,
        ) == log_byte_budget_of(a) + log_byte_budget_of(b),
{
    if a + b <= u32::MAX && (a + b) * LUA_LOG_CHARACTER_LIMIT <= usize::MAX {
        assert(a * 256 <= (a + b) * 256 && b * 256 <= (a + b) * 256 && (a + b) * 256 == a * 256 + b * 256)
            by (nonlinear_arith);
    }
}

} // verus!
