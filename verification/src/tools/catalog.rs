//! The model-visible tool names and the vocabularies of their arguments, and
//! which of the tools a session declares.

use vstd::prelude::*;
use crate::chars::str_eq;
use crate::mode::ModePlan;

verus! {

/// `spawn_thinking` — delegate real work.
pub const SPAWN_THINKING: &'static str = "spawn_thinking";
/// `schedule_reminder` — a reminder or a timed task.
pub const SCHEDULE_REMINDER: &'static str = "schedule_reminder";
/// `cancel_agent_task` — cancel work, a scheduled task or a reminder.
pub const CANCEL_AGENT_TASK: &'static str = "cancel_agent_task";
/// `get_agent_task_status` — query or list work.
pub const GET_AGENT_TASK_STATUS: &'static str = "get_agent_task_status";
/// `get_current_time` — the clock in the user's zone.
pub const GET_CURRENT_TIME: &'static str = "get_current_time";
/// `memory` — the two long-term documents.
pub const MEMORY: &'static str = "memory";
/// `notes` — the named lists.
pub const NOTES: &'static str = "notes";
/// `respond_agent_permission` — relay the user's permission decision.
pub const RESPOND_AGENT_PERMISSION: &'static str = "respond_agent_permission";
/// `enter_sleep` — drop this entry point to wake-word-only.
pub const ENTER_SLEEP: &'static str = "enter_sleep";

/// The eight always-declared tools, in declaration order.
pub const ALWAYS_DECLARED: [&'static str; 8] = [
    SPAWN_THINKING,
    SCHEDULE_REMINDER,
    CANCEL_AGENT_TASK,
    GET_AGENT_TASK_STATUS,
    GET_CURRENT_TIME,
    MEMORY,
    NOTES,
    RESPOND_AGENT_PERMISSION,
];

/// Every tool name this crate knows.
pub const ALL_TOOL_NAMES: [&'static str; 9] = [
    SPAWN_THINKING,
    SCHEDULE_REMINDER,
    CANCEL_AGENT_TASK,
    GET_AGENT_TASK_STATUS,
    GET_CURRENT_TIME,
    MEMORY,
    NOTES,
    RESPOND_AGENT_PERMISSION,
    ENTER_SLEEP,
];

/// The client-declared state that unlocks [`ENTER_SLEEP`].
pub const SLEEPING_CLIENT_STATE: &'static str = "sleeping";

/// The cap on `spawn_thinking.input_refs`.
pub const MAX_INPUT_REFS: usize = 8;

/// The cap on `notes.items`.
pub const MAX_NOTES_ITEMS: usize = 20;

/// The three `memory.action` values.
pub const MEMORY_ACTIONS: [&'static str; 3] = ["read", "append", "replace"];

/// The six `notes.action` values.
pub const NOTES_ACTIONS: [&'static str; 6] = ["lists", "show", "add", "remove", "clear", "drop"];

/// The two `respond_agent_permission.decision` values.
pub const PERMISSION_DECISIONS: [&'static str; 2] = ["always", "reject"];

/// The two `schedule_reminder.type` values.
pub const REMINDER_TYPES: [&'static str; 2] = ["reminder", "task"];

/// The four `schedule_reminder.recurrence` values.
pub const REMINDER_RECURRENCES: [&'static str; 4] = ["once", "daily", "weekly", "weekdays"];

/// Whether `name` is one of the nine tool names.
pub open spec fn is_known_tool(name: Seq<char>) -> bool {
    exists|i: int| 0 <= i < 9 && (#[trigger] ALL_TOOL_NAMES@[i])@ == name
}

/// Whether `name` is one of the nine tool names.
pub fn is_tool_name(name: &str) -> (r: bool)
    ensures
        r == is_known_tool(name@),
{
    let mut i: usize = 0;
    while i < 9
        invariant
            i <= 9,
            forall|j: int| 0 <= j < i ==> (#[trigger] ALL_TOOL_NAMES@[j])@ != name@,
        decreases 9 - i,
    {
        if str_eq(ALL_TOOL_NAMES[i], name) {
            return true;
        }
        i = i + 1;
    }
    false
}

/// Whether the client declared the sleeping state.
pub open spec fn declares_sleep(states: Seq<String>) -> bool {
    exists|i: int| 0 <= i < states.len() && (#[trigger] states[i])@ == SLEEPING_CLIENT_STATE@
}

/// The tools a session could declare, in declaration order: the eight
/// always-declared ones, then [`ENTER_SLEEP`] for a client that declared
/// [`SLEEPING_CLIENT_STATE`].
pub open spec fn candidate_tools(states: Seq<String>) -> Seq<&'static str> {
    if declares_sleep(states) {
        ALWAYS_DECLARED@.push(ENTER_SLEEP)
    } else {
        ALWAYS_DECLARED@
    }
}

/// Whether `mode` declares the tool named `n`, as a predicate on names.
pub open spec fn declared_by(mode: ModePlan) -> spec_fn(&'static str) -> bool {
    |n: &'static str| mode.declares_tool_spec(n@)
}

/// The names of the tools this session declares, in declaration order: the
/// candidates that the mode declares.
pub fn declared_tool_names(client_states: &Vec<String>, mode: ModePlan) -> (r: Vec<&'static str>)
    ensures
        r@ == candidate_tools(client_states@).filter(declared_by(mode)),
{
    let mut supports_sleep = false;
    let mut k: usize = 0;
    while k < client_states.len()
        invariant
            k <= client_states@.len(),
            supports_sleep == exists|j: int| 0 <= j < k && (#[trigger] client_states@[j])@ == SLEEPING_CLIENT_STATE@,
        decreases client_states.len() - k,
    {
        if str_eq(client_states[k].as_str(), SLEEPING_CLIENT_STATE) {
            supports_sleep = true;
        }
        k = k + 1;
    }
    let mut r: Vec<&'static str> = Vec::new();
    let mut i: usize = 0;
    while i < 8
        invariant
            i <= 8,
            r@ == ALWAYS_DECLARED@.take(i as int).filter(declared_by(mode)),
        decreases 8 - i,
    {
        let ghost next = ALWAYS_DECLARED@.take(i as int + 1);
        proof {
            assert(next.drop_last() =~= ALWAYS_DECLARED@.take(i as int));
            assert(next.last() == ALWAYS_DECLARED@[i as int]);
        }
        let name = ALWAYS_DECLARED[i];
        if mode.declares_tool(name) {
            r.push(name);
        }
        proof {
            reveal(Seq::filter);
            let p = declared_by(mode);
            assert(p(name) == mode.declares_tool_spec(name@));
            assert(next.filter(p) == (if p(next.last()) {
                next.drop_last().filter(p).push(next.last())
            } else {
                next.drop_last().filter(p)
            }));
        }
        i = i + 1;
    }
    let ghost all = ALWAYS_DECLARED@.push(ENTER_SLEEP);
    proof {
        assert(ALWAYS_DECLARED@.take(8) =~= ALWAYS_DECLARED@);
        assert(all.drop_last() =~= ALWAYS_DECLARED@);
        assert(all.last() == ENTER_SLEEP);
    }
    let ghost base = r@;
    if supports_sleep && mode.declares_tool(ENTER_SLEEP) {
        r.push(ENTER_SLEEP);
    }
    proof {
        reveal(Seq::filter);
        let p = declared_by(mode);
        assert(p(ENTER_SLEEP) == mode.declares_tool_spec(ENTER_SLEEP@));
        assert(all.filter(p) == (if p(all.last()) {
            all.drop_last().filter(p).push(all.last())
        } else {
            all.drop_last().filter(p)
        }));
    }
    r
}

} // verus!
