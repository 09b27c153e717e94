//! The model-visible envelope a batch of finished Work is presented in.
//!
//! The shape is doing real work: the `[COMPLETE]` prefix is what the system
//! prompt refers to by name, the tag wrapper is what separates "these are
//! results" from "this is what the user just said", and `--- event N ---` is
//! what makes the "cover every event" rule checkable by the model.
//!
//! The sentences of the envelope (the results header, the progress
//! instructions, the truncation notice) belong to the message catalog and are
//! passed in.

use chrono::TimeZone;
use vstd::prelude::*;
use crate::chars::{decimal_seq, push_all, push_decimal, push_str, string_from_chars};
use crate::text::{bounded_code_points, code_point_len, take_code_points, trim, trim_seq};

verus! {

/// The marker that opens a result presentation.
pub const COMPLETE_MARKER: &'static str = "[COMPLETE]";

/// The opening tag of the results block.
pub const WORK_RESULTS_OPEN_TAG: &'static str = "<via_work_results>";

/// The closing tag of the results block.
pub const WORK_RESULTS_CLOSE_TAG: &'static str = "</via_work_results>";

/// The marker that opens a progress update.
pub const PROGRESS_MARKER: &'static str = "[PROGRESS]";

/// The opening tag of a progress block.
pub const PROGRESS_OPEN_TAG: &'static str = "<via_progress>";

/// The closing tag of a progress block.
pub const PROGRESS_CLOSE_TAG: &'static str = "</via_progress>";

/// The opening tag of the context replayed after a reconnect.
pub const RESTORED_CONTEXT_OPEN_TAG: &'static str = "<restored_context>";

/// The closing tag of the context replayed after a reconnect.
pub const RESTORED_CONTEXT_CLOSE_TAG: &'static str = "</restored_context>";

/// `lines` joined with `\n`.
pub open spec fn join_lines(lines: Seq<Seq<char>>) -> Seq<char>
    decreases lines.len(),
{
    if lines.len() == 0 {
        Seq::empty()
    } else if lines.len() == 1 {
        lines[0]
    } else {
        join_lines(lines.drop_last()) + seq!['\n'] + lines.last()
    }
}

proof fn lemma_join_push(lines: Seq<Seq<char>>, line: Seq<char>)
    requires
        lines.len() > 0,
    ensures
        join_lines(lines.push(line)) == join_lines(lines) + seq!['\n'] + line,
{
    assert(lines.push(line).drop_last() =~= lines);
}

/// Which terminal event an announcement carries.
#[derive(Clone, Copy, Debug, PartialEq, Eq)]
pub enum AnnouncementEvent {
    /// The Work produced a result.
    Completed,
    /// The Work produced an error.
    Failed,
}

impl AnnouncementEvent {
    /// The `type:` line's value.
    pub open spec fn name(self) -> Seq<char> {
        match self {
            AnnouncementEvent::Completed => "task.completed"@,
            AnnouncementEvent::Failed => "task.failed"@,
        }
    }

    /// The `type:` line's value.
    pub fn as_str(self) -> (r: &'static str)
        ensures
            r@ == self.name(),
    {
        match self {
            AnnouncementEvent::Completed => "task.completed",
            AnnouncementEvent::Failed => "task.failed",
        }
    }
}

/// One finished Work, queued for presentation.
#[derive(Clone, Debug, PartialEq, Eq)]
pub struct Announcement {
    /// The Work id.
    pub work_id: String,
    /// Which terminal event this is.
    pub event: AnnouncementEvent,
    /// The user's original request.
    pub objective: String,
    /// The result text, for a completion.
    pub result: String,
    /// The error text, for a failure.
    pub error: String,
    /// The turn that submitted the Work.
    pub turn_id: Option<String>,
    /// When it finished, in epoch milliseconds.
    pub completed_at: Option<i64>,
    /// Insertion order, assigned by the manager.
    pub sequence: u64,
}

/// What `chrono` renders an epoch-millisecond instant as, in UTC, with the
/// format `%Y-%m-%dT%H:%M:%S%.3fZ`; `None` outside the representable range.
pub uninterp spec fn iso_instant_text(epoch_ms: i64) -> Option<Seq<char>>;

/// `new Date(ms).toISOString()`.
///
/// Trusted: calls `chrono::TimeZone::timestamp_millis_opt` on `Utc`, takes
/// the single answer, and formats it with `%Y-%m-%dT%H:%M:%S%.3fZ`. The
/// contract claims only that the answer is a function of the instant, named
/// [`iso_instant_text`]; the calendar arithmetic is chrono's.
#[verifier::external_body]
fn iso_instant(epoch_ms: i64) -> (r: Option<String>)
    ensures
        r matches Some(s) ==> iso_instant_text(epoch_ms) == Some(s@),
        r is None ==> iso_instant_text(epoch_ms) is None,
{
    match chrono::Utc.timestamp_millis_opt(epoch_ms).single() {
        Some(instant) => Some(instant.format("%Y-%m-%dT%H:%M:%S%.3fZ").to_string()),
        None => None,
    }
}

/// The rendered completion instant of `a`, when it has one that renders.
pub open spec fn instant_of(a: Announcement) -> Option<Seq<char>> {
    match a.completed_at {
        Some(ms) => iso_instant_text(ms),
        None => None,
    }
}

/// The lines of an announcement's `--- event N ---` block, for the event at
/// position `index`. `original_request` and `completed_at` are omitted when
/// empty; the `result:` or `error:` line always renders.
pub open spec fn block_lines(a: Announcement, index: nat, instant: Option<Seq<char>>) -> Seq<Seq<char>> {
    let head = seq![
        "--- event "@ + decimal_seq(index + 1) + " ---"@,
        "type: "@ + a.event.name(),
        "work_id: "@ + a.work_id@,
    ];
    let with_request = if a.objective@.len() > 0 {
        head.push("original_request: "@ + a.objective@)
    } else {
        head
    };
    let with_instant = match instant {
        Some(s) => with_request.push("completed_at: "@ + s),
        None => with_request,
    };
    with_instant.push(
        match a.event {
            AnnouncementEvent::Completed => "result:\n"@ + trim_seq(a.result@),
            AnnouncementEvent::Failed => "error:\n"@ + trim_seq(a.error@),
        },
    )
}

/// An announcement's block, for the event at position `index`.
pub open spec fn block_spec(a: Announcement, index: nat, instant: Option<Seq<char>>) -> Seq<char> {
    join_lines(block_lines(a, index, instant))
}

fn push_line(out: &mut Vec<char>, line: &[char], Ghost(lines): Ghost<Seq<Seq<char>>>)
    requires
        lines.len() > 0,
        old(out)@ == join_lines(lines),
    ensures
        final(out)@ == join_lines(lines.push(line@)),
{
    proof {
        lemma_join_push(lines, line@);
    }
    out.push('\n');
    push_all(out, line);
}

impl Announcement {
    /// A completed Work.
    pub fn completed(work_id: &str, objective: &str, result: &str) -> (r: Self)
        ensures
            r.work_id@ == work_id@,
            r.event == AnnouncementEvent::Completed,
            r.objective@ == objective@,
            r.result@ == result@,
            r.error@.len() == 0,
            r.turn_id is None,
            r.completed_at is None,
            r.sequence == 0,
    {
        Announcement {
            work_id: work_id.to_owned(),
            event: AnnouncementEvent::Completed,
            objective: objective.to_owned(),
            result: result.to_owned(),
            error: String::new(),
            turn_id: None,
            completed_at: None,
            sequence: 0,
        }
    }

    /// A failed Work.
    pub fn failed(work_id: &str, objective: &str, error: &str) -> (r: Self)
        ensures
            r.work_id@ == work_id@,
            r.event == AnnouncementEvent::Failed,
            r.objective@ == objective@,
            r.result@.len() == 0,
            r.error@ == error@,
            r.turn_id is None,
            r.completed_at is None,
            r.sequence == 0,
    {
        Announcement {
            work_id: work_id.to_owned(),
            event: AnnouncementEvent::Failed,
            objective: objective.to_owned(),
            result: String::new(),
            error: error.to_owned(),
            turn_id: None,
            completed_at: None,
            sequence: 0,
        }
    }

    /// Set the submitting turn.
    pub fn turn(self, turn_id: Option<String>) -> (r: Self)
        ensures
            r == (Announcement { turn_id, ..self }),
    {
        Announcement { turn_id, ..self }
    }

    /// Set the completion instant.
    pub fn at(self, completed_at: Option<i64>) -> (r: Self)
        ensures
            r == (Announcement { completed_at, ..self }),
    {
        Announcement { completed_at, ..self }
    }

    /// This announcement's `--- event N ---` block, given how its completion
    /// instant renders (`None` drops the `completed_at` line).
    pub fn block_with_instant(&self, index: usize, instant: Option<&str>) -> (r: String)
        requires
            index < usize::MAX,
        ensures
            r@ == block_spec(*self, index as nat, match instant {
                Some(s) => Some(s@),
                None => None,
            }),
    {
        let ghost inst = match instant {
            Some(s) => Some(s@),
            None => None::<Seq<char>>,
        };
        let mut out: Vec<char> = Vec::new();
        push_str(&mut out, "--- event ");
        push_decimal(&mut out, (index + 1) as u64);
        push_str(&mut out, " ---");
        let ghost mut lines: Seq<Seq<char>> = seq![out@];
        assert(join_lines(lines) == out@);
        let mut line: Vec<char> = Vec::new();
        push_str(&mut line, "type: ");
        push_str(&mut line, self.event.as_str());
        push_line(&mut out, &line, Ghost(lines));
        proof {
            lines = lines.push(line@);
        }
        let mut line: Vec<char> = Vec::new();
        push_str(&mut line, "work_id: ");
        push_str(&mut line, self.work_id.as_str());
        push_line(&mut out, &line, Ghost(lines));
        proof {
            lines = lines.push(line@);
        }
        if self.objective.as_str().unicode_len() > 0 {
            let mut line: Vec<char> = Vec::new();
            push_str(&mut line, "original_request: ");
            push_str(&mut line, self.objective.as_str());
            push_line(&mut out, &line, Ghost(lines));
            proof {
                lines = lines.push(line@);
            }
        }
        match instant {
            Some(rendered) => {
                let mut line: Vec<char> = Vec::new();
                push_str(&mut line, "completed_at: ");
                push_str(&mut line, rendered);
                push_line(&mut out, &line, Ghost(lines));
                proof {
                    lines = lines.push(line@);
                }
            },
            None => {},
        }
        let mut line: Vec<char> = Vec::new();
        match self.event {
            AnnouncementEvent::Completed => {
                push_str(&mut line, "result:\n");
                push_str(&mut line, trim(self.result.as_str()));
            },
            AnnouncementEvent::Failed => {
                push_str(&mut line, "error:\n");
                push_str(&mut line, trim(self.error.as_str()));
            },
        }
        push_line(&mut out, &line, Ghost(lines));
        proof {
            lines = lines.push(line@);
            assert(lines =~= block_lines(*self, index as nat, inst));
        }
        string_from_chars(&out)
    }

    /// This announcement's `--- event N ---` block. A completion instant
    /// outside the representable range drops only its own line.
    pub fn block(&self, index: usize) -> (r: String)
        requires
            index < usize::MAX,
        ensures
            r@ == block_spec(*self, index as nat, instant_of(*self)),
    {
        match self.completed_at {
            Some(ms) => match iso_instant(ms) {
                Some(rendered) => self.block_with_instant(index, Some(rendered.as_str())),
                None => self.block_with_instant(index, None),
            },
            None => self.block_with_instant(index, None),
        }
    }
}

/// The lines of the envelope for a batch: the marker, the open tag, the
/// header, one block per announcement, the close tag.
pub open spec fn work_results_lines(announcements: Seq<Announcement>, header: Seq<char>) -> Seq<Seq<char>> {
    seq![COMPLETE_MARKER@, WORK_RESULTS_OPEN_TAG@, header]
        + Seq::new(announcements.len(), |i: int| block_spec(announcements[i], i as nat, instant_of(announcements[i])))
        + seq![WORK_RESULTS_CLOSE_TAG@]
}

/// The whole model-visible envelope for a batch, under the catalog's
/// results `header`.
pub fn format_work_results(announcements: &[Announcement], header: &str) -> (r: String)
    ensures
        r@ == join_lines(work_results_lines(announcements@, header@)),
{
    let ghost blocks = Seq::new(announcements@.len(), |i: int| block_spec(announcements@[i], i as nat, instant_of(announcements@[i])));
    let mut out: Vec<char> = Vec::new();
    push_str(&mut out, COMPLETE_MARKER);
    let ghost mut lines: Seq<Seq<char>> = seq![out@];
    assert(join_lines(lines) == out@);
    let open = crate::chars::chars_of(WORK_RESULTS_OPEN_TAG);
    push_line(&mut out, &open, Ghost(lines));
    proof {
        lines = lines.push(open@);
    }
    let head = crate::chars::chars_of(header);
    push_line(&mut out, &head, Ghost(lines));
    proof {
        lines = lines.push(head@);
        assert(lines =~= seq![COMPLETE_MARKER@, WORK_RESULTS_OPEN_TAG@, header@] + blocks.take(0));
    }
    let mut i: usize = 0;
    while i < announcements.len()
        invariant
            i <= announcements@.len(),
            blocks == Seq::new(announcements@.len(), |i: int| block_spec(announcements@[i], i as nat, instant_of(announcements@[i]))),
            lines == seq![COMPLETE_MARKER@, WORK_RESULTS_OPEN_TAG@, header@] + blocks.take(i as int),
            out@ == join_lines(lines),
        decreases announcements@.len() - i,
    {
        let block = announcements[i].block(i);
        let chars = crate::chars::chars_of(block.as_str());
        push_line(&mut out, &chars, Ghost(lines));
        proof {
            lines = lines.push(chars@);
            assert(lines =~= seq![COMPLETE_MARKER@, WORK_RESULTS_OPEN_TAG@, header@] + blocks.take(i + 1));
        }
        i = i + 1;
    }
    let close = crate::chars::chars_of(WORK_RESULTS_CLOSE_TAG);
    push_line(&mut out, &close, Ghost(lines));
    proof {
        lines = lines.push(close@);
        assert(blocks.take(announcements@.len() as int) =~= blocks);
        assert(lines =~= work_results_lines(announcements@, header@));
    }
    string_from_chars(&out)
}

/// `first` to `last` joined with `\n`: the five-line envelopes.
fn join_five(first: &str, second: &str, third: &str, fourth: &str, fifth: &str) -> (r: String)
    ensures
        r@ == join_lines(seq![first@, second@, third@, fourth@, fifth@]),
{
    let mut out: Vec<char> = Vec::new();
    push_str(&mut out, first);
    let ghost mut lines: Seq<Seq<char>> = seq![out@];
    assert(join_lines(lines) == out@);
    let b = crate::chars::chars_of(second);
    push_line(&mut out, &b, Ghost(lines));
    proof {
        lines = lines.push(b@);
    }
    let c = crate::chars::chars_of(third);
    push_line(&mut out, &c, Ghost(lines));
    proof {
        lines = lines.push(c@);
    }
    let d = crate::chars::chars_of(fourth);
    push_line(&mut out, &d, Ghost(lines));
    proof {
        lines = lines.push(d@);
    }
    let e = crate::chars::chars_of(fifth);
    push_line(&mut out, &e, Ghost(lines));
    proof {
        lines = lines.push(e@);
        assert(lines =~= seq![first@, second@, third@, fourth@, fifth@]);
    }
    string_from_chars(&out)
}

/// The model-visible envelope for one progress update, with the catalog's
/// `instructions` saying it is not the final result.
pub fn format_progress(message: &str, instructions: &str) -> (r: String)
    ensures
        r@ == join_lines(seq![PROGRESS_MARKER@, PROGRESS_OPEN_TAG@, instructions@, message@, PROGRESS_CLOSE_TAG@]),
{
    join_five(PROGRESS_MARKER, PROGRESS_OPEN_TAG, instructions, message, PROGRESS_CLOSE_TAG)
}

/// The `<restored_context>` block replayed after a reconnect, with the
/// catalog's `instructions` saying it is not a new request.
pub fn format_restored_context(recent: &str, instructions: &str) -> (r: String)
    ensures
        r@ == join_lines(seq![RESTORED_CONTEXT_OPEN_TAG@, instructions@, recent@, RESTORED_CONTEXT_CLOSE_TAG@]),
{
    let mut out: Vec<char> = Vec::new();
    push_str(&mut out, RESTORED_CONTEXT_OPEN_TAG);
    let ghost mut lines: Seq<Seq<char>> = seq![out@];
    assert(join_lines(lines) == out@);
    let b = crate::chars::chars_of(instructions);
    push_line(&mut out, &b, Ghost(lines));
    proof {
        lines = lines.push(b@);
    }
    let c = crate::chars::chars_of(recent);
    push_line(&mut out, &c, Ghost(lines));
    proof {
        lines = lines.push(c@);
    }
    let d = crate::chars::chars_of(RESTORED_CONTEXT_CLOSE_TAG);
    push_line(&mut out, &d, Ghost(lines));
    proof {
        lines = lines.push(d@);
        assert(lines =~= seq![RESTORED_CONTEXT_OPEN_TAG@, instructions@, recent@, RESTORED_CONTEXT_CLOSE_TAG@]);
    }
    string_from_chars(&out)
}

/// The truncation of `value` to `max_chars` code points: trimmed; whole when
/// it fits; otherwise clipped so that the clip plus `suffix` fills the
/// budget, or hard-clipped without the suffix when the budget is no larger
/// than the suffix. A zero budget counts as one.
pub open spec fn truncate_spec(value: Seq<char>, max_chars: nat, suffix: Seq<char>) -> Seq<char> {
    let text = trim_seq(value);
    let limit: nat = if max_chars == 0 { 1 } else { max_chars };
    if text.len() <= limit {
        text
    } else if limit <= suffix.len() {
        take_code_points(text, limit)
    } else {
        take_code_points(text, (limit - suffix.len()) as nat) + suffix
    }
}

/// Clip `value` to `max_chars` code points, appending the catalog's
/// truncation `suffix`. The bound counts code points, not UTF-16 units.
pub fn truncate_result(value: &str, max_chars: usize, suffix: &str) -> (r: String)
    ensures
        r@ == truncate_spec(value@, max_chars as nat, suffix@),
{
    let text = trim(value);
    let limit = if max_chars == 0 { 1 } else { max_chars };
    if code_point_len(text) <= limit {
        return text.to_owned();
    }
    let suffix_len = code_point_len(suffix);
    if limit <= suffix_len {
        return bounded_code_points(text, limit);
    }
    let clipped = bounded_code_points(text, limit - suffix_len);
    let mut out = crate::chars::chars_of(clipped.as_str());
    push_str(&mut out, suffix);
    string_from_chars(&out)
}

/// Truncation never exceeds the budget (a zero budget counting as one), and
/// leaves text that fits, once trimmed, whole.
pub proof fn lemma_truncation_fits_budget(value: Seq<char>, max_chars: nat, suffix: Seq<char>)
    ensures
        truncate_spec(value, max_chars, suffix).len() <= if max_chars == 0 { 1 } else { max_chars },
        trim_seq(value).len() <= (if max_chars == 0 { 1 } else { max_chars }) ==> truncate_spec(value, max_chars, suffix)
            == trim_seq(value),
{
}

/// Truncation keeps the head of the trimmed text. When the trimmed text
/// is longer than the budget, the result fills the budget exactly: the
/// text's first code points followed by the whole suffix when the budget
/// leaves room for more than the suffix, and otherwise just the text's first
/// `budget` code points.
pub proof fn lemma_truncation_keeps_the_head(value: Seq<char>, max_chars: nat, suffix: Seq<char>)
    ensures
        ({
            let text = trim_seq(value);
            let limit: nat = if max_chars == 0 { 1 } else { max_chars };
            let r = truncate_spec(value, max_chars, suffix);
            &&& text.len() > limit && limit > suffix.len() ==> {
                &&& r.len() == limit
                &&& r.take(limit - suffix.len()) == text.take(limit - suffix.len())
                &&& r.skip(limit - suffix.len()) == suffix
            }
            &&& text.len() > limit && limit <= suffix.len() ==> r == text.take(limit as int)
        }),
{
    let text = trim_seq(value);
    let limit: nat = if max_chars == 0 { 1 } else { max_chars };
    let r = truncate_spec(value, max_chars, suffix);
    if text.len() > limit && limit > suffix.len() {
        let k = limit - suffix.len();
        assert(r.take(k) =~= text.take(k));
        assert(r.skip(k) =~= suffix);
    }
}

} // verus!
