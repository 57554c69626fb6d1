//! Heartbeat: periodic synthetic messages that make the agent work through
//! a task checklist. The timer, the clock, the file system and the message
//! channel belong to the caller; this module decides, tick by tick, what
//! happens.
//!
//! One tick: outside the active-hours window nothing happens; a
//! `HEARTBEAT_OK` marker in the workspace is removed and suppresses the tick;
//! a missing or blank checklist skips the tick; otherwise the checklist is
//! sent as a synthetic message, and a full channel skips the tick while a
//! closed channel stops the heartbeat.
use vstd::prelude::*;
use crate::text::{all_digits, chars_of, digits_value, is_digit, lemma_digits_prefix_le, parse_u32,
    parse_u32_spec, pieces, push_signed_decimal, push_str, signed_decimal, split_chars, trim, trimmed};
use std::path::PathBuf;

verus! {

/// The active-hours window "HH:MM-HH:MM" as (start hour, start minute, end
/// hour, end minute): exactly one `-`, each side trimmed of white space and
/// holding exactly one `:` between two unsigned 32-bit numbers.
pub open spec fn hours_window(s: Seq<char>) -> Option<(u32, u32, u32, u32)> {
    let parts = pieces(s, '-');
    if parts.len() != 2 {
        None
    } else {
        let start = pieces(trim(parts[0]), ':');
        let end = pieces(trim(parts[1]), ':');
        if start.len() != 2 || end.len() != 2 {
            None
        } else {
            match (parse_u32_spec(start[0]), parse_u32_spec(start[1]), parse_u32_spec(end[0]), parse_u32_spec(end[1])) {
                (Some(a), Some(b), Some(c), Some(d)) => Some((a, b, c, d)),
                _ => None,
            }
        }
    }
}

/// Parse an "HH:MM-HH:MM" active hours window.
pub fn parse_active_hours(s: &str) -> (r: Option<(u32, u32, u32, u32)>)
    ensures
        r == hours_window(s@),
{
    let v = chars_of(s);
    let parts = split_chars(&v, '-');
    if parts.len() != 2 {
        return None;
    }
    let a = trimmed(&parts[0], 0, parts[0].len());
    let b = trimmed(&parts[1], 0, parts[1].len());
    proof {
        assert(parts[0]@.subrange(0, parts[0]@.len() as int) =~= parts[0]@);
        assert(parts[1]@.subrange(0, parts[1]@.len() as int) =~= parts[1]@);
    }
    let start = split_chars(&a, ':');
    let end = split_chars(&b, ':');
    if start.len() != 2 || end.len() != 2 {
        return None;
    }
    let sh = parse_u32(&start[0]);
    let sm = parse_u32(&start[1]);
    let eh = parse_u32(&end[0]);
    let em = parse_u32(&end[1]);
    match (sh, sm, eh, em) {
        (Some(w), Some(x), Some(y), Some(z)) => Some((w, x, y, z)),
        _ => None,
    }
}

/// The window contains the wall-clock minute `hour:minute`. A window whose
/// start is after its end runs overnight.
pub open spec fn in_window(w: (u32, u32, u32, u32), hour: u32, minute: u32) -> bool {
    let current = hour * 60 + minute;
    let start = w.0 * 60 + w.1;
    let end = w.2 * 60 + w.3;
    if start <= end {
        current >= start && current < end
    } else {
        current >= start || current < end
    }
}

/// The window's start and end, as minutes, fit in 32 bits, the width of
/// the minute arithmetic.
pub open spec fn window_fits(s: Seq<char>) -> bool {
    match hours_window(s) {
        Some(w) => w.0 * 60 + w.1 <= u32::MAX && w.2 * 60 + w.3 <= u32::MAX,
        None => true,
    }
}

/// The answer for a window text at `hour:minute`: in the window, or `true`
/// when the text is not a window.
pub open spec fn window_answer(s: Seq<char>, hour: u32, minute: u32) -> bool {
    match hours_window(s) {
        Some(w) => in_window(w, hour, minute),
        None => true,
    }
}

/// Whether the local wall-clock time `hour:minute`, read by the caller, lies
/// in the active-hours window; a window that does not parse never blocks.
pub fn is_within_active_hours(active_hours: &str, hour: u32, minute: u32) -> (r: bool)
    requires
        window_fits(active_hours@),
        hour < 24,
        minute < 60,
    ensures
        r == window_answer(active_hours@, hour, minute),
{
    match parse_active_hours(active_hours) {
        None => true,
        Some((sh, sm, eh, em)) => {
            let current = hour * 60 + minute;
            let start = sh * 60 + sm;
            let end = eh * 60 + em;
            if start <= end {
                current >= start && current < end
            } else {
                current >= start || current < end
            }
        },
    }
}

/// Heartbeat configuration.
#[derive(Debug, Clone)]
pub struct HeartbeatConfig {
    pub enabled: bool,
    /// Interval between ticks, such as "30m".
    pub interval: String,
    /// File name of the checklist inside the workspace.
    pub checklist: String,
    pub report_to: Option<String>,
    /// Optional "HH:MM-HH:MM" window outside which ticks are skipped.
    pub active_hours: Option<String>,
}

/// What the first part of a tick decides.
#[derive(Debug, Clone, Copy, PartialEq, Eq, Structural)]
pub enum TickStep {
    /// Nothing to do this tick.
    Skip,
    /// Remove the `HEARTBEAT_OK` marker and skip this tick.
    RemoveOkMarker,
    /// Read the checklist.
    ReadChecklist,
}

/// How an attempt to hand the message to the agent ended.
#[derive(Debug, Clone, Copy, PartialEq, Eq, Structural)]
pub enum SendOutcome {
    Sent,
    /// The previous heartbeat is still being processed.
    Full,
    /// Nobody listens any more.
    Closed,
}

/// A synthetic inbound message for the agent.
#[derive(Debug, Clone)]
pub struct HeartbeatMessage {
    pub id: String,
    pub channel: String,
    pub chat_id: String,
    pub user_id: String,
    pub username: Option<String>,
    pub text: Option<String>,
    pub attachments: Vec<String>,
    pub reply_to: Option<String>,
    /// Seconds since the Unix epoch.
    pub timestamp: i64,
}

/// Heartbeat runner: produces synthetic agent messages on a timer.
pub struct HeartbeatRunner {
    config: HeartbeatConfig,
    workspace_path: PathBuf,
    chat_id: String,
}

pub open spec fn heartbeat_prefix() -> Seq<char> {
    "HEARTBEAT \u{2014} You are running autonomously. Review your task checklist below and take action on any pending items. Use tools to execute tasks. When all tasks are done or you need to wait, write 'HEARTBEAT_OK' to the file HEARTBEAT_OK in your workspace to skip the next heartbeat cycle.\n\n---\n\n"@
}

pub open spec fn heartbeat_suffix() -> Seq<char> {
    "\n\n---\n\nInstructions:\n- Execute the next pending task (marked with `- [ ]`)\n- Mark completed tasks with `- [x]` by rewriting the checklist\n- If all tasks are done, write HEARTBEAT_OK to pause\n- If a task fails, note the error and move to the next one\n- Be concise in responses \u{2014} this is autonomous execution"@
}

/// The synthetic message text: fixed instructions around the checklist.
pub open spec fn heartbeat_text(checklist: Seq<char>) -> Seq<char> {
    heartbeat_prefix() + checklist + heartbeat_suffix()
}

/// The message id "heartbeat-<timestamp>".
pub open spec fn heartbeat_id(timestamp: int) -> Seq<char> {
    "heartbeat-"@ + signed_decimal(timestamp)
}

impl HeartbeatRunner {
    pub closed spec fn config_of(&self) -> HeartbeatConfig {
        self.config
    }

    pub closed spec fn workspace_of(&self) -> PathBuf {
        self.workspace_path
    }

    pub closed spec fn chat_id_of(&self) -> Seq<char> {
        self.chat_id@
    }

    pub fn new(config: HeartbeatConfig, workspace_path: PathBuf, chat_id: String) -> (r: Self)
        ensures
            r.config_of() == config,
            r.workspace_of() == workspace_path,
            r.chat_id_of() == chat_id@,
    {
        HeartbeatRunner { config, workspace_path, chat_id }
    }

    /// The configuration.
    pub fn config(&self) -> (c: &HeartbeatConfig)
        ensures
            *c == self.config_of(),
    {
        &self.config
    }

    /// The workspace holding the checklist and the marker.
    pub fn workspace_path(&self) -> (p: &PathBuf)
        ensures
            *p == self.workspace_of(),
    {
        &self.workspace_path
    }

    /// The chat the heartbeat messages are attributed to.
    pub fn chat_id(&self) -> (c: &str)
        ensures
            c@ == self.chat_id_of(),
    {
        self.chat_id.as_str()
    }

    /// Whether a tick at the local wall-clock time `hour:minute` falls in the
    /// active hours: always without a window, else the window's answer.
    pub fn active_at(&self, hour: u32, minute: u32) -> (r: bool)
        requires
            self.config_of().active_hours matches Some(w) ==> window_fits(w@),
            hour < 24,
            minute < 60,
        ensures
            r == match self.config_of().active_hours {
                None => true,
                Some(w) => window_answer(w@, hour, minute),
            },
    {
        match &self.config.active_hours {
            None => true,
            Some(w) => is_within_active_hours(w.as_str(), hour, minute),
        }
    }

    /// The message a tick sends at `now` (seconds since the epoch) with the
    /// checklist `checklist` (missing when it could not be read): nothing when
    /// the checklist is missing or blank, else a message on the "heartbeat"
    /// channel for this runner's chat, from user "system", with no user name,
    /// attachment or reply, whose text wraps the checklist.
    pub fn tick_message(&self, checklist: Option<&str>, now: i64) -> (m: Option<HeartbeatMessage>)
        ensures
            m is None <==> (checklist is None || trim(checklist.unwrap()@).len() == 0),
            m matches Some(msg) ==> {
                &&& checklist matches Some(c) && msg.text matches Some(t) && t@ == heartbeat_text(c@)
                &&& msg.id@ == heartbeat_id(now as int)
                &&& msg.channel@ == "heartbeat"@
                &&& msg.chat_id@ == self.chat_id_of()
                &&& msg.user_id@ == "system"@
                &&& msg.username is None
                &&& msg.attachments@.len() == 0
                &&& msg.reply_to is None
                &&& msg.timestamp == now
            },
    {
        match checklist_message(checklist) {
            None => None,
            Some(text) => Some(HeartbeatMessage {
                id: heartbeat_message_id(now),
                channel: "heartbeat".to_owned(),
                chat_id: self.chat_id.clone(),
                user_id: "system".to_owned(),
                username: None,
                text: Some(text),
                attachments: Vec::new(),
                reply_to: None,
                timestamp: now,
            }),
        }
    }
}

/// The first decision of a tick.
pub open spec fn tick_step_spec(in_window: bool, ok_marker_present: bool) -> TickStep {
    if !in_window {
        TickStep::Skip
    } else if ok_marker_present {
        TickStep::RemoveOkMarker
    } else {
        TickStep::ReadChecklist
    }
}

/// The first decision of a tick: skip outside the window; a present marker
/// is removed instead of sending; otherwise read the checklist.
pub fn tick_step(in_window: bool, ok_marker_present: bool) -> (s: TickStep)
    ensures
        s == tick_step_spec(in_window, ok_marker_present),
{
    if !in_window {
        TickStep::Skip
    } else if ok_marker_present {
        TickStep::RemoveOkMarker
    } else {
        TickStep::ReadChecklist
    }
}

/// Whether a text holds only white space.
fn blank(s: &str) -> (b: bool)
    ensures
        b == (trim(s@).len() == 0),
{
    let v = chars_of(s);
    let t = trimmed(&v, 0, v.len());
    assert(v@.subrange(0, v@.len() as int) =~= v@);
    t.len() == 0
}

/// The message for a checklist read (`None` when it could not be read):
/// nothing for a missing or blank checklist, else the heartbeat text.
pub fn checklist_message(checklist: Option<&str>) -> (m: Option<String>)
    ensures
        m matches Some(t) ==> checklist matches Some(c) && t@ == heartbeat_text(c@),
        m is None <==> (checklist is None || trim(checklist.unwrap()@).len() == 0),
{
    match checklist {
        None => None,
        Some(c) => {
            if blank(c) {
                None
            } else {
                let mut out = String::new();
                push_str(&mut out, "HEARTBEAT \u{2014} You are running autonomously. Review your task checklist below and take action on any pending items. Use tools to execute tasks. When all tasks are done or you need to wait, write 'HEARTBEAT_OK' to the file HEARTBEAT_OK in your workspace to skip the next heartbeat cycle.\n\n---\n\n");
                push_str(&mut out, c);
                push_str(&mut out, "\n\n---\n\nInstructions:\n- Execute the next pending task (marked with `- [ ]`)\n- Mark completed tasks with `- [x]` by rewriting the checklist\n- If all tasks are done, write HEARTBEAT_OK to pause\n- If a task fails, note the error and move to the next one\n- Be concise in responses \u{2014} this is autonomous execution");
                assert(out@ =~= heartbeat_text(c@));
                Some(out)
            }
        },
    }
}

/// The id of the message sent at `timestamp` (seconds since the epoch).
pub fn heartbeat_message_id(timestamp: i64) -> (r: String)
    ensures
        r@ == heartbeat_id(timestamp as int),
{
    let mut out = String::new();
    push_str(&mut out, "heartbeat-");
    push_signed_decimal(&mut out, timestamp);
    assert(out@ =~= heartbeat_id(timestamp as int));
    out
}

/// Whether the heartbeat keeps running after a send attempt: a full channel
/// only skips the tick, a closed one stops the heartbeat.
pub fn keeps_running(outcome: SendOutcome) -> (b: bool)
    ensures
        b == (outcome != SendOutcome::Closed),
{
    match outcome {
        SendOutcome::Sent => true,
        SendOutcome::Full => true,
        SendOutcome::Closed => false,
    }
}

/// Outside the active-hours window a tick does nothing, whether or not
/// the marker is present; inside it, a present marker is removed instead of
/// sending, and only without a marker is the checklist read.
pub proof fn law_tick_outside_window_does_nothing(in_window: bool, ok_marker_present: bool)
    ensures
        !in_window ==> tick_step_spec(in_window, ok_marker_present) == TickStep::Skip,
        (tick_step_spec(in_window, ok_marker_present) == TickStep::ReadChecklist) <==> (in_window && !ok_marker_present),
        (tick_step_spec(in_window, ok_marker_present) == TickStep::RemoveOkMarker) <==> (in_window && ok_marker_present),
{
}

/// A window and the window running the other way round (its end to its
/// start) split the day: when start and end differ, every minute lies in
/// exactly one of them. An empty window (start equal to end) holds no minute.
pub proof fn law_window_and_reverse_split_the_day(w: (u32, u32, u32, u32), hour: u32, minute: u32)
    ensures
        (w.0 * 60 + w.1 != w.2 * 60 + w.3) ==> in_window(w, hour, minute) != in_window((w.2, w.3, w.0, w.1), hour, minute),
        (w.0 * 60 + w.1 == w.2 * 60 + w.3) ==> !in_window(w, hour, minute),
{
}

/// Seconds per unit of an interval: `s`, `m`, `h` or `d`.
pub open spec fn unit_seconds(c: char) -> Option<nat> {
    if c == 's' {
        Some(1)
    } else if c == 'm' {
        Some(60)
    } else if c == 'h' {
        Some(3600)
    } else if c == 'd' {
        Some(86400)
    } else {
        None
    }
}

/// An interval "<count><unit>" (such as "30m"), white space around it
/// ignored, in seconds, when it fits in 64 bits.
pub open spec fn interval_seconds(s: Seq<char>) -> Option<u64> {
    let t = trim(s);
    if t.len() >= 2 && all_digits(t.drop_last()) && unit_seconds(t.last()) is Some
        && digits_value(t.drop_last()) * unit_seconds(t.last()).unwrap() <= u64::MAX {
        Some((digits_value(t.drop_last()) * unit_seconds(t.last()).unwrap()) as u64)
    } else {
        None
    }
}

/// The tick interval in seconds: the configured interval, or 30 minutes
/// when it cannot be read.
pub fn interval_secs(interval: &str) -> (secs: u64)
    ensures
        secs == match interval_seconds(interval@) {
            Some(n) => n,
            None => 1800,
        },
{
    let v = chars_of(interval);
    let t = trimmed(&v, 0, v.len());
    assert(v@.subrange(0, v@.len() as int) =~= v@);
    if t.len() < 2 {
        return 1800;
    }
    let unit = t[t.len() - 1];
    let factor: u64 = if unit == 's' {
        1
    } else if unit == 'm' {
        60
    } else if unit == 'h' {
        3600
    } else if unit == 'd' {
        86400
    } else {
        return 1800;
    };
    let ghost d = t@.drop_last();
    let mut value: u64 = 0;
    let mut i: usize = 0;
    while i < t.len() - 1
        invariant
            t@.len() >= 2,
            t@ == trim(interval@),
            unit_seconds(t@.last()) is Some,
            d == t@.drop_last(),
            i <= d.len(),
            all_digits(d.take(i as int)),
            value as nat == digits_value(d.take(i as int)),
            factor == unit_seconds(t@.last()).unwrap(),
            1 <= factor <= 86400,
        decreases d.len() - i,
    {
        let c = t[i];
        assert(c == d[i as int]);
        if !('0' <= c && c <= '9') {
            proof {
                assert(!is_digit(d[i as int]));
                assert(!all_digits(d));
            }
            return 1800;
        }
        let digit: u64 = (c as u64) - ('0' as u64);
        assert(d.take(i + 1).drop_last() =~= d.take(i as int));
        if value > (u64::MAX - digit) / 10 {
            proof {
                let p = d.take(i + 1);
                assert(digits_value(p) > u64::MAX) by (nonlinear_arith)
                    requires
                        digits_value(p) == value * 10 + digit,
                        value > (u64::MAX - digit) / 10,
                        digit <= 9,
                ;
                if all_digits(d) {
                    lemma_digits_prefix_le(d, i + 1);
                    assert(digits_value(d) * factor >= digits_value(d)) by (nonlinear_arith)
                        requires factor >= 1;
                }
            }
            return 1800;
        }
        value = value * 10 + digit;
        i = i + 1;
        assert(all_digits(d.take(i as int)));
    }
    assert(d.take(d.len() as int) =~= d);
    if value > u64::MAX / factor {
        proof {
            assert(value * factor > u64::MAX) by (nonlinear_arith)
                requires
                    value > u64::MAX / factor,
                    factor >= 1;
        }
        return 1800;
    }
    assert(value * factor <= u64::MAX) by (nonlinear_arith)
        requires
            value <= u64::MAX / factor,
            factor >= 1;
    value * factor
}

} // verus!
