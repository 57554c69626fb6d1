//! Perpetuum: data types of the always-on runtime (concerns, monitors,
//! schedules, temporal context) and the initiative cycle's guardrails.
use vstd::prelude::*;
use vstd::string::*;
use crate::text::{chars_of, joined, push_str};
use serde_json::Value;
use std::time::Duration;
use std::sync::Arc;

verus! {

/// `Duration::clone`: `Duration` is `Copy`, so the clone is the same value.
pub assume_specification[ <Duration as Clone>::clone ](d: &Duration) -> (r: Duration)
    ensures
        r == *d,
;

/// Signal sent when a parked task should resume.
#[derive(Debug)]
pub struct ResumeSignal {
    pub result: Option<String>,
}

/// The next scheduled event and how long until it happens.
#[derive(Debug, Clone)]
pub struct NextEvent {
    pub name: String,
    pub eta: Duration,
}

/// How a monitor reads its target.
#[derive(Debug, Clone)]
pub enum MonitorCheck {
    Web { url: String, selector: Option<String>, extract: ExtractMode },
    Command { command: String, working_dir: Option<String> },
    File { path: String },
}

/// Which part of a web page a monitor extracts.
#[derive(Debug, Clone)]
pub enum ExtractMode {
    FullText,
    Selector,
    JsonPath(String),
}

/// An interpretation of a monitor check result.
#[derive(Debug, Clone)]
pub struct Interpretation {
    pub relevant: bool,
    pub urgency: Urgency,
    pub notify: bool,
    pub summary: Option<String>,
}

/// How urgent a monitor finding is.
#[derive(Debug, Clone, Copy, PartialEq, Eq, Structural)]
pub enum Urgency {
    Low,
    Medium,
    High,
    Critical,
}

/// A review of a concern's schedule.
#[derive(Debug, Clone)]
pub struct ScheduleReview {
    pub action: String,
    pub new_interval_secs: Option<u64>,
    pub reasoning: String,
    pub user_recommendation: Option<String>,
}

/// A proactive notification to a chat.
#[derive(Debug, Clone)]
pub struct VolitionNotification {
    pub chat_id: String,
    pub message: String,
}

/// The content a monitor read, with its hash.
#[derive(Debug, Clone)]
pub struct CheckResult {
    pub content: String,
    pub content_hash: String,
}

/// How much temporal context is injected into model calls.
#[derive(Debug, Clone, Copy, PartialEq, Eq, Structural)]
pub enum InjectionDepth {
    /// Time and state only.
    Minimal,
    /// Also concerns and the next event.
    Standard,
    /// Everything, including parked tasks and the user's activity pattern.
    Full,
}

/// Whether the characters of `v` are exactly `word`.
fn equals_word(v: &Vec<char>, word: &[char]) -> (b: bool)
    ensures
        b == (v@ == word@),
{
    if v.len() != word.len() {
        return false;
    }
    let mut i: usize = 0;
    while i < v.len()
        invariant
            v@.len() == word@.len(),
            i <= v@.len(),
            forall|t: int| 0 <= t < i ==> v@[t] == word@[t],
        decreases v@.len() - i,
    {
        if v[i] != word[i] {
            return false;
        }
        i = i + 1;
    }
    assert(v@ =~= word@);
    true
}

/// The depth named by `s`: "minimal" and "full" name theirs, anything else
/// is Standard.
pub open spec fn depth_named(s: Seq<char>) -> InjectionDepth {
    if s == "minimal"@ {
        InjectionDepth::Minimal
    } else if s == "full"@ {
        InjectionDepth::Full
    } else {
        InjectionDepth::Standard
    }
}

impl InjectionDepth {
    /// Read a depth from its name; unknown names give Standard.
    pub fn parse(s: &str) -> (d: Self)
        ensures
            d == depth_named(s@),
    {
        let v = chars_of(s);
        let minimal = ['m', 'i', 'n', 'i', 'm', 'a', 'l'];
        let full = ['f', 'u', 'l', 'l'];
        proof {
            reveal_strlit("minimal");
            reveal_strlit("full");
            assert(minimal@ =~= "minimal"@);
            assert(full@ =~= "full"@);
        }
        if equals_word(&v, &minimal) {
            InjectionDepth::Minimal
        } else if equals_word(&v, &full) {
            InjectionDepth::Full
        } else {
            InjectionDepth::Standard
        }
    }
}

/// A JSON document, as the initiative model writes it. Numbers keep their
/// literal text; an object keeps its members in order.
#[derive(Debug)]
pub enum JsonValue {
    Null,
    Bool(bool),
    Number(String),
    Str(String),
    Array(Vec<JsonValue>),
    Object(Vec<(String, JsonValue)>),
}

/// One level of a JSON document: scalars as they are, and the items and
/// member values of arrays and objects as JSON texts of their own.
#[derive(Debug)]
pub enum JsonNode {
    Null,
    Bool(bool),
    Number(String),
    Str(String),
    Array(Vec<String>),
    Object(Vec<(String, String)>),
}

/// The mathematical content of a [`JsonNode`].
pub enum JsonNodeView {
    Null,
    Bool(bool),
    Number(Seq<char>),
    Str(Seq<char>),
    Array(Seq<Seq<char>>),
    Object(Seq<(Seq<char>, Seq<char>)>),
}

impl View for JsonNode {
    type V = JsonNodeView;

    open spec fn view(&self) -> JsonNodeView {
        match self {
            JsonNode::Null => JsonNodeView::Null,
            JsonNode::Bool(b) => JsonNodeView::Bool(*b),
            JsonNode::Number(n) => JsonNodeView::Number(n@),
            JsonNode::Str(t) => JsonNodeView::Str(t@),
            JsonNode::Array(xs) => JsonNodeView::Array(xs@.map_values(|x: String| x@)),
            JsonNode::Object(es) => JsonNodeView::Object(es@.map_values(|e: (String, String)| (e.0@, e.1@))),
        }
    }
}

/// What serde_json reads from a text: the top level of the document, with
/// nested values as the JSON text serde_json writes for them; nothing when
/// the text is not JSON.
pub uninterp spec fn json_node(text: Seq<char>) -> Option<JsonNodeView>;

/// Calls `serde_json::from_str` for a `serde_json::Value` and takes the top
/// level apart, one arm per variant, writing nested values back with their
/// `to_string`. The contract claims only that the result is the named
/// [`json_node`] of the text, a function of the text alone.
#[verifier::external_body]
fn parse_node(text: &str) -> (r: Option<JsonNode>)
    ensures
        match r {
            Some(n) => json_node(text@) == Some(n@),
            None => json_node(text@) is None,
        },
{
    match serde_json::from_str::<Value>(text) {
        Err(_) => None,
        Ok(Value::Null) => Some(JsonNode::Null),
        Ok(Value::Bool(b)) => Some(JsonNode::Bool(b)),
        Ok(Value::Number(n)) => Some(JsonNode::Number(n.to_string())),
        Ok(Value::String(t)) => Some(JsonNode::Str(t)),
        Ok(Value::Array(xs)) => Some(JsonNode::Array(xs.iter().map(|x| x.to_string()).collect())),
        Ok(Value::Object(m)) => Some(JsonNode::Object(m.iter().map(|(k, v)| (k.clone(), v.to_string())).collect())),
    }
}

/// `text` reads as the document `v`, nested at most `depth` levels deep.
pub open spec fn parses_to(text: Seq<char>, v: JsonValue, depth: nat) -> bool
    decreases depth,
{
    depth > 0 && match json_node(text) {
        None => false,
        Some(n) => match (n, v) {
            (JsonNodeView::Null, JsonValue::Null) => true,
            (JsonNodeView::Bool(a), JsonValue::Bool(b)) => a == b,
            (JsonNodeView::Number(a), JsonValue::Number(b)) => a == b@,
            (JsonNodeView::Str(a), JsonValue::Str(b)) => a == b@,
            (JsonNodeView::Array(ts), JsonValue::Array(xs)) => ts.len() == xs@.len() && forall|i: int|
                0 <= i < ts.len() ==> parses_to(ts[i], #[trigger] xs@[i], (depth - 1) as nat),
            (JsonNodeView::Object(es), JsonValue::Object(ms)) => es.len() == ms@.len() && forall|i: int|
                0 <= i < es.len() ==> (#[trigger] ms@[i]).0@ == es[i].0 && parses_to(es[i].1, ms@[i].1, (depth - 1) as nat),
            _ => false,
        },
    }
}

/// Read a JSON document nested at most `depth` levels deep: the document the
/// text reads as, or nothing when there is none.
pub fn parse_json(text: &str, depth: usize) -> (r: Option<JsonValue>)
    ensures
        r matches Some(v) ==> parses_to(text@, v, depth as nat),
        r is None ==> forall|v: JsonValue| !parses_to(text@, v, depth as nat),
    decreases depth,
{
    if depth == 0 {
        return None;
    }
    let node = parse_node(text);
    match node {
        None => None,
        Some(JsonNode::Null) => Some(JsonValue::Null),
        Some(JsonNode::Bool(b)) => Some(JsonValue::Bool(b)),
        Some(JsonNode::Number(n)) => Some(JsonValue::Number(n)),
        Some(JsonNode::Str(t)) => Some(JsonValue::Str(t)),
        Some(JsonNode::Array(items)) => {
            let ghost ts = items@.map_values(|x: String| x@);
            let mut xs: Vec<JsonValue> = Vec::new();
            let mut i: usize = 0;
            while i < items.len()
                invariant
                    depth > 0,
                    i <= items@.len(),
                    ts == items@.map_values(|x: String| x@),
                    json_node(text@) == Some(JsonNodeView::Array(ts)),
                    xs@.len() == i,
                    forall|k: int| 0 <= k < i ==> parses_to(ts[k], #[trigger] xs@[k], (depth - 1) as nat),
                decreases items@.len() - i,
            {
                match parse_json(items[i].as_str(), depth - 1) {
                    None => {
                        proof {
                            assert forall|v: JsonValue| !parses_to(text@, v, depth as nat) by {
                                if parses_to(text@, v, depth as nat) {
                                    if let JsonValue::Array(ys) = v {
                                        assert(parses_to(ts[i as int], ys@[i as int], (depth - 1) as nat));
                                    }
                                }
                            }
                        }
                        return None;
                    },
                    Some(x) => {
                        xs.push(x);
                    },
                }
                i = i + 1;
            }
            Some(JsonValue::Array(xs))
        },
        Some(JsonNode::Object(members)) => {
            let ghost es = members@.map_values(|e: (String, String)| (e.0@, e.1@));
            let mut ms: Vec<(String, JsonValue)> = Vec::new();
            let mut i: usize = 0;
            while i < members.len()
                invariant
                    depth > 0,
                    i <= members@.len(),
                    es == members@.map_values(|e: (String, String)| (e.0@, e.1@)),
                    json_node(text@) == Some(JsonNodeView::Object(es)),
                    ms@.len() == i,
                    forall|k: int| 0 <= k < i ==> (#[trigger] ms@[k]).0@ == es[k].0 && parses_to(es[k].1, ms@[k].1, (depth - 1) as nat),
                decreases members@.len() - i,
            {
                match parse_json(members[i].1.as_str(), depth - 1) {
                    None => {
                        proof {
                            assert forall|v: JsonValue| !parses_to(text@, v, depth as nat) by {
                                if parses_to(text@, v, depth as nat) {
                                    if let JsonValue::Object(ys) = v {
                                        assert(parses_to(es[i as int].1, ys@[i as int].1, (depth - 1) as nat));
                                    }
                                }
                            }
                        }
                        return None;
                    },
                    Some(x) => {
                        ms.push((members[i].0.clone(), x));
                    },
                }
                i = i + 1;
            }
            Some(JsonValue::Object(ms))
        },
    }
}

/// A concern the initiative cycle asks to create.
#[derive(Debug)]
pub struct VolitionConcernCreate {
    pub concern_type: String,
    pub name: String,
    pub config: JsonValue,
}

/// What one initiative cycle decided.
#[derive(Debug)]
pub struct VolitionDecision {
    pub create_concerns: Vec<VolitionConcernCreate>,
    pub cancel_concerns: Vec<String>,
    pub notifications: Vec<VolitionNotification>,
    pub state_recommendation: Option<String>,
    pub internal_notes: Vec<String>,
}

/// The initiative system: decides, once per cycle, what Tem should do
/// proactively. `caller` asks the model, `store` keeps the notes between
/// cycles; at most `max_actions_per_cycle` concerns are created and at most
/// as many cancelled per cycle.
pub struct Volition<C, S> {
    caller: Arc<C>,
    store: Arc<S>,
    max_actions_per_cycle: usize,
}

/// The creations without any attempt to create an initiative concern.
pub open spec fn without_initiatives(cs: Seq<VolitionConcernCreate>) -> Seq<VolitionConcernCreate>
    decreases cs.len(),
{
    if cs.len() == 0 {
        cs
    } else if cs.last().concern_type@ == "initiative"@ {
        without_initiatives(cs.drop_last())
    } else {
        without_initiatives(cs.drop_last()).push(cs.last())
    }
}

/// The note recorded when the model's answer could not be read.
pub open spec fn unreadable_answer_note() -> Seq<char> {
    "Failed to parse initiative response"@
}

/// `d` is the decision `p` after the guardrails: both action lists cut to
/// `max`, then every attempt to create an initiative concern dropped; the
/// notifications, the state recommendation and the notes kept as they are.
pub open spec fn guarded(d: VolitionDecision, p: VolitionDecision, max: nat) -> bool {
    &&& d.create_concerns@ == without_initiatives(at_most(p.create_concerns@, max))
    &&& d.cancel_concerns@ == at_most(p.cancel_concerns@, max)
    &&& d.notifications@ == p.notifications@
    &&& d.state_recommendation == p.state_recommendation
    &&& d.internal_notes@ == p.internal_notes@
}

/// `d` is the empty decision with one note saying the answer was unreadable.
pub open spec fn unreadable_decision(d: VolitionDecision) -> bool {
    &&& d.create_concerns@.len() == 0
    &&& d.cancel_concerns@.len() == 0
    &&& d.notifications@.len() == 0
    &&& d.state_recommendation is None
    &&& d.internal_notes@.len() == 1
    &&& d.internal_notes@[0]@ == unreadable_answer_note()
}

/// The first `n` elements of `s` (all of them if there are fewer).
pub open spec fn at_most<A>(s: Seq<A>, n: nat) -> Seq<A> {
    if n < s.len() {
        s.take(n as int)
    } else {
        s
    }
}

impl<C, S> Volition<C, S> {
    pub closed spec fn max_actions(&self) -> nat {
        self.max_actions_per_cycle as nat
    }

    pub closed spec fn caller_of(&self) -> Arc<C> {
        self.caller
    }

    pub closed spec fn store_of(&self) -> Arc<S> {
        self.store
    }

    pub fn new(caller: Arc<C>, store: Arc<S>, max_actions: usize) -> (v: Self)
        ensures
            v.caller_of() == caller,
            v.store_of() == store,
            v.max_actions() == max_actions,
    {
        Volition { caller, store, max_actions_per_cycle: max_actions }
    }

    /// The model caller.
    pub fn caller(&self) -> (c: &Arc<C>)
        ensures
            *c == self.caller_of(),
    {
        &self.caller
    }

    /// The note store.
    pub fn store(&self) -> (s: &Arc<S>)
        ensures
            *s == self.store_of(),
    {
        &self.store
    }

    /// The decision of a cycle from the model's answer (`None` when it could
    /// not be read, which yields an empty decision with one note saying so),
    /// with the guardrails applied: both action lists are cut to the per-cycle
    /// maximum, then every attempt to create an initiative concern is
    /// dropped. Notifications, the state recommendation and the notes are
    /// kept as they are.
    pub fn finish_cycle(&self, parsed: Option<VolitionDecision>) -> (d: VolitionDecision)
        ensures
            parsed matches Some(p) ==> guarded(d, p, self.max_actions()),
            parsed is None ==> unreadable_decision(d),
    {
        let decision = match parsed {
            Some(p) => p,
            None => {
                let mut notes: Vec<String> = Vec::new();
                notes.push("Failed to parse initiative response".to_owned());
                VolitionDecision {
                    create_concerns: Vec::new(),
                    cancel_concerns: Vec::new(),
                    notifications: Vec::new(),
                    state_recommendation: None,
                    internal_notes: notes,
                }
            },
        };
        let VolitionDecision {
            create_concerns: mut creates,
            cancel_concerns: mut cancels,
            notifications,
            state_recommendation,
            internal_notes,
        } = decision;
        let ghost creates0 = creates@;
        let ghost cancels0 = cancels@;
        creates.truncate(self.max_actions_per_cycle);
        cancels.truncate(self.max_actions_per_cycle);
        assert(creates@ =~= at_most(creates0, self.max_actions()));
        assert(cancels@ =~= at_most(cancels0, self.max_actions()));
        let ghost all = creates@;
        let mut kept: Vec<VolitionConcernCreate> = Vec::new();
        for c in it: creates
            invariant
                it.seq() == all,
                kept@ == without_initiatives(all.take(it.index() as int)),
        {
            proof {
                assert(all.take(it.index() + 1).drop_last() =~= all.take(it.index() as int));
            }
            let initiative = ['i', 'n', 'i', 't', 'i', 'a', 't', 'i', 'v', 'e'];
            proof {
                reveal_strlit("initiative");
                assert(initiative@ =~= "initiative"@);
            }
            let ct = chars_of(c.concern_type.as_str());
            if !equals_word(&ct, &initiative) {
                kept.push(c);
            }
        }
        assert(all.take(all.len() as int) =~= all);
        VolitionDecision {
            create_concerns: kept,
            cancel_concerns: cancels,
            notifications,
            state_recommendation,
            internal_notes,
        }
    }
}

/// A concern as the initiative cycle sees it. Times are seconds since the
/// Unix epoch.
#[derive(Debug, Clone)]
pub struct ConcernSummary {
    pub id: String,
    pub concern_type: String,
    pub name: String,
    pub source: String,
    pub state: String,
    pub schedule_desc: Option<String>,
    pub last_fired: Option<i64>,
    pub next_fire: Option<i64>,
}

/// "- [id] name (type) source=source schedule", the schedule being "once"
/// when the concern has none.
pub open spec fn concern_line(c: ConcernSummary) -> Seq<char> {
    "- ["@ + c.id@ + "] "@ + c.name@ + " ("@ + c.concern_type@ + ") source="@ + c.source@ + " "@ + match c.schedule_desc {
        Some(d) => d@,
        None => "once"@,
    }
}

/// One line per concern, or a sentence saying there are none.
pub open spec fn concerns_text(cs: Seq<ConcernSummary>) -> Seq<char> {
    if cs.len() == 0 {
        "No active concerns."@
    } else {
        joined(cs.map_values(|c: ConcernSummary| concern_line(c)), "\n"@)
    }
}

/// One "- note" line per note, or a sentence saying there are none.
pub open spec fn notes_text(ns: Seq<String>) -> Seq<char> {
    if ns.len() == 0 {
        "No previous notes."@
    } else {
        joined(ns.map_values(|n: String| "- "@ + n@), "\n"@)
    }
}

/// The prompt of an initiative cycle: the temporal context, the concerns,
/// the previous notes and the question to think about.
pub open spec fn cycle_prompt(temporal: Seq<char>, cs: Seq<ConcernSummary>, ns: Seq<String>) -> Seq<char> {
    temporal + "\n\nActive concerns:\n"@ + concerns_text(cs) + "\n\nYour previous notes:\n"@ + notes_text(ns)
        + "\n\nThink about what Tem should be doing proactively right now. Consider: Are any concerns stale? Should new monitors be created based on recent context? Should the user be notified about anything? Any observations to remember?"@
}

fn push_concern_line(out: &mut String, c: &ConcernSummary)
    ensures
        final(out)@ == old(out)@ + concern_line(*c),
{
    push_str(out, "- [");
    push_str(out, c.id.as_str());
    push_str(out, "] ");
    push_str(out, c.name.as_str());
    push_str(out, " (");
    push_str(out, c.concern_type.as_str());
    push_str(out, ") source=");
    push_str(out, c.source.as_str());
    push_str(out, " ");
    match &c.schedule_desc {
        Some(d) => push_str(out, d.as_str()),
        None => push_str(out, "once"),
    }
    assert(final(out)@ =~= old(out)@ + concern_line(*c));
}

proof fn lemma_joined_push(ns: Seq<Seq<char>>, x: Seq<char>, sep: Seq<char>)
    ensures
        joined(ns.push(x), sep) == if ns.len() == 0 { x } else { joined(ns, sep) + sep + x },
{
    assert(ns.push(x).drop_last() =~= ns);
}

/// Build the prompt of an initiative cycle from the formatted temporal
/// context, the active concerns and the previous cycle's notes.
pub fn build_prompt(temporal: &str, concerns: &Vec<ConcernSummary>, prev_notes: &Vec<String>) -> (p: String)
    ensures
        p@ == cycle_prompt(temporal@, concerns@, prev_notes@),
{
    let mut out = String::new();
    push_str(&mut out, temporal);
    push_str(&mut out, "\n\nActive concerns:\n");
    let ghost base = out@;
    if concerns.len() == 0 {
        push_str(&mut out, "No active concerns.");
    } else {
        let mut i: usize = 0;
        while i < concerns.len()
            invariant
                i <= concerns@.len(),
                out@ == base + joined(concerns@.take(i as int).map_values(|c: ConcernSummary| concern_line(c)), "\n"@),
            decreases concerns@.len() - i,
        {
            let ghost prev = concerns@.take(i as int).map_values(|c: ConcernSummary| concern_line(c));
            proof {
                assert(concerns@.take(i + 1).map_values(|c: ConcernSummary| concern_line(c)) =~= prev.push(
                    concern_line(concerns@[i as int]),
                ));
                lemma_joined_push(prev, concern_line(concerns@[i as int]), "\n"@);
            }
            if i > 0 {
                push_str(&mut out, "\n");
            }
            push_concern_line(&mut out, &concerns[i]);
            i = i + 1;
            assert(out@ =~= base + joined(concerns@.take(i as int).map_values(|c: ConcernSummary| concern_line(c)), "\n"@));
        }
        assert(concerns@.take(concerns@.len() as int) =~= concerns@);
    }
    push_str(&mut out, "\n\nYour previous notes:\n");
    let ghost base2 = out@;
    if prev_notes.len() == 0 {
        push_str(&mut out, "No previous notes.");
    } else {
        let mut i: usize = 0;
        while i < prev_notes.len()
            invariant
                i <= prev_notes@.len(),
                out@ == base2 + joined(prev_notes@.take(i as int).map_values(|n: String| "- "@ + n@), "\n"@),
            decreases prev_notes@.len() - i,
        {
            let ghost prev = prev_notes@.take(i as int).map_values(|n: String| "- "@ + n@);
            proof {
                assert(prev_notes@.take(i + 1).map_values(|n: String| "- "@ + n@) =~= prev.push(
                    "- "@ + prev_notes@[i as int]@,
                ));
                lemma_joined_push(prev, "- "@ + prev_notes@[i as int]@, "\n"@);
            }
            if i > 0 {
                push_str(&mut out, "\n");
            }
            push_str(&mut out, "- ");
            push_str(&mut out, prev_notes[i].as_str());
            i = i + 1;
            assert(out@ =~= base2 + joined(prev_notes@.take(i as int).map_values(|n: String| "- "@ + n@), "\n"@));
        }
        assert(prev_notes@.take(prev_notes@.len() as int) =~= prev_notes@);
    }
    push_str(&mut out, "\n\nThink about what Tem should be doing proactively right now. Consider: Are any concerns stale? Should new monitors be created based on recent context? Should the user be notified about anything? Any observations to remember?");
    assert(out@ =~= cycle_prompt(temporal@, concerns@, prev_notes@));
    out
}

/// The value of the first member of an object named `key`.
pub open spec fn lookup(es: Seq<(String, JsonValue)>, key: Seq<char>) -> Option<JsonValue>
    decreases es.len(),
{
    if es.len() == 0 {
        None
    } else {
        match lookup(es.drop_last(), key) {
            Some(x) => Some(x),
            None => if es.last().0@ == key {
                Some(es.last().1)
            } else {
                None
            },
        }
    }
}

/// The member `key` of an object (nothing for other values).
pub open spec fn member(v: JsonValue, key: Seq<char>) -> Option<JsonValue> {
    match v {
        JsonValue::Object(es) => lookup(es@, key),
        _ => None,
    }
}

/// The text of a string value.
pub open spec fn text_of(v: Option<JsonValue>) -> Option<Seq<char>> {
    match v {
        Some(JsonValue::Str(s)) => Some(s@),
        _ => None,
    }
}

/// The items of an array value (none for other values).
pub open spec fn items_of(v: Option<JsonValue>) -> Seq<JsonValue> {
    match v {
        Some(JsonValue::Array(xs)) => xs@,
        _ => Seq::empty(),
    }
}

/// The string items, in order; other items are skipped.
pub open spec fn texts(xs: Seq<JsonValue>) -> Seq<Seq<char>>
    decreases xs.len(),
{
    if xs.len() == 0 {
        Seq::empty()
    } else {
        match text_of(Some(xs.last())) {
            Some(t) => texts(xs.drop_last()).push(t),
            None => texts(xs.drop_last()),
        }
    }
}

/// A concern to create: an object with string `concern_type` and `name`,
/// and its `config` member (null when missing).
pub open spec fn concern_of(item: JsonValue) -> Option<(Seq<char>, Seq<char>, JsonValue)> {
    match (text_of(member(item, "concern_type"@)), text_of(member(item, "name"@))) {
        (Some(t), Some(n)) => Some((t, n, match member(item, "config"@) {
            Some(c) => c,
            None => JsonValue::Null,
        })),
        _ => None,
    }
}

/// The well-formed concerns, in order; malformed items are skipped.
pub open spec fn concerns_of(xs: Seq<JsonValue>) -> Seq<(Seq<char>, Seq<char>, JsonValue)>
    decreases xs.len(),
{
    if xs.len() == 0 {
        Seq::empty()
    } else {
        match concern_of(xs.last()) {
            Some(c) => concerns_of(xs.drop_last()).push(c),
            None => concerns_of(xs.drop_last()),
        }
    }
}

/// A notification: an object with string `chat_id` and `message`.
pub open spec fn notification_of(item: JsonValue) -> Option<(Seq<char>, Seq<char>)> {
    match (text_of(member(item, "chat_id"@)), text_of(member(item, "message"@))) {
        (Some(c), Some(m)) => Some((c, m)),
        _ => None,
    }
}

/// The well-formed notifications, in order.
pub open spec fn notifications_of(xs: Seq<JsonValue>) -> Seq<(Seq<char>, Seq<char>)>
    decreases xs.len(),
{
    if xs.len() == 0 {
        Seq::empty()
    } else {
        match notification_of(xs.last()) {
            Some(n) => notifications_of(xs.drop_last()).push(n),
            None => notifications_of(xs.drop_last()),
        }
    }
}

/// The decision a JSON answer describes; every field that is missing or of
/// the wrong shape is empty.
pub open spec fn decision_described(d: VolitionDecision, v: JsonValue) -> bool {
    &&& d.create_concerns@.map_values(|c: VolitionConcernCreate| (c.concern_type@, c.name@, c.config))
        == concerns_of(items_of(member(v, "create_concerns"@)))
    &&& d.cancel_concerns@.map_values(|s: String| s@) == texts(items_of(member(v, "cancel_concerns"@)))
    &&& d.notifications@.map_values(|n: VolitionNotification| (n.chat_id@, n.message@))
        == notifications_of(items_of(member(v, "notifications"@)))
    &&& match d.state_recommendation {
        Some(s) => text_of(member(v, "state_recommendation"@)) == Some(s@),
        None => text_of(member(v, "state_recommendation"@)) is None,
    }
    &&& d.internal_notes@.map_values(|s: String| s@) == texts(items_of(member(v, "internal_notes"@)))
}

/// The first members named by `keys` (distinct), moved out of an object's
/// member list.
fn pick_members(es: Vec<(String, JsonValue)>, keys: &Vec<Vec<char>>) -> (slots: Vec<Option<JsonValue>>)
    requires
        forall|a: int, b: int| 0 <= a < b < keys@.len() ==> keys@[a]@ != keys@[b]@,
    ensures
        slots@.len() == keys@.len(),
        forall|j: int| 0 <= j < keys@.len() ==> #[trigger] slots@[j] == lookup(es@, keys@[j]@),
{
    let ghost ev = es@;
    let mut slots: Vec<Option<JsonValue>> = Vec::new();
    let mut j: usize = 0;
    while j < keys.len()
        invariant
            j <= keys@.len(),
            slots@.len() == j,
            forall|t: int| 0 <= t < j ==> #[trigger] slots@[t] is None,
        decreases keys@.len() - j,
    {
        slots.push(None);
        j = j + 1;
    }
    for e in it: es
        invariant
            it.seq() == ev,
            slots@.len() == keys@.len(),
            forall|a: int, b: int| 0 <= a < b < keys@.len() ==> keys@[a]@ != keys@[b]@,
            forall|t: int| 0 <= t < keys@.len() ==> #[trigger] slots@[t] == lookup(ev.take(it.index() as int), keys@[t]@),
    {
        let ghost i = it.index() as int;
        proof {
            assert(ev.take(i + 1).drop_last() =~= ev.take(i));
            assert(ev.take(i + 1).last() == e);
        }
        let (k, val) = e;
        let kc = chars_of(k.as_str());
        let mut t: usize = 0;
        while t < keys.len() && !equals_word(&kc, keys[t].as_slice())
            invariant
                t <= keys@.len(),
                kc@ == k@,
                forall|u: int| 0 <= u < t ==> keys@[u]@ != k@,
            decreases keys@.len() - t,
        {
            t = t + 1;
        }
        if t < keys.len() && slots[t].is_none() {
            let ghost before = slots@;
            slots.set(t, Some(val));
            proof {
                assert forall|u: int| 0 <= u < keys@.len() implies #[trigger] slots@[u] == lookup(ev.take(i + 1), keys@[u]@) by {
                    if u != t {
                        assert(slots@[u] == before[u]);
                        assert(keys@[u]@ != k@);
                    }
                }
            }
        } else {
            proof {
                assert forall|u: int| 0 <= u < keys@.len() implies #[trigger] slots@[u] == lookup(ev.take(i + 1), keys@[u]@) by {
                    if u != t {
                        assert(keys@[u]@ != k@);
                    }
                }
            }
        }
    }
    assert(ev.take(ev.len() as int) =~= ev);
    slots
}

/// The string items of an array value, in order.
fn texts_from(x: Option<JsonValue>) -> (out: Vec<String>)
    ensures
        out@.map_values(|s: String| s@) == texts(items_of(x)),
{
    let mut out: Vec<String> = Vec::new();
    if let Some(JsonValue::Array(xs)) = x {
        let ghost xv = xs@;
        for item in it: xs
            invariant
                it.seq() == xv,
                out@.map_values(|s: String| s@) == texts(xv.take(it.index() as int)),
        {
            let ghost i = it.index() as int;
            proof {
                assert(xv.take(i + 1).drop_last() =~= xv.take(i));
                assert(xv.take(i + 1).last() == item);
            }
            let ghost before = out@;
            if let JsonValue::Str(t) = item {
                out.push(t);
                assert(out@.map_values(|s: String| s@) =~= before.map_values(|s: String| s@).push(t@));
            }
        }
        assert(xv.take(xv.len() as int) =~= xv);
    } else {
        assert(out@.map_values(|s: String| s@) =~= texts(items_of(x)));
    }
    out
}

/// The names of members as character vectors.
fn key_list(names: &Vec<&str>) -> (keys: Vec<Vec<char>>)
    ensures
        keys@.len() == names@.len(),
        forall|j: int| 0 <= j < names@.len() ==> (#[trigger] keys@[j])@ == names@[j]@,
{
    let mut keys: Vec<Vec<char>> = Vec::new();
    let mut j: usize = 0;
    while j < names.len()
        invariant
            j <= names@.len(),
            keys@.len() == j,
            forall|t: int| 0 <= t < j ==> (#[trigger] keys@[t])@ == names@[t]@,
        decreases names@.len() - j,
    {
        keys.push(chars_of(names[j]));
        j = j + 1;
    }
    keys
}

/// A concern to create, read from one array item.
fn concern_from(item: JsonValue) -> (c: Option<VolitionConcernCreate>)
    ensures
        match concern_of(item) {
            Some((t, n, cfg)) => c matches Some(cc) && cc.concern_type@ == t && cc.name@ == n && cc.config == cfg,
            None => c is None,
        },
{
    match item {
        JsonValue::Object(es) => {
            let mut names: Vec<&str> = Vec::new();
            names.push("concern_type");
            names.push("name");
            names.push("config");
            let keys = key_list(&names);
            proof {
                reveal_strlit("concern_type");
                reveal_strlit("name");
                reveal_strlit("config");
                assert(keys@[0]@ != keys@[1]@ && keys@[0]@ != keys@[2]@ && keys@[1]@ != keys@[2]@) by {
                    assert(keys@[0]@.len() == 12 && keys@[1]@.len() == 4 && keys@[2]@.len() == 6);
                }
            }
            let mut slots = pick_members(es, &keys);
            let config = match slots.pop() {
                Some(Some(c)) => c,
                _ => JsonValue::Null,
            };
            let name = slots.pop();
            let ty = slots.pop();
            match (ty, name) {
                (Some(Some(JsonValue::Str(t))), Some(Some(JsonValue::Str(n)))) => {
                    Some(VolitionConcernCreate { concern_type: t, name: n, config })
                },
                _ => None,
            }
        },
        _ => None,
    }
}

/// A notification, read from one array item.
fn notification_from(item: JsonValue) -> (n: Option<VolitionNotification>)
    ensures
        match notification_of(item) {
            Some((c, m)) => n matches Some(nn) && nn.chat_id@ == c && nn.message@ == m,
            None => n is None,
        },
{
    match item {
        JsonValue::Object(es) => {
            let mut names: Vec<&str> = Vec::new();
            names.push("chat_id");
            names.push("message");
            let keys = key_list(&names);
            proof {
                reveal_strlit("chat_id");
                reveal_strlit("message");
                assert(keys@[0]@ != keys@[1]@) by {
                    assert(keys@[0]@[0] != keys@[1]@[0]);
                }
            }
            let mut slots = pick_members(es, &keys);
            let message = slots.pop();
            let chat = slots.pop();
            match (chat, message) {
                (Some(Some(JsonValue::Str(c))), Some(Some(JsonValue::Str(m)))) => {
                    Some(VolitionNotification { chat_id: c, message: m })
                },
                _ => None,
            }
        },
        _ => None,
    }
}

/// The well-formed concerns of an array value.
fn concerns_from(x: Option<JsonValue>) -> (out: Vec<VolitionConcernCreate>)
    ensures
        out@.map_values(|c: VolitionConcernCreate| (c.concern_type@, c.name@, c.config)) == concerns_of(items_of(x)),
{
    let mut out: Vec<VolitionConcernCreate> = Vec::new();
    if let Some(JsonValue::Array(xs)) = x {
        let ghost xv = xs@;
        for item in it: xs
            invariant
                it.seq() == xv,
                out@.map_values(|c: VolitionConcernCreate| (c.concern_type@, c.name@, c.config))
                    == concerns_of(xv.take(it.index() as int)),
        {
            let ghost i = it.index() as int;
            proof {
                assert(xv.take(i + 1).drop_last() =~= xv.take(i));
                assert(xv.take(i + 1).last() == item);
            }
            let ghost before = out@;
            let ghost it_item = item;
            if let Some(c) = concern_from(item) {
                out.push(c);
                assert(out@.map_values(|c: VolitionConcernCreate| (c.concern_type@, c.name@, c.config)) =~=
                    before.map_values(|c: VolitionConcernCreate| (c.concern_type@, c.name@, c.config)).push(
                    concern_of(it_item).unwrap()));
            }
        }
        assert(xv.take(xv.len() as int) =~= xv);
    } else {
        assert(out@.map_values(|c: VolitionConcernCreate| (c.concern_type@, c.name@, c.config)) =~= concerns_of(items_of(x)));
    }
    out
}

/// The well-formed notifications of an array value.
fn notifications_from(x: Option<JsonValue>) -> (out: Vec<VolitionNotification>)
    ensures
        out@.map_values(|n: VolitionNotification| (n.chat_id@, n.message@)) == notifications_of(items_of(x)),
{
    let mut out: Vec<VolitionNotification> = Vec::new();
    if let Some(JsonValue::Array(xs)) = x {
        let ghost xv = xs@;
        for item in it: xs
            invariant
                it.seq() == xv,
                out@.map_values(|n: VolitionNotification| (n.chat_id@, n.message@)) == notifications_of(xv.take(it.index() as int)),
        {
            let ghost i = it.index() as int;
            proof {
                assert(xv.take(i + 1).drop_last() =~= xv.take(i));
                assert(xv.take(i + 1).last() == item);
            }
            let ghost before = out@;
            let ghost it_item = item;
            if let Some(n) = notification_from(item) {
                out.push(n);
                assert(out@.map_values(|n: VolitionNotification| (n.chat_id@, n.message@)) =~=
                    before.map_values(|n: VolitionNotification| (n.chat_id@, n.message@)).push(notification_of(it_item).unwrap()));
            }
        }
        assert(xv.take(xv.len() as int) =~= xv);
    } else {
        assert(out@.map_values(|n: VolitionNotification| (n.chat_id@, n.message@)) =~= notifications_of(items_of(x)));
    }
    out
}

/// The decision an initiative answer describes, read field by field: the
/// concerns to create, the concern ids to cancel, the notifications, the
/// recommended state and the notes. Missing or malformed fields are empty,
/// malformed list items are skipped.
pub fn decision_from_json(v: JsonValue) -> (d: VolitionDecision)
    ensures
        decision_described(d, v),
{
    let ghost v0 = v;
    let mut names: Vec<&str> = Vec::new();
    names.push("create_concerns");
    names.push("cancel_concerns");
    names.push("notifications");
    names.push("state_recommendation");
    names.push("internal_notes");
    let keys = key_list(&names);
    proof {
        reveal_strlit("create_concerns");
        reveal_strlit("cancel_concerns");
        reveal_strlit("notifications");
        reveal_strlit("state_recommendation");
        reveal_strlit("internal_notes");
        assert(keys@[0]@[1] != keys@[1]@[1]);
        assert(keys@[0]@.len() == 15 && keys@[1]@.len() == 15 && keys@[2]@.len() == 13 && keys@[3]@.len() == 20
            && keys@[4]@.len() == 14);
    }
    let mut slots: Vec<Option<JsonValue>> = match v {
        JsonValue::Object(es) => pick_members(es, &keys),
        _ => {
            let mut none: Vec<Option<JsonValue>> = Vec::new();
            none.push(None);
            none.push(None);
            none.push(None);
            none.push(None);
            none.push(None);
            none
        },
    };
    assert(forall|j: int| 0 <= j < 5 ==> #[trigger] slots@[j] == member(v0, names@[j]@));
    let notes = slots.pop().unwrap();
    let state = slots.pop().unwrap();
    let notifications = slots.pop().unwrap();
    let cancels = slots.pop().unwrap();
    let creates = slots.pop().unwrap();
    let state_recommendation = match state {
        Some(JsonValue::Str(s)) => Some(s),
        _ => None,
    };
    VolitionDecision {
        create_concerns: concerns_from(creates),
        cancel_concerns: texts_from(cancels),
        notifications: notifications_from(notifications),
        state_recommendation,
        internal_notes: texts_from(notes),
    }
}

/// Read an initiative decision from the model's answer: the decision the
/// JSON document describes, or nothing when the answer is not JSON. A
/// document cannot be nested deeper than its text is long, so the depth
/// allowed is the number of characters.
pub fn parse_volition_decision(text: &str) -> (d: Option<VolitionDecision>)
    ensures
        json_node(text@) is None ==> d is None,
        d is None <==> forall|v: JsonValue| !parses_to(text@, v, text@.len()),
        d matches Some(x) ==> exists|v: JsonValue| parses_to(text@, v, text@.len()) && decision_described(x, v),
{
    let depth = text.unicode_len();
    match parse_json(text, depth) {
        None => None,
        Some(v) => {
            let ghost v0 = v;
            let d = decision_from_json(v);
            assert(parses_to(text@, v0, text@.len()) && decision_described(d, v0));
            Some(d)
        },
    }
}

/// The instructions the initiative model answers under.
pub open spec fn volition_system_text() -> Seq<char> {
    "You are Tem's initiative system. You think about what Tem should be doing proactively.\n\nYou can: create monitors/alarms/recurring tasks, cancel stale concerns, send proactive notifications to the user, write internal notes for your next cycle.\n\nRules:\n- Only create concerns that genuinely serve the user based on recent context\n- Cancel concerns that are no longer useful\n- Notify the user only when you have something valuable to share\n- Write notes to remember reasoning for next cycle\n- You cannot create more initiative concerns\n\nRespond ONLY in JSON:\n{\"create_concerns\":[],\"cancel_concerns\":[],\"notifications\":[],\"state_recommendation\":null,\"internal_notes\":[]}"@
}

/// How many of the stored notes a cycle reads back.
pub const PREVIOUS_NOTES: usize = 5;

/// The source under which a cycle saves its notes.
pub open spec fn cycle_note_source() -> Seq<char> {
    "initiative_cycle"@
}

/// Where an initiative cycle stands between two outside steps.
#[derive(Debug)]
pub enum Cycle {
    /// Waiting for the model's answer.
    Asking,
    /// Saving the notes of `decision`; the first `next` are done.
    Saving { decision: VolitionDecision, next: usize },
    /// Over.
    Done,
}

/// What the caller of an initiative cycle does next.
#[derive(Debug)]
pub enum CycleAction {
    /// Ask the model with these instructions and this prompt; hand its
    /// answer (or its error) to [`Volition::on_answer`].
    CallModel { system: String, prompt: String },
    /// Save this note under this source, then call [`Volition::on_note_saved`]
    /// whatever the save gave.
    SaveNote { note: String, source: String },
    /// The cycle ends with this result.
    Finish(Result<VolitionDecision, String>),
}

/// The decision `d` a cycle takes from the answer `text`: the guarded form
/// of the decision the JSON document describes, or the unreadable-answer
/// decision when the text is not a JSON document.
pub open spec fn cycle_decision(d: VolitionDecision, text: Seq<char>, max: nat) -> bool {
    if forall|v: JsonValue| !parses_to(text, v, text.len()) {
        unreadable_decision(d)
    } else {
        exists|p: VolitionDecision, v: JsonValue|
            parses_to(text, v, text.len()) && #[trigger] decision_described(p, v) && #[trigger] guarded(d, p, max)
    }
}

/// The step after `next` notes of `d` are saved: save the following note
/// under the cycle's source, or end with `d` when none is left.
pub open spec fn saving_step(st: Cycle, act: CycleAction, d: VolitionDecision, next: int) -> bool {
    if next < d.internal_notes@.len() {
        &&& st == Cycle::Saving { decision: d, next: next as usize }
        &&& act matches CycleAction::SaveNote { note, source }
        &&& note@ == d.internal_notes@[next]@
        &&& source@ == cycle_note_source()
    } else {
        &&& st is Done
        &&& act == CycleAction::Finish(Ok(d))
    }
}

/// Save the note after the first `next`, or finish.
fn next_save(d: VolitionDecision, next: usize) -> (r: (Cycle, CycleAction))
    requires
        next <= d.internal_notes@.len(),
    ensures
        saving_step(r.0, r.1, d, next as int),
{
    if next < d.internal_notes.len() {
        let note = d.internal_notes[next].clone();
        (Cycle::Saving { decision: d, next }, CycleAction::SaveNote { note, source: "initiative_cycle".to_owned() })
    } else {
        (Cycle::Done, CycleAction::Finish(Ok(d)))
    }
}

impl<C, S> Volition<C, S> {
    /// The first step of an initiative cycle, once the stored notes were read
    /// (a failed read counts as no notes): ask the model, under the
    /// initiative instructions, with the cycle's prompt.
    pub fn start_cycle(&self, temporal: &str, concerns: &Vec<ConcernSummary>, stored_notes: Result<Vec<String>, String>) -> (r: (Cycle, CycleAction))
        ensures
            r.0 is Asking,
            r.1 matches CycleAction::CallModel { system, prompt } && system@ == volition_system_text()
                && prompt@ == cycle_prompt(temporal@, concerns@, match stored_notes {
                    Ok(ns) => ns@,
                    Err(_) => Seq::empty(),
                }),
    {
        let notes = match stored_notes {
            Ok(ns) => ns,
            Err(_) => Vec::new(),
        };
        let prompt = build_prompt(temporal, concerns, &notes);
        let system = "You are Tem's initiative system. You think about what Tem should be doing proactively.\n\nYou can: create monitors/alarms/recurring tasks, cancel stale concerns, send proactive notifications to the user, write internal notes for your next cycle.\n\nRules:\n- Only create concerns that genuinely serve the user based on recent context\n- Cancel concerns that are no longer useful\n- Notify the user only when you have something valuable to share\n- Write notes to remember reasoning for next cycle\n- You cannot create more initiative concerns\n\nRespond ONLY in JSON:\n{\"create_concerns\":[],\"cancel_concerns\":[],\"notifications\":[],\"state_recommendation\":null,\"internal_notes\":[]}".to_owned();
        (Cycle::Asking, CycleAction::CallModel { system, prompt })
    }

    /// The model answered: its error ends the cycle with that error and no
    /// note saved; otherwise the guarded decision is taken from the answer
    /// and its notes are saved one by one, in order.
    pub fn on_answer(&self, answer: Result<String, String>) -> (r: (Cycle, CycleAction))
        ensures
            answer matches Err(e) ==> r.0 is Done && r.1 == CycleAction::Finish(Err(e)),
            answer matches Ok(text) ==> exists|d: VolitionDecision|
                cycle_decision(d, text@, self.max_actions()) && #[trigger] saving_step(r.0, r.1, d, 0),
    {
        match answer {
            Err(e) => (Cycle::Done, CycleAction::Finish(Err(e))),
            Ok(text) => {
                let parsed = parse_volition_decision(text.as_str());
                let ghost p0 = parsed;
                let d = self.finish_cycle(parsed);
                let ghost d0 = d;
                proof {
                    if forall|v: JsonValue| !parses_to(text@, v, text@.len()) {
                        assert(p0 is None);
                    } else {
                        let p = p0.unwrap();
                        let v = choose|v: JsonValue| parses_to(text@, v, text@.len()) && decision_described(p, v);
                        assert(guarded(d0, p, self.max_actions()));
                    }
                    assert(cycle_decision(d0, text@, self.max_actions()));
                }
                let r = next_save(d, 0);
                assert(saving_step(r.0, r.1, d0, 0));
                r
            },
        }
    }

    /// A note was saved, or saving it failed: either way the cycle goes on
    /// with the next note, so a failed save never fails the cycle.
    pub fn on_note_saved(&self, state: Cycle, saved: bool) -> (r: (Cycle, CycleAction))
        requires
            state matches Cycle::Saving { decision, next } && next < decision.internal_notes@.len(),
        ensures
            state matches Cycle::Saving { decision, next } && saving_step(r.0, r.1, decision, next + 1),
    {
        match state {
            Cycle::Saving { decision, next } => {
                let count = decision.internal_notes.len();
                assert(next < count);
                next_save(decision, next + 1)
            },
            _ => (Cycle::Done, CycleAction::Finish(Err(String::new()))),
        }
    }
}

/// Reading the lists of an answer keeps every well-formed item, in order,
/// and skips only the malformed ones: the concerns, the notifications and
/// the string items are exactly what the item readers give, item by item.
pub proof fn law_answer_lists_keep_every_wellformed_item(xs: Seq<JsonValue>)
    ensures
        concerns_of(xs) == xs.filter_map(|x: JsonValue| concern_of(x)),
        notifications_of(xs) == xs.filter_map(|x: JsonValue| notification_of(x)),
        texts(xs) == xs.filter_map(|x: JsonValue| text_of(Some(x))),
    decreases xs.len(),
{
    if xs.len() > 0 {
        law_answer_lists_keep_every_wellformed_item(xs.drop_last());
        assert(concerns_of(xs) =~= xs.filter_map(|x: JsonValue| concern_of(x)));
        assert(notifications_of(xs) =~= xs.filter_map(|x: JsonValue| notification_of(x)));
        assert(texts(xs) =~= xs.filter_map(|x: JsonValue| text_of(Some(x))));
    }
}

/// Adding a well-formed concern to the end of a list adds it to the end of
/// the concerns read; adding a malformed item changes nothing.
pub proof fn law_concerns_push(xs: Seq<JsonValue>, x: JsonValue)
    ensures
        concern_of(x) matches Some(c) ==> concerns_of(xs.push(x)) == concerns_of(xs).push(c),
        concern_of(x) is None ==> concerns_of(xs.push(x)) == concerns_of(xs),
        concerns_of(xs.push(x)).len() == concerns_of(xs).len() + if concern_of(x) is Some { 1int } else { 0int },
{
    assert(xs.push(x).drop_last() =~= xs);
}

/// The guardrails of an initiative cycle: at most `max` concerns are created
/// and at most `max` cancelled, and no initiative concern is ever created
/// (no self-replication). Every creation kept was asked for, in order.
pub proof fn law_guardrails(cs: Seq<VolitionConcernCreate>, cancels: Seq<String>, max: nat)
    ensures
        without_initiatives(at_most(cs, max)).len() <= max,
        at_most(cancels, max).len() <= max,
        forall|i: int| 0 <= i < without_initiatives(at_most(cs, max)).len() ==>
            (#[trigger] without_initiatives(at_most(cs, max))[i]).concern_type@ != "initiative"@,
        forall|i: int| 0 <= i < without_initiatives(at_most(cs, max)).len() ==>
            at_most(cs, max).contains(#[trigger] without_initiatives(at_most(cs, max))[i]),
{
    lemma_without_initiatives(at_most(cs, max));
}

proof fn lemma_without_initiatives(cs: Seq<VolitionConcernCreate>)
    ensures
        without_initiatives(cs).len() <= cs.len(),
        forall|i: int| 0 <= i < without_initiatives(cs).len() ==>
            (#[trigger] without_initiatives(cs)[i]).concern_type@ != "initiative"@ && cs.contains(without_initiatives(cs)[i]),
    decreases cs.len(),
{
    if cs.len() > 0 {
        let d = cs.drop_last();
        lemma_without_initiatives(d);
        let w = without_initiatives(cs);
        assert forall|i: int| 0 <= i < w.len() implies (#[trigger] w[i]).concern_type@ != "initiative"@ && cs.contains(w[i]) by {
            if i < without_initiatives(d).len() {
                assert(w[i] == without_initiatives(d)[i]);
                let j = choose|j: int| 0 <= j < d.len() && d[j] == w[i];
                assert(cs[j] == d[j]);
            } else {
                assert(w[i] == cs.last());
                assert(cs[cs.len() - 1] == cs.last());
            }
        }
    }
}

} // verus!
