//! Witness verdicts: aggregation of per-predicate results into an overall
//! outcome, the verdict summary line, and the final reply shown to the user
//! under each strictness level. The witness never touches the file system:
//! its only outputs are a verdict and a (possibly rewritten) reply text.
use vstd::prelude::*;
use crate::text::{decimal, occurs_at, push_decimal, push_str};
use std::path::PathBuf;
use std::sync::Arc;

verus! {

#[verifier::external_type_specification]
#[verifier::external_body]
pub struct ExPathBuf(PathBuf);

/// `PathBuf::clone`: a new path buffer; nothing is claimed of its contents,
/// which no verified code here reads.
pub assume_specification[ <PathBuf as Clone>::clone ](p: &PathBuf) -> PathBuf;

/// Outcome of one predicate check, or of a whole verdict.
#[derive(Debug, Clone, Copy, PartialEq, Eq, Structural)]
pub enum VerdictOutcome {
    Pass,
    Fail,
    Inconclusive,
}

/// A postcondition predicate of an oath.
#[derive(Debug, Clone)]
pub enum Predicate {
    /// A file must exist at `path` (checked deterministically, tier 0).
    FileExists { path: PathBuf },
    /// A rubric judged by a cheap aspect verifier (tier 1).
    AspectVerifier { rubric: String, evidence_refs: Vec<String>, advisory: bool },
    /// A rubric judged by an adversarial auditor (tier 2).
    AdversarialJudge { rubric: String, evidence_refs: Vec<String>, advisory: bool },
}

impl Predicate {
    /// The verification tier that checks this predicate.
    pub fn tier(&self) -> (t: u8)
        ensures
            t == match self {
                Predicate::FileExists { .. } => 0u8,
                Predicate::AspectVerifier { .. } => 1u8,
                Predicate::AdversarialJudge { .. } => 2u8,
            },
    {
        match self {
            Predicate::FileExists { .. } => 0,
            Predicate::AspectVerifier { .. } => 1,
            Predicate::AdversarialJudge { .. } => 2,
        }
    }

    /// Whether a failure of this predicate is advisory only.
    pub fn is_advisory(&self) -> (b: bool)
        ensures
            b == match self {
                Predicate::FileExists { .. } => false,
                Predicate::AspectVerifier { advisory, .. } => *advisory,
                Predicate::AdversarialJudge { advisory, .. } => *advisory,
            },
    {
        match self {
            Predicate::FileExists { .. } => false,
            Predicate::AspectVerifier { advisory, .. } => *advisory,
            Predicate::AdversarialJudge { advisory, .. } => *advisory,
        }
    }
}

/// The result of checking one predicate.
#[derive(Debug, Clone)]
pub struct PredicateResult {
    pub predicate: Predicate,
    pub tier: u8,
    pub outcome: VerdictOutcome,
    pub detail: String,
    pub advisory: bool,
    pub latency_ms: u64,
}

/// How many checks ran at each tier, and the tier-0 latency.
#[derive(Debug, Clone, Copy, Default)]
pub struct TierUsage {
    pub tier0_calls: u32,
    pub tier1_calls: u32,
    pub tier2_calls: u32,
    pub tier0_latency_ms: u64,
}

/// A rendered verdict on an oath.
#[derive(Debug, Clone)]
pub struct Verdict {
    pub subtask_id: String,
    pub outcome: VerdictOutcome,
    pub per_predicate: Vec<PredicateResult>,
    pub tier_usage: TierUsage,
    pub reason: String,
    pub latency_ms: u64,
}

/// Number of results with outcome `o`; advisory results count only when
/// `with_advisory` holds.
pub open spec fn count_outcome(rs: Seq<PredicateResult>, o: VerdictOutcome, with_advisory: bool) -> nat
    decreases rs.len(),
{
    if rs.len() == 0 {
        0
    } else {
        count_outcome(rs.drop_last(), o, with_advisory) + if rs.last().outcome == o && (with_advisory
            || !rs.last().advisory) {
            1nat
        } else {
            0nat
        }
    }
}

proof fn lemma_count_push(rs: Seq<PredicateResult>, r: PredicateResult, o: VerdictOutcome, a: bool)
    ensures
        count_outcome(rs.push(r), o, a) == count_outcome(rs, o, a) + if r.outcome == o && (a || !r.advisory) { 1nat } else { 0nat },
{
    assert(rs.push(r).drop_last() =~= rs);
}

/// Number of results with outcome `o` (advisory ones only if `with_advisory`).
fn count_results(v: &Vec<PredicateResult>, o: VerdictOutcome, with_advisory: bool) -> (c: usize)
    ensures
        c == count_outcome(v@, o, with_advisory),
{
    let mut c: usize = 0;
    let mut i: usize = 0;
    while i < v.len()
        invariant
            i <= v@.len(),
            c == count_outcome(v@.take(i as int), o, with_advisory),
            c <= i,
        decreases v@.len() - i,
    {
        proof {
            lemma_count_push(v@.take(i as int), v@[i as int], o, with_advisory);
            assert(v@.take(i + 1) =~= v@.take(i as int).push(v@[i as int]));
        }
        if v[i].outcome == o && (with_advisory || !v[i].advisory) {
            c = c + 1;
        }
        i = i + 1;
    }
    assert(v@.take(v@.len() as int) =~= v@);
    c
}

impl Verdict {
    /// Number of predicates that passed.
    pub fn pass_count(&self) -> (c: usize)
        ensures
            c == count_outcome(self.per_predicate@, VerdictOutcome::Pass, true),
    {
        count_results(&self.per_predicate, VerdictOutcome::Pass, true)
    }

    /// Number of predicates that failed.
    pub fn fail_count(&self) -> (c: usize)
        ensures
            c == count_outcome(self.per_predicate@, VerdictOutcome::Fail, true),
    {
        count_results(&self.per_predicate, VerdictOutcome::Fail, true)
    }

    /// Number of predicates checked.
    pub fn total_count(&self) -> (c: usize)
        ensures
            c == self.per_predicate@.len(),
    {
        self.per_predicate.len()
    }
}

/// Some non-advisory result has outcome `o`.
pub open spec fn binding_outcome(rs: Seq<PredicateResult>, o: VerdictOutcome) -> bool {
    exists|i: int| 0 <= i < rs.len() && !rs[i].advisory && #[trigger] rs[i].outcome == o
}

/// Any non-advisory failure fails the verdict; otherwise any non-advisory
/// inconclusive result makes it inconclusive; otherwise it passes.
/// Advisory results never decide the outcome.
pub open spec fn aggregate(rs: Seq<PredicateResult>) -> VerdictOutcome {
    if binding_outcome(rs, VerdictOutcome::Fail) {
        VerdictOutcome::Fail
    } else if binding_outcome(rs, VerdictOutcome::Inconclusive) {
        VerdictOutcome::Inconclusive
    } else {
        VerdictOutcome::Pass
    }
}

/// Aggregate per-predicate results into the overall outcome.
pub fn aggregate_outcome(per_predicate: &Vec<PredicateResult>) -> (o: VerdictOutcome)
    ensures
        o == aggregate(per_predicate@),
{
    let mut has_fail = false;
    let mut has_inconclusive = false;
    let mut i: usize = 0;
    while i < per_predicate.len()
        invariant
            i <= per_predicate@.len(),
            has_fail == binding_outcome(per_predicate@.take(i as int), VerdictOutcome::Fail),
            has_inconclusive == binding_outcome(per_predicate@.take(i as int), VerdictOutcome::Inconclusive),
        decreases per_predicate@.len() - i,
    {
        let ghost before = per_predicate@.take(i as int);
        let ghost after = per_predicate@.take(i + 1);
        proof {
            assert forall|o: VerdictOutcome| binding_outcome(after, o) == (binding_outcome(before, o) || (
            !per_predicate@[i as int].advisory && per_predicate@[i as int].outcome == o)) by {
                if binding_outcome(after, o) {
                    let j = choose|j: int| 0 <= j < after.len() && !after[j].advisory && #[trigger] after[j].outcome == o;
                    if j < i {
                        assert(before[j] == after[j]);
                    }
                }
                if binding_outcome(before, o) {
                    let j = choose|j: int| 0 <= j < before.len() && !before[j].advisory && #[trigger] before[j].outcome == o;
                    assert(before[j] == after[j]);
                }
                if !per_predicate@[i as int].advisory && per_predicate@[i as int].outcome == o {
                    assert(after[i as int] == per_predicate@[i as int]);
                }
            }
        }
        if !per_predicate[i].advisory {
            match per_predicate[i].outcome {
                VerdictOutcome::Fail => has_fail = true,
                VerdictOutcome::Inconclusive => has_inconclusive = true,
                VerdictOutcome::Pass => {},
            }
        }
        i = i + 1;
    }
    assert(per_predicate@.take(per_predicate@.len() as int) =~= per_predicate@);
    if has_fail {
        VerdictOutcome::Fail
    } else if has_inconclusive {
        VerdictOutcome::Inconclusive
    } else {
        VerdictOutcome::Pass
    }
}

/// "`p`/`n` pass, `f` fail, `i` inconclusive", where `p`, `f`, `i` count the
/// non-advisory results (as 32-bit counters) and `n` is the number of results.
pub open spec fn reason_text(rs: Seq<PredicateResult>) -> Seq<char> {
    decimal((count_outcome(rs, VerdictOutcome::Pass, false) as u32) as nat) + "/"@ + decimal(rs.len())
        + " pass, "@ + decimal((count_outcome(rs, VerdictOutcome::Fail, false) as u32) as nat)
        + " fail, "@ + decimal((count_outcome(rs, VerdictOutcome::Inconclusive, false) as u32) as nat)
        + " inconclusive"@
}

/// The verdict summary line.
pub fn build_reason(per_predicate: &Vec<PredicateResult>) -> (r: String)
    ensures
        r@ == reason_text(per_predicate@),
{
    let pass = count_results(per_predicate, VerdictOutcome::Pass, false) as u32;
    let fail = count_results(per_predicate, VerdictOutcome::Fail, false) as u32;
    let inc = count_results(per_predicate, VerdictOutcome::Inconclusive, false) as u32;
    let mut out = String::new();
    push_decimal(&mut out, pass as u64);
    push_str(&mut out, "/");
    push_decimal(&mut out, per_predicate.len() as u64);
    push_str(&mut out, " pass, ");
    push_decimal(&mut out, fail as u64);
    push_str(&mut out, " fail, ");
    push_decimal(&mut out, inc as u64);
    push_str(&mut out, " inconclusive");
    assert(out@ =~= reason_text(per_predicate@));
    out
}

/// One line "  • detail" for each result with outcome `o`, in order.
pub open spec fn bullets(rs: Seq<PredicateResult>, o: VerdictOutcome) -> Seq<char>
    decreases rs.len(),
{
    if rs.len() == 0 {
        Seq::empty()
    } else {
        bullets(rs.drop_last(), o) + if rs.last().outcome == o {
            "  \u{2022} "@ + rs.last().detail@ + "\n"@
        } else {
            Seq::empty()
        }
    }
}

/// A titled list of the results with outcome `o`, or nothing if there are none.
pub open spec fn section(title: Seq<char>, rs: Seq<PredicateResult>, o: VerdictOutcome) -> Seq<char> {
    if count_outcome(rs, o, true) > 0 {
        title + bullets(rs, o)
    } else {
        Seq::empty()
    }
}

/// The closing paragraph of a failure report: nothing was rolled back.
pub open spec fn closing_note() -> Seq<char> {
    "\nThis work is incomplete according to the pre-committed contract. Files"@
        + " produced during this"@
        + " task have NOT been modified or rolled back \u{2014} they remain in place for your review."@
}

/// The reply that replaces the agent's reply when a blocking verdict fails.
/// It is built from the verdict alone.
pub open spec fn failed_reply_text(v: Verdict) -> Seq<char> {
    let rs = v.per_predicate@;
    "\u{26a0} **Partial completion.**\n\n"@ + "Witness verified "@ + decimal(count_outcome(rs, VerdictOutcome::Pass, true))
        + "/"@ + decimal(rs.len()) + " postconditions:\n\n"@
        + section("\u{2713} Verified:\n"@, rs, VerdictOutcome::Pass)
        + section("\n\u{2717} Could not verify:\n"@, rs, VerdictOutcome::Fail)
        + section("\n? Inconclusive:\n"@, rs, VerdictOutcome::Inconclusive)
        + closing_note()
}

/// Appends the bullet list of the results with outcome `o`.
fn push_bullets(out: &mut String, v: &Vec<PredicateResult>, o: VerdictOutcome)
    ensures
        final(out)@ == old(out)@ + bullets(v@, o),
{
    let mut i: usize = 0;
    while i < v.len()
        invariant
            i <= v@.len(),
            out@ == old(out)@ + bullets(v@.take(i as int), o),
        decreases v@.len() - i,
    {
        proof {
            assert(v@.take(i + 1).drop_last() =~= v@.take(i as int));
        }
        if v[i].outcome == o {
            push_str(out, "  \u{2022} ");
            push_str(out, v[i].detail.as_str());
            push_str(out, "\n");
        }
        i = i + 1;
        assert(out@ =~= old(out)@ + bullets(v@.take(i as int), o));
    }
    assert(v@.take(v@.len() as int) =~= v@);
}

/// Appends the section for outcome `o` under `title`.
fn push_section(out: &mut String, title: &str, v: &Vec<PredicateResult>, o: VerdictOutcome)
    ensures
        final(out)@ == old(out)@ + section(title@, v@, o),
{
    if count_results(v, o, true) > 0 {
        push_str(out, title);
        push_bullets(out, v, o);
        assert(final(out)@ =~= old(out)@ + section(title@, v@, o));
    } else {
        assert(section(title@, v@, o) =~= Seq::<char>::empty());
        assert(old(out)@ + section(title@, v@, o) =~= old(out)@);
    }
}

/// The honest failure report that replaces the agent's reply; the agent's
/// reply itself is not repeated.
pub fn format_failed_reply(_agent_reply: &str, verdict: &Verdict) -> (r: String)
    ensures
        r@ == failed_reply_text(*verdict),
{
    let mut out = String::new();
    push_str(&mut out, "\u{26a0} **Partial completion.**\n\n");
    push_str(&mut out, "Witness verified ");
    push_decimal(&mut out, verdict.pass_count() as u64);
    push_str(&mut out, "/");
    push_decimal(&mut out, verdict.total_count() as u64);
    push_str(&mut out, " postconditions:\n\n");
    push_section(&mut out, "\u{2713} Verified:\n", &verdict.per_predicate, VerdictOutcome::Pass);
    push_section(&mut out, "\n\u{2717} Could not verify:\n", &verdict.per_predicate, VerdictOutcome::Fail);
    push_section(&mut out, "\n? Inconclusive:\n", &verdict.per_predicate, VerdictOutcome::Inconclusive);
    push_str(&mut out, "\nThis work is incomplete according to the pre-committed contract. Files");
    push_str(&mut out, " produced during this");
    push_str(&mut out, " task have NOT been modified or rolled back \u{2014} they remain in place for your review.");
    assert(out@ =~= failed_reply_text(*verdict));
    out
}

/// The agent's reply followed by a note that the verdict is inconclusive.
pub open spec fn inconclusive_reply_text(agent_reply: Seq<char>, v: Verdict) -> Seq<char> {
    agent_reply + "\n\n---\n\u{26a0} Witness: verdict inconclusive. "@ + v.reason@
}

/// Appends the inconclusive-verdict note to the agent's reply.
pub fn format_inconclusive_reply(agent_reply: &str, verdict: &Verdict) -> (r: String)
    ensures
        r@ == inconclusive_reply_text(agent_reply@, *verdict),
{
    let mut out = String::new();
    push_str(&mut out, agent_reply);
    push_str(&mut out, "\n\n---\n\u{26a0} Witness: verdict inconclusive. ");
    push_str(&mut out, verdict.reason.as_str());
    assert(out@ =~= inconclusive_reply_text(agent_reply@, *verdict));
    out
}

/// The agent's reply followed by a warning with the pass tally and reason.
pub open spec fn warned_reply_text(agent_reply: Seq<char>, v: Verdict) -> Seq<char> {
    agent_reply + "\n\n---\n\u{26a0} Witness: "@ + decimal(count_outcome(v.per_predicate@, VerdictOutcome::Pass, true))
        + "/"@ + decimal(v.per_predicate@.len()) + " predicates passed. "@ + v.reason@
}

/// How loudly a failed verdict is reported to the user.
#[derive(Debug, Clone, Copy, PartialEq, Eq, Structural)]
pub enum WitnessStrictness {
    /// Record only; the reply is never changed.
    Observe,
    /// Append a short note when the verdict is not a pass.
    Warn,
    /// Rewrite the reply honestly when the verdict is not a pass.
    Block,
    /// As `Block`; the retry happens in the runtime.
    BlockWithRetry,
}

/// The final reply for a verdict under a strictness level.
pub open spec fn final_reply_text(agent_reply: Seq<char>, v: Verdict, strictness: WitnessStrictness) -> Seq<char> {
    match strictness {
        WitnessStrictness::Observe => agent_reply,
        WitnessStrictness::Warn => if v.outcome == VerdictOutcome::Pass {
            agent_reply
        } else {
            warned_reply_text(agent_reply, v)
        },
        WitnessStrictness::Block | WitnessStrictness::BlockWithRetry => match v.outcome {
            VerdictOutcome::Pass => agent_reply,
            VerdictOutcome::Fail => failed_reply_text(v),
            VerdictOutcome::Inconclusive => inconclusive_reply_text(agent_reply, v),
        },
    }
}

/// Why the witness refused to verify an oath.
#[derive(Debug, Clone, PartialEq, Eq)]
pub enum WitnessError {
    /// The oath was never sealed; carries its subtask id.
    NoSealedOath(String),
}

/// The first step of verifying an oath: only a sealed oath is verified, an
/// unsealed one is refused with its subtask id.
pub fn check_sealed(sealed: bool, subtask_id: &str) -> (r: Result<(), WitnessError>)
    ensures
        sealed <==> r is Ok,
        r matches Err(WitnessError::NoSealedOath(id)) ==> id@ == subtask_id@,
{
    if sealed {
        Ok(())
    } else {
        Err(WitnessError::NoSealedOath(subtask_id.to_owned()))
    }
}

/// The witness: verifies sealed oaths and records verdicts to its ledger.
pub struct Witness<L> {
    ledger: Arc<L>,
    workspace_root: PathBuf,
}

impl<L> Witness<L> {
    /// A witness writing to `ledger` and checking paths under `workspace_root`.
    pub fn new<P: Into<PathBuf>>(ledger: Arc<L>, workspace_root: P) -> (w: Self)
        ensures
            w.ledger_spec() == ledger,
    {
        Witness { ledger, workspace_root: workspace_root.into() }
    }

    pub closed spec fn ledger_spec(&self) -> Arc<L> {
        self.ledger
    }

    /// The ledger this witness records to.
    pub fn ledger(&self) -> (l: &Arc<L>)
        ensures
            *l == self.ledger_spec(),
    {
        &self.ledger
    }

    /// The final reply for the user. Observe: the agent's reply unchanged.
    /// Warn: a note is appended unless the verdict passed. Block and
    /// BlockWithRetry: a failure replaces the reply with an honest report,
    /// an inconclusive verdict appends a note, a pass leaves it unchanged.
    pub fn compose_final_reply(&self, agent_reply: &str, verdict: &Verdict, strictness: WitnessStrictness) -> (r: String)
        ensures
            r@ == final_reply_text(agent_reply@, *verdict, strictness),
    {
        match strictness {
            WitnessStrictness::Observe => agent_reply.to_owned(),
            WitnessStrictness::Warn => match verdict.outcome {
                VerdictOutcome::Pass => agent_reply.to_owned(),
                VerdictOutcome::Fail | VerdictOutcome::Inconclusive => {
                    let mut out = String::new();
                    push_str(&mut out, agent_reply);
                    push_str(&mut out, "\n\n---\n\u{26a0} Witness: ");
                    push_decimal(&mut out, verdict.pass_count() as u64);
                    push_str(&mut out, "/");
                    push_decimal(&mut out, verdict.total_count() as u64);
                    push_str(&mut out, " predicates passed. ");
                    push_str(&mut out, verdict.reason.as_str());
                    assert(out@ =~= warned_reply_text(agent_reply@, *verdict));
                    out
                },
            },
            WitnessStrictness::Block | WitnessStrictness::BlockWithRetry => match verdict.outcome {
                VerdictOutcome::Pass => agent_reply.to_owned(),
                VerdictOutcome::Fail => format_failed_reply(agent_reply, verdict),
                VerdictOutcome::Inconclusive => format_inconclusive_reply(agent_reply, verdict),
            },
        }
    }
}

/// A configured override of the strictness level.
#[derive(Debug, Clone, Copy, PartialEq, Eq, Structural)]
pub enum OverrideStrictness {
    /// Choose by task complexity.
    Auto,
    Observe,
    Warn,
    Block,
}

/// Witness configuration.
#[derive(Debug, Clone, Copy)]
pub struct WitnessConfig {
    pub override_strictness: OverrideStrictness,
}

/// The strictness chosen for a task: the override when one is set, else
/// Block for complex tasks, Warn for standard ones, Observe otherwise.
pub open spec fn strictness_for(o: OverrideStrictness, is_complex: bool, is_standard: bool) -> WitnessStrictness {
    match o {
        OverrideStrictness::Observe => WitnessStrictness::Observe,
        OverrideStrictness::Warn => WitnessStrictness::Warn,
        OverrideStrictness::Block => WitnessStrictness::Block,
        OverrideStrictness::Auto => if is_complex {
            WitnessStrictness::Block
        } else if is_standard {
            WitnessStrictness::Warn
        } else {
            WitnessStrictness::Observe
        },
    }
}

/// Compute the strictness for a task from configuration and complexity.
pub fn resolve_strictness(config: &WitnessConfig, is_complex: bool, is_standard: bool) -> (s: WitnessStrictness)
    ensures
        s == strictness_for(config.override_strictness, is_complex, is_standard),
{
    match config.override_strictness {
        OverrideStrictness::Observe => WitnessStrictness::Observe,
        OverrideStrictness::Warn => WitnessStrictness::Warn,
        OverrideStrictness::Block => WitnessStrictness::Block,
        OverrideStrictness::Auto => {
            if is_complex {
                WitnessStrictness::Block
            } else if is_standard {
                WitnessStrictness::Warn
            } else {
                WitnessStrictness::Observe
            }
        },
    }
}

/// What a tier-0 check reported for one predicate.
#[derive(Debug, Clone)]
pub struct PredicateCheckResult {
    pub outcome: VerdictOutcome,
    pub detail: String,
    pub latency_ms: u64,
}

pub open spec fn tier_of(p: Predicate) -> u8 {
    match p {
        Predicate::FileExists { .. } => 0u8,
        Predicate::AspectVerifier { .. } => 1u8,
        Predicate::AdversarialJudge { .. } => 2u8,
    }
}

pub open spec fn advisory_of(p: Predicate) -> bool {
    match p {
        Predicate::FileExists { .. } => false,
        Predicate::AspectVerifier { advisory, .. } => advisory,
        Predicate::AdversarialJudge { advisory, .. } => advisory,
    }
}

/// Number of predicates checked at tier `t`.
pub open spec fn count_tier(ps: Seq<Predicate>, t: u8) -> nat
    decreases ps.len(),
{
    if ps.len() == 0 {
        0
    } else {
        count_tier(ps.drop_last(), t) + if tier_of(ps.last()) == t { 1nat } else { 0nat }
    }
}

/// Total latency of the tier-0 checks.
pub open spec fn total_latency(rs: Seq<PredicateCheckResult>) -> nat
    decreases rs.len(),
{
    if rs.len() == 0 {
        0
    } else {
        total_latency(rs.drop_last()) + rs.last().latency_ms as nat
    }
}

/// The detail recorded for a predicate of tier 1 or 2, which is not checked
/// yet.
pub open spec fn unchecked_detail(tier: u8) -> Seq<char> {
    if tier == 1 {
        "Tier 1 not implemented in Phase 1 \u{2014} predicate advisory"@
    } else {
        "Tier 2 not implemented in Phase 1 \u{2014} predicate advisory"@
    }
}

/// The outcome of a predicate of tier 1 or 2, which is not checked yet:
/// inconclusive when it is advisory, a failure when it is binding.
pub open spec fn unchecked_outcome(advisory: bool) -> VerdictOutcome {
    if advisory {
        VerdictOutcome::Inconclusive
    } else {
        VerdictOutcome::Fail
    }
}

/// Result `r` is what the verdict records for predicate `p`, the `k`-th
/// tier-0 predicate when it is checked at tier 0.
pub open spec fn recorded_as(r: PredicateResult, p: Predicate, t0: Seq<PredicateCheckResult>, k: int) -> bool {
    &&& r.predicate == p
    &&& r.tier == tier_of(p)
    &&& r.advisory == advisory_of(p)
    &&& if tier_of(p) == 0 {
        &&& r.outcome == t0[k].outcome
        &&& r.detail@ == t0[k].detail@
        &&& r.latency_ms == t0[k].latency_ms
    } else {
        &&& r.outcome == unchecked_outcome(advisory_of(p))
        &&& r.detail@ == unchecked_detail(tier_of(p))
        &&& r.latency_ms == 0
    }
}

proof fn lemma_count_tier_push(ps: Seq<Predicate>, p: Predicate, t: u8)
    ensures
        count_tier(ps.push(p), t) == count_tier(ps, t) + if tier_of(p) == t { 1nat } else { 0nat },
{
    assert(ps.push(p).drop_last() =~= ps);
}

proof fn lemma_count_tier_le(ps: Seq<Predicate>, t: u8)
    ensures
        count_tier(ps, t) <= ps.len(),
    decreases ps.len(),
{
    if ps.len() > 0 {
        lemma_count_tier_le(ps.drop_last(), t);
    }
}

proof fn lemma_latency_prefix(rs: Seq<PredicateCheckResult>, k: int)
    requires
        0 <= k <= rs.len(),
    ensures
        total_latency(rs.take(k)) <= total_latency(rs),
    decreases rs.len() - k,
{
    if k < rs.len() {
        assert(rs.drop_last().take(k) =~= rs.take(k));
        lemma_latency_prefix(rs.drop_last(), k);
    } else {
        assert(rs.take(k) =~= rs);
    }
}

/// The verdict on an oath's postconditions, given the results of the tier-0
/// checks in order: each predicate is recorded with its tier and advisory
/// flag; tier-0 predicates take their check's result, the others (not
/// checked yet) are inconclusive when advisory and failures otherwise; the
/// outcome and the summary line come from the recorded results, and the
/// tier usage counts the predicates per tier.
pub fn assemble_verdict(
    subtask_id: String,
    postconditions: Vec<Predicate>,
    tier0_results: &Vec<PredicateCheckResult>,
    latency_ms: u64,
) -> (v: Verdict)
    requires
        tier0_results@.len() == count_tier(postconditions@, 0),
        postconditions@.len() <= u32::MAX,
        total_latency(tier0_results@) <= u64::MAX,
    ensures
        v.subtask_id@ == subtask_id@,
        v.per_predicate@.len() == postconditions@.len(),
        forall|i: int| 0 <= i < postconditions@.len() ==> recorded_as(
            #[trigger] v.per_predicate@[i],
            postconditions@[i],
            tier0_results@,
            count_tier(postconditions@.take(i), 0) as int,
        ),
        v.tier_usage.tier0_calls == count_tier(postconditions@, 0),
        v.tier_usage.tier1_calls == count_tier(postconditions@, 1),
        v.tier_usage.tier2_calls == count_tier(postconditions@, 2),
        v.tier_usage.tier0_latency_ms == total_latency(tier0_results@),
        v.outcome == aggregate(v.per_predicate@),
        v.reason@ == reason_text(v.per_predicate@),
        v.latency_ms == latency_ms,
{
    let ghost ps = postconditions@;
    let ghost t0 = tier0_results@;
    let mut per_predicate: Vec<PredicateResult> = Vec::new();
    let mut usage = TierUsage { tier0_calls: 0, tier1_calls: 0, tier2_calls: 0, tier0_latency_ms: 0 };
    let mut k: usize = 0;
    for p in it: postconditions
        invariant
            it.seq() == ps,
            t0 == tier0_results@,
            t0.len() == count_tier(ps, 0),
            ps.len() <= u32::MAX,
            total_latency(t0) <= u64::MAX,
            k == count_tier(ps.take(it.index() as int), 0),
            k <= t0.len(),
            usage.tier0_calls == k,
            usage.tier1_calls == count_tier(ps.take(it.index() as int), 1),
            usage.tier2_calls == count_tier(ps.take(it.index() as int), 2),
            usage.tier0_latency_ms == total_latency(t0.take(k as int)),
            per_predicate@.len() == it.index(),
            forall|i: int| 0 <= i < it.index() ==> recorded_as(
                #[trigger] per_predicate@[i],
                ps[i],
                t0,
                count_tier(ps.take(i), 0) as int,
            ),
    {
        let ghost j = it.index() as int;
        proof {
            assert(ps.take(j + 1) =~= ps.take(j).push(p));
            lemma_count_tier_push(ps.take(j), p, 0);
            lemma_count_tier_push(ps.take(j), p, 1);
            lemma_count_tier_push(ps.take(j), p, 2);
            lemma_count_tier_le(ps.take(j + 1), 1);
            lemma_count_tier_le(ps.take(j + 1), 2);
            lemma_count_tier_le(ps.take(j + 1), 0);
            if tier_of(p) == 0 {
                assert(ps.take(j + 1).len() <= ps.len());
                // the tier-0 predicates before the end are at most all of them
                assert(count_tier(ps.take(j + 1), 0) <= count_tier(ps, 0)) by {
                    lemma_count_tier_prefix(ps, j + 1, 0);
                }
            }
        }
        let tier = p.tier();
        let advisory = p.is_advisory();
        let result = if tier == 0 {
            proof {
                assert(t0.take(k + 1).drop_last() =~= t0.take(k as int));
                lemma_latency_prefix(t0, k + 1);
            }
            usage.tier0_calls = usage.tier0_calls + 1;
            let r = &tier0_results[k];
            usage.tier0_latency_ms = usage.tier0_latency_ms + r.latency_ms;
            k = k + 1;
            PredicateCheckResult { outcome: r.outcome, detail: r.detail.clone(), latency_ms: r.latency_ms }
        } else if tier == 1 {
            usage.tier1_calls = usage.tier1_calls + 1;
            PredicateCheckResult {
                outcome: if advisory { VerdictOutcome::Inconclusive } else { VerdictOutcome::Fail },
                detail: "Tier 1 not implemented in Phase 1 \u{2014} predicate advisory".to_owned(),
                latency_ms: 0,
            }
        } else {
            usage.tier2_calls = usage.tier2_calls + 1;
            PredicateCheckResult {
                outcome: if advisory { VerdictOutcome::Inconclusive } else { VerdictOutcome::Fail },
                detail: "Tier 2 not implemented in Phase 1 \u{2014} predicate advisory".to_owned(),
                latency_ms: 0,
            }
        };
        let ghost before = per_predicate@;
        per_predicate.push(PredicateResult {
            predicate: p,
            tier,
            outcome: result.outcome,
            detail: result.detail,
            advisory,
            latency_ms: result.latency_ms,
        });
        proof {
            assert forall|i: int| 0 <= i < j + 1 implies recorded_as(
                #[trigger] per_predicate@[i],
                ps[i],
                t0,
                count_tier(ps.take(i), 0) as int,
            ) by {
                if i < j {
                    assert(per_predicate@[i] == before[i]);
                } else {
                    assert(ps[i] == p);
                }
            }
        }
    }
    proof {
        assert(ps.take(ps.len() as int) =~= ps);
        assert(t0.take(k as int) =~= t0);
    }
    let outcome = aggregate_outcome(&per_predicate);
    let reason = build_reason(&per_predicate);
    Verdict { subtask_id, outcome, per_predicate, tier_usage: usage, reason, latency_ms }
}

proof fn lemma_count_tier_prefix(ps: Seq<Predicate>, k: int, t: u8)
    requires
        0 <= k <= ps.len(),
    ensures
        count_tier(ps.take(k), t) <= count_tier(ps, t),
    decreases ps.len() - k,
{
    if k < ps.len() {
        assert(ps.drop_last().take(k) =~= ps.take(k));
        lemma_count_tier_prefix(ps.drop_last(), k, t);
    } else {
        assert(ps.take(k) =~= ps);
    }
}

/// The heading under which the failure report lists the results with
/// outcome `o`.
pub open spec fn outcome_heading(o: VerdictOutcome) -> Seq<char> {
    match o {
        VerdictOutcome::Pass => "\u{2713} Verified:\n"@,
        VerdictOutcome::Fail => "\n\u{2717} Could not verify:\n"@,
        VerdictOutcome::Inconclusive => "\n? Inconclusive:\n"@,
    }
}

/// The report line of one result.
pub open spec fn bullet_line(r: PredicateResult) -> Seq<char> {
    "  \u{2022} "@ + r.detail@ + "\n"@
}

/// The lines of the results with outcome `o`, one per result, in order.
pub open spec fn outcome_lines(rs: Seq<PredicateResult>, o: VerdictOutcome) -> Seq<char> {
    rs.filter_map(|r: PredicateResult| if r.outcome == o { Some(bullet_line(r)) } else { None }).flatten()
}

proof fn lemma_bullets_are_lines(rs: Seq<PredicateResult>, o: VerdictOutcome)
    ensures
        bullets(rs, o) == rs.filter_map(|r: PredicateResult| if r.outcome == o { Some(bullet_line(r)) } else { None }).flatten_alt(),
    decreases rs.len(),
{
    if rs.len() > 0 {
        lemma_bullets_are_lines(rs.drop_last(), o);
        let f = |r: PredicateResult| if r.outcome == o { Some(bullet_line(r)) } else { None };
        let ls = rs.filter_map(f);
        let ls0 = rs.drop_last().filter_map(f);
        if rs.last().outcome == o {
            assert(ls == ls0 + seq![bullet_line(rs.last())]);
            assert((ls0 + seq![bullet_line(rs.last())]).drop_last() =~= ls0);
            assert(bullets(rs, o) =~= ls.flatten_alt());
        } else {
            assert(ls == ls0);
        }
    }
}

/// The failure report lists every result under the heading of its
/// outcome: for each outcome that some result has (passed, failed and
/// inconclusive alike), the report holds that heading followed by one
/// "  • detail" line per result with that outcome, in order.
pub proof fn law_failed_report_lists_every_result(v: Verdict, o: VerdictOutcome)
    requires
        count_outcome(v.per_predicate@, o, true) > 0,
    ensures
        exists|k: int| occurs_at(failed_reply_text(v), outcome_heading(o) + outcome_lines(v.per_predicate@, o), k),
{
    let rs = v.per_predicate@;
    let f = |r: PredicateResult| if r.outcome == o { Some(bullet_line(r)) } else { None };
    lemma_bullets_are_lines(rs, o);
    rs.filter_map(f).lemma_flatten_and_flatten_alt_are_equivalent();
    let head = "\u{26a0} **Partial completion.**\n\n"@ + "Witness verified "@ + decimal(count_outcome(rs, VerdictOutcome::Pass, true))
        + "/"@ + decimal(rs.len()) + " postconditions:\n\n"@;
    let sp = section("\u{2713} Verified:\n"@, rs, VerdictOutcome::Pass);
    let sf = section("\n\u{2717} Could not verify:\n"@, rs, VerdictOutcome::Fail);
    let si = section("\n? Inconclusive:\n"@, rs, VerdictOutcome::Inconclusive);
    let t = failed_reply_text(v);
    assert(t == head + sp + sf + si + closing_note());
    let pat = outcome_heading(o) + outcome_lines(rs, o);
    match o {
        VerdictOutcome::Pass => {
            let k = head.len() as int;
            assert(t.subrange(k, k + pat.len()) =~= pat);
            assert(occurs_at(t, pat, k));
        },
        VerdictOutcome::Fail => {
            let k = (head.len() + sp.len()) as int;
            assert(t.subrange(k, k + pat.len()) =~= pat);
            assert(occurs_at(t, pat, k));
        },
        VerdictOutcome::Inconclusive => {
            let k = (head.len() + sp.len() + sf.len()) as int;
            assert(t.subrange(k, k + pat.len()) =~= pat);
            assert(occurs_at(t, pat, k));
        },
    }
}

/// Advisory results do not change the overall outcome: when two lists mark the same
/// positions advisory and have the same outcome at every other position,
/// their overall outcomes are equal.
pub proof fn law_advisory_results_do_not_decide(rs1: Seq<PredicateResult>, rs2: Seq<PredicateResult>)
    requires
        rs1.len() == rs2.len(),
        forall|i: int| 0 <= i < rs1.len() ==> (#[trigger] rs1[i]).advisory == rs2[i].advisory,
        forall|i: int| 0 <= i < rs1.len() && !(#[trigger] rs1[i]).advisory ==> rs1[i].outcome == rs2[i].outcome,
    ensures
        aggregate(rs1) == aggregate(rs2),
{
    assert forall|o: VerdictOutcome| binding_outcome(rs1, o) == binding_outcome(rs2, o) by {
        if binding_outcome(rs1, o) {
            let i = choose|i: int| 0 <= i < rs1.len() && !rs1[i].advisory && #[trigger] rs1[i].outcome == o;
            assert(!rs2[i].advisory && rs2[i].outcome == o);
        }
        if binding_outcome(rs2, o) {
            let i = choose|i: int| 0 <= i < rs2.len() && !rs2[i].advisory && #[trigger] rs2[i].outcome == o;
            assert(!rs1[i].advisory && rs1[i].outcome == o);
        }
    }
}

/// The order of the results does not matter: a verdict is the same for any
/// rearrangement of its results.
pub proof fn law_aggregate_ignores_order(rs1: Seq<PredicateResult>, rs2: Seq<PredicateResult>)
    requires
        rs1.to_multiset() == rs2.to_multiset(),
    ensures
        aggregate(rs1) == aggregate(rs2),
{
    assert forall|o: VerdictOutcome| binding_outcome(rs1, o) ==> binding_outcome(rs2, o) by {
        if binding_outcome(rs1, o) {
            let i = choose|i: int| 0 <= i < rs1.len() && !rs1[i].advisory && #[trigger] rs1[i].outcome == o;
            rs1.to_multiset_ensures();
            rs2.to_multiset_ensures();
            assert(rs1.to_multiset().count(rs1[i]) > 0);
            assert(rs2.contains(rs1[i]));
            let j = choose|j: int| 0 <= j < rs2.len() && rs2[j] == rs1[i];
            assert(!rs2[j].advisory && rs2[j].outcome == o);
        }
    }
    assert forall|o: VerdictOutcome| binding_outcome(rs2, o) ==> binding_outcome(rs1, o) by {
        if binding_outcome(rs2, o) {
            let i = choose|i: int| 0 <= i < rs2.len() && !rs2[i].advisory && #[trigger] rs2[i].outcome == o;
            rs1.to_multiset_ensures();
            rs2.to_multiset_ensures();
            assert(rs2.to_multiset().count(rs2[i]) > 0);
            assert(rs1.contains(rs2[i]));
            let j = choose|j: int| 0 <= j < rs1.len() && rs1[j] == rs2[i];
            assert(!rs1[j].advisory && rs1[j].outcome == o);
        }
    }
}

/// Every result is a pass, a failure or inconclusive: the three tallies add
/// up to the number of results.
pub proof fn law_tallies_add_up(rs: Seq<PredicateResult>)
    ensures
        count_outcome(rs, VerdictOutcome::Pass, true) + count_outcome(rs, VerdictOutcome::Fail, true)
            + count_outcome(rs, VerdictOutcome::Inconclusive, true) == rs.len(),
    decreases rs.len(),
{
    if rs.len() > 0 {
        law_tallies_add_up(rs.drop_last());
    }
}

/// A passing verdict never changes the agent's reply, at any strictness.
pub proof fn law_pass_keeps_reply(agent_reply: Seq<char>, v: Verdict, strictness: WitnessStrictness)
    requires
        v.outcome == VerdictOutcome::Pass,
    ensures
        final_reply_text(agent_reply, v, strictness) == agent_reply,
{
}

/// Under Observe the reply is never changed; under Warn, and for an
/// inconclusive verdict under Block, the agent's reply is kept as the start
/// of the final reply (only a note is appended).
pub proof fn law_reply_kept_as_prefix(agent_reply: Seq<char>, v: Verdict, strictness: WitnessStrictness)
    requires
        strictness == WitnessStrictness::Observe || strictness == WitnessStrictness::Warn
            || v.outcome != VerdictOutcome::Fail,
    ensures
        agent_reply.is_prefix_of(final_reply_text(agent_reply, v, strictness)),
        strictness == WitnessStrictness::Observe ==> final_reply_text(agent_reply, v, strictness) == agent_reply,
{
    let r = final_reply_text(agent_reply, v, strictness);
    assert(agent_reply =~= r.take(agent_reply.len() as int)) by {
        if r != agent_reply {
            assert(r.subrange(0, agent_reply.len() as int) =~= agent_reply);
        }
    }
}

/// Loud failure: when a blocking verdict fails, the final reply is the
/// witness's report alone; whatever the agent claimed is not repeated, so
/// two different agent replies give the same final reply.
pub proof fn law_blocked_failure_ignores_agent_claim(a1: Seq<char>, a2: Seq<char>, v: Verdict, strictness: WitnessStrictness)
    requires
        v.outcome == VerdictOutcome::Fail,
        strictness == WitnessStrictness::Block || strictness == WitnessStrictness::BlockWithRetry,
    ensures
        final_reply_text(a1, v, strictness) == final_reply_text(a2, v, strictness),
        final_reply_text(a1, v, strictness) == failed_reply_text(v),
{
}

} // verus!
