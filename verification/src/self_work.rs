//! Self-work done while the agent sleeps: memory consolidation, session
//! cleanup, blueprint refinement, and two model-driven reviews of recent
//! activity notes. The store and the model belong to the caller; this module
//! decides each step and writes the prompts and result texts.
use vstd::prelude::*;
use crate::text::{joined, occurs_at, push_joined, push_str, string_views};

verus! {

/// The kinds of self-work.
#[derive(Debug, Clone, Copy, PartialEq, Eq, Structural)]
pub enum SelfWorkKind {
    MemoryConsolidation,
    SessionCleanup,
    BlueprintRefinement,
    FailureAnalysis,
    LogIntrospection,
}

/// The first step of a self-work activity.
#[derive(Debug, Clone, PartialEq, Eq)]
pub enum SelfWorkStep {
    /// Remove the expired notes from the store, then report
    /// [`consolidation_summary`].
    CleanupExpiredNotes,
    /// Load up to this many recent notes for the model to review.
    LoadNotes(usize),
    /// Nothing to do but report this text.
    Finished(String),
}

/// The step texts.
pub open spec fn skipped_text() -> Seq<char> {
    "Skipped: no LLM caller available"@
}

/// The kinds that need the model.
pub open spec fn needs_model(kind: SelfWorkKind) -> bool {
    kind == SelfWorkKind::FailureAnalysis || kind == SelfWorkKind::LogIntrospection
}

/// What an activity does first: consolidation cleans expired notes; session
/// cleanup and blueprint refinement only report; the model-driven reviews
/// load 20 (failure analysis) or 10 (introspection) notes, or are skipped
/// when no model is available.
pub fn first_step(kind: SelfWorkKind, model_available: bool) -> (s: SelfWorkStep)
    ensures
        kind == SelfWorkKind::MemoryConsolidation ==> s == SelfWorkStep::CleanupExpiredNotes,
        kind == SelfWorkKind::SessionCleanup ==> (s matches SelfWorkStep::Finished(t) && t@ == "Session cleanup complete"@),
        kind == SelfWorkKind::BlueprintRefinement ==> (s matches SelfWorkStep::Finished(t) && t@ == "Blueprint refinement complete"@),
        needs_model(kind) && !model_available ==> (s matches SelfWorkStep::Finished(t) && t@ == skipped_text()),
        kind == SelfWorkKind::FailureAnalysis && model_available ==> s == SelfWorkStep::LoadNotes(20),
        kind == SelfWorkKind::LogIntrospection && model_available ==> s == SelfWorkStep::LoadNotes(10),
{
    match kind {
        SelfWorkKind::MemoryConsolidation => SelfWorkStep::CleanupExpiredNotes,
        SelfWorkKind::SessionCleanup => SelfWorkStep::Finished("Session cleanup complete".to_owned()),
        SelfWorkKind::BlueprintRefinement => SelfWorkStep::Finished("Blueprint refinement complete".to_owned()),
        SelfWorkKind::FailureAnalysis => {
            if model_available {
                SelfWorkStep::LoadNotes(20)
            } else {
                SelfWorkStep::Finished("Skipped: no LLM caller available".to_owned())
            }
        },
        SelfWorkKind::LogIntrospection => {
            if model_available {
                SelfWorkStep::LoadNotes(10)
            } else {
                SelfWorkStep::Finished("Skipped: no LLM caller available".to_owned())
            }
        },
    }
}

/// What consolidation reports once the expired notes are gone.
pub fn consolidation_summary() -> (t: String)
    ensures
        t@ == "Memory consolidated: expired notes cleaned"@,
{
    "Memory consolidated: expired notes cleaned".to_owned()
}

/// The prompt of a model-driven review: the notes as a bulleted list inside
/// the review's instructions.
pub open spec fn review_prompt(kind: SelfWorkKind, notes: Seq<Seq<char>>) -> Seq<char> {
    if kind == SelfWorkKind::FailureAnalysis {
        "Review these recent agent activity notes and identify any failure patterns or recurring issues:\n- "@
            + joined(notes, "\n- "@) + "\n\nSummarize findings in 2-3 sentences. Focus on actionable patterns."@
    } else {
        "Review these recent agent activity notes and extract any learnings about user preferences or effective strategies:\n- "@
            + joined(notes, "\n- "@) + "\n\nSummarize in 2-3 sentences. Focus on what worked well."@
    }
}

/// What a review reports when there are no notes.
pub open spec fn no_notes_text(kind: SelfWorkKind) -> Seq<char> {
    if kind == SelfWorkKind::FailureAnalysis {
        "No recent notes to analyze"@
    } else {
        "No recent activity to introspect"@
    }
}

/// The second step of a model-driven review, from the loaded notes: with no
/// notes it ends with [`no_notes_text`] (`Err`), else the prompt to send.
pub fn review_request(kind: SelfWorkKind, notes: &Vec<String>) -> (r: Result<String, String>)
    requires
        needs_model(kind),
    ensures
        notes@.len() == 0 ==> (r matches Err(t) && t@ == no_notes_text(kind)),
        notes@.len() > 0 ==> (r matches Ok(p) && p@ == review_prompt(kind, string_views(notes@))),
{
    if notes.len() == 0 {
        if kind == SelfWorkKind::FailureAnalysis {
            return Err("No recent notes to analyze".to_owned());
        } else {
            return Err("No recent activity to introspect".to_owned());
        }
    }
    let mut out = String::new();
    if kind == SelfWorkKind::FailureAnalysis {
        push_str(&mut out, "Review these recent agent activity notes and identify any failure patterns or recurring issues:\n- ");
        push_joined(&mut out, notes, "\n- ");
        push_str(&mut out, "\n\nSummarize findings in 2-3 sentences. Focus on actionable patterns.");
    } else {
        push_str(&mut out, "Review these recent agent activity notes and extract any learnings about user preferences or effective strategies:\n- ");
        push_joined(&mut out, notes, "\n- ");
        push_str(&mut out, "\n\nSummarize in 2-3 sentences. Focus on what worked well.");
    }
    assert(out@ =~= review_prompt(kind, string_views(notes@)));
    Ok(out)
}

/// The model's answer, labelled: saved as a note and reported.
pub open spec fn review_result(kind: SelfWorkKind, answer: Seq<char>) -> Seq<char> {
    if kind == SelfWorkKind::FailureAnalysis {
        "Failure analysis: "@ + answer
    } else {
        "Introspection: "@ + answer
    }
}

/// The labelled answer of a model-driven review.
pub fn review_note(kind: SelfWorkKind, answer: &str) -> (t: String)
    requires
        needs_model(kind),
    ensures
        t@ == review_result(kind, answer@),
{
    let mut out = String::new();
    if kind == SelfWorkKind::FailureAnalysis {
        push_str(&mut out, "Failure analysis: ");
    } else {
        push_str(&mut out, "Introspection: ");
    }
    push_str(&mut out, answer);
    assert(out@ =~= review_result(kind, answer@));
    out
}

/// Item `i` of `ns` sits at position `p` of their join with `sep`: right at
/// the start for the first item, right after a separator otherwise, and
/// followed by a separator unless it is the last.
spec fn joined_slot(ns: Seq<Seq<char>>, sep: Seq<char>, i: int, p: int) -> bool {
    let j = joined(ns, sep);
    &&& 0 <= p
    &&& p + ns[i].len() <= j.len()
    &&& j.subrange(p, p + ns[i].len()) == ns[i]
    &&& i == 0 ==> p == 0
    &&& i > 0 ==> p >= sep.len() && j.subrange(p - sep.len(), p) == sep
    &&& i == ns.len() - 1 ==> p + ns[i].len() == j.len()
    &&& i < ns.len() - 1 ==> p + ns[i].len() + sep.len() <= j.len() && j.subrange(p + ns[i].len(), p + ns[i].len()
        + sep.len()) == sep
}

proof fn lemma_joined_slot(ns: Seq<Seq<char>>, sep: Seq<char>, i: int)
    requires
        0 <= i < ns.len(),
    ensures
        exists|p: int| joined_slot(ns, sep, i, p),
    decreases ns.len(),
{
    let j = joined(ns, sep);
    if ns.len() == 1 {
        assert(j == ns[0]);
        assert(j.subrange(0, ns[0].len() as int) =~= ns[0]);
        assert(joined_slot(ns, sep, i, 0));
    } else {
        let d = ns.drop_last();
        let jd = joined(d, sep);
        assert(j == jd + sep + ns.last());
        if i == ns.len() - 1 {
            let p: int = (jd.len() + sep.len()) as int;
            assert(j.subrange(p, p + ns[i].len()) =~= ns[i]);
            assert(j.subrange(p - sep.len(), p) =~= sep);
            assert(joined_slot(ns, sep, i, p));
        } else {
            lemma_joined_slot(d, sep, i);
            let p = choose|p: int| joined_slot(d, sep, i, p);
            assert(d[i] == ns[i]);
            assert(j.subrange(p, p + ns[i].len()) =~= jd.subrange(p, p + ns[i].len()));
            if i > 0 {
                assert(j.subrange(p - sep.len(), p) =~= jd.subrange(p - sep.len(), p));
            }
            if i == d.len() - 1 {
                assert(j.subrange(p + ns[i].len(), p + ns[i].len() + sep.len()) =~= sep);
            } else {
                assert(j.subrange(p + ns[i].len(), p + ns[i].len() + sep.len()) =~= jd.subrange(
                    p + ns[i].len(),
                    p + ns[i].len() + sep.len(),
                ));
            }
            assert(joined_slot(ns, sep, i, p));
        }
    }
}

/// A review prompt holds every loaded note, each on a line of its own
/// starting with "- ".
pub proof fn law_review_prompt_lists_every_note(kind: SelfWorkKind, notes: Seq<Seq<char>>, i: int)
    requires
        needs_model(kind),
        0 <= i < notes.len(),
    ensures
        exists|k: int| occurs_at(review_prompt(kind, notes), "\n- "@ + notes[i] + "\n"@, k),
{
    reveal_strlit("\n- ");
    reveal_strlit("\n");
    let sep = "\n- "@;
    let head = if kind == SelfWorkKind::FailureAnalysis {
        reveal_strlit("Review these recent agent activity notes and identify any failure patterns or recurring issues:\n- ");
        "Review these recent agent activity notes and identify any failure patterns or recurring issues:\n- "@
    } else {
        reveal_strlit("Review these recent agent activity notes and extract any learnings about user preferences or effective strategies:\n- ");
        "Review these recent agent activity notes and extract any learnings about user preferences or effective strategies:\n- "@
    };
    let tail = if kind == SelfWorkKind::FailureAnalysis {
        reveal_strlit("\n\nSummarize findings in 2-3 sentences. Focus on actionable patterns.");
        "\n\nSummarize findings in 2-3 sentences. Focus on actionable patterns."@
    } else {
        reveal_strlit("\n\nSummarize in 2-3 sentences. Focus on what worked well.");
        "\n\nSummarize in 2-3 sentences. Focus on what worked well."@
    };
    let j = joined(notes, sep);
    let t = review_prompt(kind, notes);
    assert(t == head + j + tail);
    assert(head.subrange(head.len() - 3, head.len() as int) =~= sep);
    assert(tail[0] == '\n');
    lemma_joined_slot(notes, sep, i);
    let p = choose|p: int| joined_slot(notes, sep, i, p);
    let n = notes[i];
    let pat = sep + n + "\n"@;
    let k: int = head.len() + p - 3;
    // the separator before the note
    if i == 0 {
        assert(t.subrange(k, k + 3) =~= head.subrange(head.len() - 3, head.len() as int));
    } else {
        assert(t.subrange(k, k + 3) =~= j.subrange(p - 3, p));
    }
    // the note itself
    assert(t.subrange(k + 3, k + 3 + n.len()) =~= j.subrange(p, p + n.len()));
    // the line end after it
    if i == notes.len() - 1 {
        assert(t[k + 3 + n.len()] == tail[0]);
    } else {
        assert(t[k + 3 + n.len()] == j.subrange(p + n.len(), p + n.len() + 3)[0]);
    }
    assert(t.subrange(k, k + pat.len()) =~= pat);
    assert(occurs_at(t, pat, k));
}

} // verus!
