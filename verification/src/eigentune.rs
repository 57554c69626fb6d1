//! Eigen-Tune engine: the switch that turns distillation on or off, the
//! fallbacks of its hooks (routing degrades to the cloud, a drift alarm
//! demotes), and the aggregation and display of the status report.
use vstd::prelude::*;
use vstd::string::*;
use crate::text::{decimal, push_char, push_decimal, push_signed_decimal, push_str, signed_decimal};

verus! {

/// Engine configuration.
#[derive(Debug, Clone)]
pub struct EigenTuneConfig {
    /// Whether the engine collects, trains and routes at all.
    pub enabled: bool,
    /// Sample budget of the shadow-phase sequential test.
    pub sprt_max_samples: u64,
}

/// The Eigen-Tune engine. Every hook degrades to the cloud model on failure.
pub struct EigenTuneEngine {
    config: EigenTuneConfig,
}

impl EigenTuneEngine {
    pub closed spec fn config_of(&self) -> EigenTuneConfig {
        self.config
    }

    /// An engine with a copy of `config`.
    pub fn new(config: &EigenTuneConfig) -> (e: Self)
        ensures
            e.config_of().enabled == config.enabled,
            e.config_of().sprt_max_samples == config.sprt_max_samples,
    {
        EigenTuneEngine {
            config: EigenTuneConfig { enabled: config.enabled, sprt_max_samples: config.sprt_max_samples },
        }
    }

    /// Whether the engine is enabled.
    pub fn is_enabled(&self) -> (b: bool)
        ensures
            b == self.config_of().enabled,
    {
        self.config.enabled
    }
}

/// Where a request is served.
#[derive(Debug, Clone, PartialEq, Eq)]
pub enum RouteDecision {
    /// The cloud provider; also the answer whenever routing fails.
    Cloud,
    /// A distilled local model, by name.
    Local(String),
    /// The cloud provider, with the named local model answering alongside.
    Shadow(String),
}

/// The routing hook's answer from what the router reported: its decision,
/// or the cloud when routing failed, so failures degrade to the cloud.
pub fn route_decision(res: Result<RouteDecision, String>) -> (d: RouteDecision)
    ensures
        d == match res {
            Ok(x) => x,
            Err(_) => RouteDecision::Cloud,
        },
{
    match res {
        Ok(x) => x,
        Err(_) => RouteDecision::Cloud,
    }
}

/// Whether a graduated tier is demoted after a monitor observation: only
/// when the drift monitor raised its alarm; a failed observation changes
/// nothing.
pub fn should_demote(observed: Result<bool, String>) -> (b: bool)
    ensures
        b == (observed matches Ok(true)),
{
    match observed {
        Ok(alarm) => alarm,
        Err(_) => false,
    }
}

/// The (category, count) pairs of all tiers, tier after tier.
pub open spec fn flatten_counts(tiers: Seq<Vec<(String, i64)>>) -> Seq<(Seq<char>, int)>
    decreases tiers.len(),
{
    if tiers.len() == 0 {
        Seq::empty()
    } else {
        flatten_counts(tiers.drop_last()) + tiers.last()@.map_values(|p: (String, i64)| (p.0@, p.1 as int))
    }
}

/// Position of the first entry named `c`.
pub open spec fn position_of(m: Seq<(Seq<char>, int)>, c: Seq<char>) -> Option<int>
    decreases m.len(),
{
    if m.len() == 0 {
        None
    } else {
        match position_of(m.drop_last(), c) {
            Some(i) => Some(i),
            None => if m.last().0 == c { Some(m.len() - 1) } else { None },
        }
    }
}

/// Counts summed per category, categories in order of first appearance.
pub open spec fn merged_counts(ps: Seq<(Seq<char>, int)>) -> Seq<(Seq<char>, int)>
    decreases ps.len(),
{
    if ps.len() == 0 {
        Seq::empty()
    } else {
        let m = merged_counts(ps.drop_last());
        let (c, n) = ps.last();
        match position_of(m, c) {
            Some(i) => m.update(i, (c, m[i].1 + n)),
            None => m.push((c, n)),
        }
    }
}

/// Every running sum stays in the 64-bit range.
pub open spec fn sums_fit(ps: Seq<(Seq<char>, int)>) -> bool {
    forall|k: int, i: int| 0 <= k <= ps.len() && 0 <= i < merged_counts(ps.take(k)).len() ==>
        i64::MIN <= #[trigger] merged_counts(ps.take(k))[i].1 <= i64::MAX
}

proof fn lemma_position_of(m: Seq<(Seq<char>, int)>, c: Seq<char>)
    ensures
        match position_of(m, c) {
            Some(i) => 0 <= i < m.len() && m[i].0 == c && forall|j: int| 0 <= j < i ==> m[j].0 != c,
            None => forall|j: int| 0 <= j < m.len() ==> m[j].0 != c,
        },
    decreases m.len(),
{
    if m.len() > 0 {
        let d = m.drop_last();
        lemma_position_of(d, c);
        assert forall|j: int| 0 <= j < d.len() implies d[j] == m[j] by {}
    }
}

/// The pairs of `s` with their names and counts as plain values.
pub open spec fn count_view(s: Seq<(String, i64)>) -> Seq<(Seq<char>, int)> {
    s.map_values(|p: (String, i64)| (p.0@, p.1 as int))
}

/// All pairs of all tiers, in order.
fn flatten_tiers(tiers: Vec<Vec<(String, i64)>>) -> (flat: Vec<(String, i64)>)
    ensures
        count_view(flat@) == flatten_counts(tiers@),
{
    let ghost tv = tiers@;
    let mut flat: Vec<(String, i64)> = Vec::new();
    for tier in it: tiers
        invariant
            it.seq() == tv,
            count_view(flat@) == flatten_counts(tv.take(it.index() as int)),
    {
        let ghost before = flat@;
        let ghost tier_v = tier@;
        for p in jt: tier
            invariant
                jt.seq() == tier_v,
                flat@ == before + tier_v.take(jt.index() as int),
        {
            flat.push(p);
            assert(flat@ =~= before + tier_v.take(jt.index() + 1));
        }
        proof {
            assert(tier_v.take(tier_v.len() as int) =~= tier_v);
            let k = it.index() as int;
            assert(tv.take(k + 1).drop_last() =~= tv.take(k));
            assert(tv.take(k + 1).last()@ == tier_v);
            assert(count_view(before + tier_v) =~= count_view(before) + count_view(tier_v));
        }
    }
    assert(tv.take(tv.len() as int) =~= tv);
    flat
}

/// Sum the per-tier category counts into one list, categories in order of
/// first appearance, as the status report shows them.
pub fn merge_category_counts(tiers: Vec<Vec<(String, i64)>>) -> (out: Vec<(String, i64)>)
    requires
        sums_fit(flatten_counts(tiers@)),
    ensures
        count_view(out@) == merged_counts(flatten_counts(tiers@)),
{
    let flat = flatten_tiers(tiers);
    let ghost ps = count_view(flat@);
    let ghost fv = flat@;
    let mut out: Vec<(String, i64)> = Vec::new();
    for p in it: flat
        invariant
            it.seq() == fv,
            ps == count_view(fv),
            sums_fit(ps),
            count_view(out@) == merged_counts(ps.take(it.index() as int)),
    {
        let ghost k = it.index() as int;
        let ghost m = merged_counts(ps.take(k));
        proof {
            assert(ps.take(k + 1).drop_last() =~= ps.take(k));
            assert(ps.take(k + 1).last() == (p.0@, p.1 as int));
            lemma_position_of(m, p.0@);
        }
        let (name, n) = p;
        let mut j: usize = 0;
        while j < out.len() && !(out[j].0 == name)
            invariant
                j <= out@.len(),
                count_view(out@) == m,
                forall|t: int| 0 <= t < j ==> out@[t].0@ != name@,
            decreases out@.len() - j,
        {
            j = j + 1;
        }
        proof {
            assert(m.len() == out@.len());
            assert forall|t: int| 0 <= t < j implies m[t].0 != name@ by {
                assert(m[t] == (out@[t].0@, out@[t].1 as int));
            }
        }
        if j < out.len() {
            proof {
                assert(m[j as int] == (out@[j as int].0@, out@[j as int].1 as int));
                assert(position_of(m, name@) == Some(j as int));
                assert(merged_counts(ps.take(k + 1)) == m.update(j as int, (name@, m[j as int].1 + n)));
                assert(i64::MIN <= merged_counts(ps.take(k + 1))[j as int].1 <= i64::MAX);
            }
            let total: i64 = out[j].1 + n;
            let key = out[j].0.clone();
            out.set(j, (key, total));
            assert(count_view(out@) =~= merged_counts(ps.take(k + 1)));
        } else {
            proof {
                assert(position_of(m, name@) is None);
            }
            out.push((name, n));
            assert(count_view(out@) =~= merged_counts(ps.take(k + 1)));
        }
    }
    assert(ps.take(ps.len() as int) =~= ps);
    out
}

/// Sum of the counts.
pub open spec fn total_count(ps: Seq<(Seq<char>, int)>) -> int
    decreases ps.len(),
{
    if ps.len() == 0 {
        0
    } else {
        total_count(ps.drop_last()) + ps.last().1
    }
}

proof fn lemma_total_update(m: Seq<(Seq<char>, int)>, i: int, x: (Seq<char>, int))
    requires
        0 <= i < m.len(),
    ensures
        total_count(m.update(i, x)) == total_count(m) - m[i].1 + x.1,
    decreases m.len(),
{
    if i == m.len() - 1 {
        assert(m.update(i, x).drop_last() =~= m.drop_last());
    } else {
        lemma_total_update(m.drop_last(), i, x);
        assert(m.update(i, x).drop_last() =~= m.drop_last().update(i, x));
    }
}

/// Some pair is named `c`.
pub open spec fn has_category(ps: Seq<(Seq<char>, int)>, c: Seq<char>) -> bool {
    exists|i: int| 0 <= i < ps.len() && #[trigger] ps[i].0 == c
}

/// Merging keeps every count: the merged total is the total of all tiers,
/// each category appears once, and exactly the categories seen appear.
pub proof fn law_merge_preserves_counts(ps: Seq<(Seq<char>, int)>)
    ensures
        total_count(merged_counts(ps)) == total_count(ps),
        forall|i: int, j: int| 0 <= i < j < merged_counts(ps).len() ==> merged_counts(ps)[i].0 != merged_counts(ps)[j].0,
        forall|c: Seq<char>| #[trigger] has_category(ps, c) == has_category(merged_counts(ps), c),
    decreases ps.len(),
{
    if ps.len() > 0 {
        let d = ps.drop_last();
        law_merge_preserves_counts(d);
        let m = merged_counts(d);
        let (c, n) = ps.last();
        lemma_position_of(m, c);
        assert(total_count(ps) == total_count(d) + n);
        match position_of(m, c) {
            Some(i) => {
                lemma_total_update(m, i, (c, m[i].1 + n));
            },
            None => {
                assert(m.push((c, n)).drop_last() =~= m);
            },
        }
        let mp = merged_counts(ps);
        assert forall|x: Seq<char>| #[trigger] has_category(ps, x) == has_category(mp, x) by {
            if has_category(ps, x) {
                let i = choose|i: int| 0 <= i < ps.len() && #[trigger] ps[i].0 == x;
                if i < d.len() {
                    assert(d[i].0 == x);
                    assert(has_category(d, x));
                    let j = choose|j: int| 0 <= j < m.len() && #[trigger] m[j].0 == x;
                    assert(mp[j].0 == x);
                } else {
                    match position_of(m, c) {
                        Some(k) => { assert(mp[k].0 == x); },
                        None => { assert(mp[m.len() as int].0 == x); },
                    }
                }
            }
            if has_category(mp, x) {
                let j = choose|j: int| 0 <= j < mp.len() && #[trigger] mp[j].0 == x;
                if j < m.len() && m[j].0 == x {
                    assert(has_category(m, x));
                    assert(has_category(d, x));
                    let i = choose|i: int| 0 <= i < d.len() && #[trigger] d[i].0 == x;
                    assert(ps[i] == d[i]);
                    assert(ps[i].0 == x);
                } else {
                    assert(x == c);
                    assert(ps[ps.len() - 1].0 == x);
                }
            }
        }
    }
}

/// The phase of a tier as the status display distinguishes it.
#[derive(Debug, Clone, Copy, PartialEq, Eq, Structural)]
pub enum TierPhase {
    /// Serving its own distilled model.
    Graduated,
    /// Running alongside the cloud model under the sequential test.
    Shadowing,
    /// Any earlier phase.
    Other,
}

/// One tier's line of the status display: its name, its state's name and
/// its phase.
#[derive(Debug, Clone)]
pub struct TierLine {
    pub tier: String,
    pub state: String,
    pub phase: TierPhase,
}

/// The phase icon: filled when graduated, half when shadowing, empty else.
pub open spec fn phase_icon(p: TierPhase) -> Seq<char> {
    match p {
        TierPhase::Graduated => "\u{25cf}"@,
        TierPhase::Shadowing => "\u{25d0}"@,
        TierPhase::Other => "\u{25cb}"@,
    }
}

/// `s` padded with spaces on the right to at least `width` characters.
pub open spec fn padded(s: Seq<char>, width: nat) -> Seq<char> {
    if s.len() >= width {
        s
    } else {
        s + Seq::new((width - s.len()) as nat, |i: int| ' ')
    }
}

/// "icon name(padded to 8) state" and a newline.
pub open spec fn tier_line(t: TierLine) -> Seq<char> {
    phase_icon(t.phase) + " "@ + padded(t.tier@, 8) + " "@ + t.state@ + "\n"@
}

fn push_tier_line(out: &mut String, t: &TierLine)
    ensures
        final(out)@ == old(out)@ + tier_line(*t),
{
    match t.phase {
        TierPhase::Graduated => push_str(out, "\u{25cf}"),
        TierPhase::Shadowing => push_str(out, "\u{25d0}"),
        TierPhase::Other => push_str(out, "\u{25cb}"),
    }
    push_str(out, " ");
    push_padded(out, t.tier.as_str(), 8);
    push_str(out, " ");
    push_str(out, t.state.as_str());
    push_str(out, "\n");
    assert(final(out)@ =~= old(out)@ + tier_line(*t));
}

/// One tier line for each tier in order.
pub open spec fn tier_lines(ts: Seq<TierLine>) -> Seq<char>
    decreases ts.len(),
{
    if ts.len() == 0 {
        Seq::empty()
    } else {
        tier_lines(ts.drop_last()) + tier_line(ts.last())
    }
}

/// The status display: header, data counts, diversity (already written out
/// with two decimals) and one line per tier.
pub open spec fn status_text(total_pairs: i64, high_quality: i64, diversity: Seq<char>, ts: Seq<TierLine>) -> Seq<char> {
    "EIGEN-TUNE STATUS\n\n"@ + "Data: "@ + signed_decimal(total_pairs as int) + " pairs collected | "@
        + signed_decimal(high_quality as int) + " high-quality\n"@ + "Diversity: J = "@ + diversity + "\n\n"@
        + tier_lines(ts)
}

/// Appends `s` padded with spaces to `width` characters.
fn push_padded(out: &mut String, s: &str, width: usize)
    ensures
        final(out)@ == old(out)@ + padded(s@, width as nat),
{
    push_str(out, s);
    let n = s.unicode_len();
    let mut k = n;
    while k < width
        invariant
            n == s@.len(),
            n <= k <= width || (n > width && k == n),
            out@ == old(out)@ + s@ + Seq::new((k - n) as nat, |i: int| ' '),
        decreases width - k,
    {
        push_char(out, ' ');
        k = k + 1;
        assert(out@ =~= old(out)@ + s@ + Seq::new((k - n) as nat, |i: int| ' '));
    }
    assert(final(out)@ =~= old(out)@ + padded(s@, width as nat)) by {
        if n >= width {
            assert(Seq::new(0nat, |i: int| ' ') =~= Seq::<char>::empty());
        }
    }
}

/// Render the status display for chat.
pub fn format_status_text(total_pairs: i64, high_quality: i64, diversity: &str, tiers: &Vec<TierLine>) -> (t: String)
    ensures
        t@ == status_text(total_pairs, high_quality, diversity@, tiers@),
{
    let mut out = String::new();
    push_str(&mut out, "EIGEN-TUNE STATUS\n\n");
    push_str(&mut out, "Data: ");
    push_signed_decimal(&mut out, total_pairs);
    push_str(&mut out, " pairs collected | ");
    push_signed_decimal(&mut out, high_quality);
    push_str(&mut out, " high-quality\n");
    push_str(&mut out, "Diversity: J = ");
    push_str(&mut out, diversity);
    push_str(&mut out, "\n\n");
    let ghost head = out@;
    let mut i: usize = 0;
    while i < tiers.len()
        invariant
            i <= tiers@.len(),
            out@ == head + tier_lines(tiers@.take(i as int)),
        decreases tiers@.len() - i,
    {
        proof {
            assert(tiers@.take(i + 1).drop_last() =~= tiers@.take(i as int));
        }
        push_tier_line(&mut out, &tiers[i]);
        i = i + 1;
        assert(out@ =~= head + tier_lines(tiers@.take(i as int)));
    }
    assert(tiers@.take(tiers@.len() as int) =~= tiers@);
    assert(out@ =~= status_text(total_pairs, high_quality, diversity@, tiers@));
    out
}

/// The status display when the status could not be read.
pub fn status_error_text(err: &str) -> (r: String)
    ensures
        r@ == "Eigen-Tune: error: "@ + err@,
{
    let mut out = String::new();
    push_str(&mut out, "Eigen-Tune: error: ");
    push_str(&mut out, err);
    out
}

/// The shadow-test progress shown for a tier: "samples/budget" while it is
/// shadowing, nothing otherwise.
pub fn shadow_progress(phase: TierPhase, sprt_n: i64, sprt_max_samples: u64) -> (p: Option<String>)
    ensures
        phase == TierPhase::Shadowing ==> (p matches Some(t) && t@ == signed_decimal(sprt_n as int) + "/"@
            + decimal(sprt_max_samples as nat)),
        phase != TierPhase::Shadowing ==> p is None,
{
    if phase == TierPhase::Shadowing {
        let mut out = String::new();
        push_signed_decimal(&mut out, sprt_n);
        push_str(&mut out, "/");
        push_decimal(&mut out, sprt_max_samples);
        assert(out@ =~= signed_decimal(sprt_n as int) + "/"@ + decimal(sprt_max_samples as nat));
        Some(out)
    } else {
        None
    }
}

/// The serving model shown for a tier: the distilled model's name when the
/// tier serves a trained run, nothing otherwise.
pub fn serving_model(has_serving_run: bool) -> (m: Option<String>)
    ensures
        has_serving_run ==> (m matches Some(t) && t@ == "eigentune-model"@),
        !has_serving_run ==> m is None,
{
    if has_serving_run {
        Some("eigentune-model".to_owned())
    } else {
        None
    }
}

} // verus!
