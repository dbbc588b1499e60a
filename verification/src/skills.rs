//! The skill engine's evaluation half: it compares past importance
//! predictions with the user's later actions, computes a lenient accuracy,
//! applies one uniform confidence delta to every active skill, and retires
//! skills whose confidence has fallen too low.

use vstd::prelude::*;
use vstd::pervasive::VecAdditionalExecFns;
use vstd::string::StringExecFns;

use crate::store::{TriageStore, spec_clamp_confidence};
use crate::text::{spec_decimal, u64_to_string};
use crate::types::{CONFIDENCE_DEACTIVATE, CONFIDENCE_DELTA, CONFIDENCE_MAX, Importance, Skill,
    TriageRecord, UserAction};

verus! {

/// How many prediction/action pairs one evaluation considers.
pub const FEEDBACK_LIMIT: usize = 50;

/// Whether a prediction counts as confirmed by the action. The table is
/// lenient: combinations it does not name count as correct.
pub open spec fn spec_prediction_correct(imp: Importance, action: UserAction) -> bool {
    match (imp, action) {
        (Importance::High, UserAction::Replied) => true,
        (Importance::High, UserAction::Opened) => true,
        (Importance::High, UserAction::Starred) => true,
        (Importance::Low, UserAction::Ignored) => true,
        (Importance::Low, UserAction::Deleted) => true,
        (Importance::Medium, UserAction::Opened) => true,
        (Importance::High, UserAction::Ignored) => false,
        (Importance::High, UserAction::Deleted) => false,
        (Importance::Low, UserAction::Replied) => false,
        (Importance::Low, UserAction::Starred) => false,
        _ => true,
    }
}

pub fn prediction_correct(imp: Importance, action: UserAction) -> (r: bool)
    ensures
        r == spec_prediction_correct(imp, action),
{
    match (imp, action) {
        (Importance::High, UserAction::Ignored) => false,
        (Importance::High, UserAction::Deleted) => false,
        (Importance::Low, UserAction::Replied) => false,
        (Importance::Low, UserAction::Starred) => false,
        _ => true,
    }
}

/// The (prediction, action) pairs one classification record at `full[idx]`
/// contributes: one pair per behavior record of the same message, walking the
/// log forward from `j`.
pub open spec fn spec_pairs_for_rec(
    full: Seq<TriageRecord>,
    imp: Importance,
    email: Seq<char>,
    j: int,
) -> Seq<(Importance, UserAction)>
    decreases full.len() - j,
{
    if j < 0 || j >= full.len() {
        Seq::empty()
    } else {
        let head: Seq<(Importance, UserAction)> = if full[j].user_action is Some
            && full[j].email_id@ == email {
            seq![(imp, full[j].user_action->0)]
        } else {
            Seq::empty()
        };
        head + spec_pairs_for_rec(full, imp, email, j + 1)
    }
}

/// The pairs contributed by the record at index `i - 1` (none unless it is a
/// classification record).
pub open spec fn spec_pairs_at(full: Seq<TriageRecord>, i: int) -> Seq<(Importance, UserAction)> {
    if full[i].importance is Some && full[i].user_action is None {
        spec_pairs_for_rec(full, full[i].importance->0, full[i].email_id@, 0)
    } else {
        Seq::empty()
    }
}

/// All pairs, newest classification record first.
pub open spec fn spec_feedback_rec(full: Seq<TriageRecord>, i: int) -> Seq<
    (Importance, UserAction),
>
    decreases i,
{
    if i <= 0 {
        Seq::empty()
    } else {
        spec_pairs_at(full, i - 1) + spec_feedback_rec(full, i - 1)
    }
}

/// The most recent pairs, capped at the evaluation window.
pub open spec fn spec_feedback_pairs(full: Seq<TriageRecord>) -> Seq<(Importance, UserAction)> {
    let all = spec_feedback_rec(full, full.len() as int);
    if all.len() <= FEEDBACK_LIMIT {
        all
    } else {
        all.take(FEEDBACK_LIMIT as int)
    }
}

/// How many pairs the table counts as correct.
pub open spec fn spec_correct_count(pairs: Seq<(Importance, UserAction)>) -> int
    decreases pairs.len(),
{
    if pairs.len() == 0 {
        0
    } else {
        spec_correct_count(pairs.drop_last()) + (if spec_prediction_correct(
            pairs.last().0,
            pairs.last().1,
        ) {
            1int
        } else {
            0int
        })
    }
}

/// Whether overall accuracy exceeds the 0.7 bar that earns a confidence
/// boost; with no comparable pairs accuracy defaults to 0.5, below the bar.
pub open spec fn spec_accuracy_good(correct: int, incorrect: int) -> bool {
    correct + incorrect > 0 && 10 * correct > 7 * (correct + incorrect)
}

/// One skill after an evaluation cycle: an active skill's confidence moves
/// by the uniform delta (up when accuracy was good) and is clamped into the
/// band; any skill left below the retirement bound is deactivated.
pub open spec fn spec_skill_after_eval(k: Skill, good: bool, now: i64) -> Skill {
    let nc = if k.active {
        if good {
            spec_clamp_confidence(k.confidence + CONFIDENCE_DELTA)
        } else {
            spec_clamp_confidence(k.confidence - CONFIDENCE_DELTA)
        }
    } else {
        k.confidence
    };
    Skill {
        confidence: nc,
        active: k.active && nc >= CONFIDENCE_DEACTIVATE,
        updated_at: if k.active {
            now
        } else {
            k.updated_at
        },
        ..k
    }
}

/// Confidence bounds: starting from skills within the band, an evaluation
/// cycle leaves every skill's confidence within the band, and leaves every
/// skill whose confidence sits below the retirement bound inactive — however
/// many cycles run, since the bound is re-established each time.
pub proof fn lemma_confidence_bounds(olds: Seq<Skill>, good: bool, now: i64)
    requires
        forall|i: int| 0 <= i < olds.len() ==> (#[trigger] olds[i]).confidence <= CONFIDENCE_MAX,
    ensures
        forall|i: int|
            0 <= i < olds.len() ==> {
                let k = spec_skill_after_eval(#[trigger] olds[i], good, now);
                k.confidence <= CONFIDENCE_MAX && (k.confidence < CONFIDENCE_DEACTIVATE
                    ==> !k.active)
            },
{
}

/// Whether the log's recent feedback earns a confidence boost.
pub open spec fn spec_log_accuracy_good(log: Seq<TriageRecord>) -> bool {
    spec_accuracy_good(
        spec_correct_count(spec_feedback_pairs(log)),
        spec_feedback_pairs(log).len() - spec_correct_count(spec_feedback_pairs(log)),
    )
}

/// What one evaluation reports.
#[derive(Clone, Copy, Debug, PartialEq, Eq, Structural)]
pub struct EvalReport {
    pub correct: usize,
    pub incorrect: usize,
}

impl TriageStore {
    /// The most recent prediction/action pairs, newest prediction first,
    /// capped at the evaluation window.
    pub fn collect_feedback_pairs(&self) -> (r: Vec<(Importance, UserAction)>)
        ensures
            r@ == spec_feedback_pairs(self.triage_log@),
    {
        let full = &self.triage_log;
        let n = full.len();
        let mut out: Vec<(Importance, UserAction)> = Vec::new();
        let mut i: usize = n;
        while i > 0
            invariant
                i <= n,
                n == full@.len(),
                full@ == self.triage_log@,
                out@ + spec_feedback_rec(full@, i as int) == spec_feedback_rec(full@, n as int),
            decreases i,
        {
            i = i - 1;
            proof {
                assert(spec_feedback_rec(full@, i + 1) == spec_pairs_at(full@, i as int)
                    + spec_feedback_rec(full@, i as int));
            }
            let rec = full[i].clone();
            if rec.importance.is_some() && rec.user_action.is_none() {
                let imp = rec.importance.unwrap();
                let ghost email = rec.email_id@;
                let mut j: usize = 0;
                let ghost base = out@;
                while j < n
                    invariant
                        j <= n,
                        n == full@.len(),
                        full@ == self.triage_log@,
                        rec == full@[i as int],
                        0 <= i < n,
                        imp == full@[i as int].importance->0,
                        email == full@[i as int].email_id@,
                        base.len() <= out@.len(),
                        out@.take(base.len() as int) == base,
                        spec_pairs_for_rec(full@, imp, email, 0) == out@.skip(base.len() as int)
                            + spec_pairs_for_rec(full@, imp, email, j as int),
                    decreases n - j,
                {
                    let matches = self.triage_log[j].user_action.is_some() && crate::text::str_eq(
                        self.triage_log[j].email_id.as_str(),
                        rec.email_id.as_str(),
                    );
                    if matches {
                        let a = self.triage_log[j].user_action.unwrap();
                        out.push((imp, a));
                        proof {
                            let mid = out@.drop_last().skip(base.len() as int);
                            assert(out@.take(base.len() as int) =~= base);
                            assert(out@.skip(base.len() as int) =~= mid.push((imp, a)));
                            assert(spec_pairs_for_rec(full@, imp, email, j as int) == seq![
                                (imp, full@[j as int].user_action->0),
                            ] + spec_pairs_for_rec(full@, imp, email, j + 1));
                            assert(mid + (seq![(imp, a)] + spec_pairs_for_rec(
                                full@,
                                imp,
                                email,
                                j + 1,
                            )) =~= mid.push((imp, a)) + spec_pairs_for_rec(full@, imp, email, j + 1));
                        }
                    } else {
                        proof {
                            assert(spec_pairs_for_rec(full@, imp, email, j as int)
                                =~= Seq::<(Importance, UserAction)>::empty() + spec_pairs_for_rec(
                                full@,
                                imp,
                                email,
                                j + 1,
                            ));
                            assert(Seq::<(Importance, UserAction)>::empty() + spec_pairs_for_rec(
                                full@,
                                imp,
                                email,
                                j + 1,
                            ) =~= spec_pairs_for_rec(full@, imp, email, j + 1));
                        }
                    }
                    j = j + 1;
                }
                proof {
                    assert(spec_pairs_for_rec(full@, imp, email, n as int) =~= Seq::empty());
                    assert(out@.skip(base.len() as int) + Seq::<(Importance, UserAction)>::empty()
                        =~= out@.skip(base.len() as int));
                    assert(out@ =~= out@.take(base.len() as int) + out@.skip(base.len() as int));
                    assert(spec_pairs_at(full@, i as int) == spec_pairs_for_rec(
                        full@,
                        imp,
                        email,
                        0,
                    ));
                    assert(out@ + spec_feedback_rec(full@, i as int) =~= base + (spec_pairs_at(
                        full@,
                        i as int,
                    ) + spec_feedback_rec(full@, i as int)));
                }
            } else {
                proof {
                    assert(spec_pairs_at(full@, i as int) =~= Seq::empty());
                    assert(spec_pairs_at(full@, i as int) + spec_feedback_rec(full@, i as int)
                        =~= spec_feedback_rec(full@, i as int));
                }
            }
        }
        proof {
            assert(out@ + spec_feedback_rec(full@, 0) =~= out@);
        }
        if out.len() > FEEDBACK_LIMIT {
            out.truncate(FEEDBACK_LIMIT);
        }
        out
    }

    /// One evaluation cycle: tally the recent pairs, then move every active
    /// skill's confidence by one uniform step (up on good accuracy, down
    /// otherwise), clamped into the band, and deactivate any skill whose
    /// confidence sits below the retirement bound.
    pub fn evaluate_skills(&mut self, now: i64) -> (r: EvalReport)
        requires
            old(self).wf(),
        ensures
            final(self).wf(),
            r.correct == spec_correct_count(spec_feedback_pairs(old(self).triage_log@)),
            r.correct + r.incorrect == spec_feedback_pairs(old(self).triage_log@).len(),
            final(self).skills@ == old(self).skills@.map_values(
                |k: Skill| spec_skill_after_eval(k, spec_log_accuracy_good(old(self).triage_log@), now),
            ),
            forall|i: int|
                0 <= i < final(self).skills@.len() ==> ((#[trigger] final(self).skills@[i]).confidence
                    < CONFIDENCE_DEACTIVATE ==> !final(self).skills@[i].active),
            final(self).emails@ == old(self).emails@,
            final(self).triage_log@ == old(self).triage_log@,
            final(self).vips@ == old(self).vips@,
            final(self).summaries@ == old(self).summaries@,
            final(self).config@ == old(self).config@,
            final(self).next_skill_id == old(self).next_skill_id,
    {
        let pairs = self.collect_feedback_pairs();
        let total = pairs.len();
        let mut correct: usize = 0;
        let mut k: usize = 0;
        proof {
            assert(pairs@.take(0) =~= Seq::empty());
        }
        while k < total
            invariant
                k <= total,
                total == pairs@.len(),
                correct <= k,
                correct == spec_correct_count(pairs@.take(k as int)),
            decreases total - k,
        {
            proof {
                assert(pairs@.take(k + 1).drop_last() =~= pairs@.take(k as int));
                assert(pairs@.take(k + 1).last() == pairs@[k as int]);
            }
            let (imp, action) = pairs[k];
            if prediction_correct(imp, action) {
                correct = correct + 1;
            }
            k = k + 1;
        }
        proof {
            assert(pairs@.take(total as int) =~= pairs@);
        }
        let incorrect = total - correct;
        let good = correct + incorrect > 0 && 10 * correct > 7 * (correct + incorrect);

        let n = self.skills.len();
        let mut i: usize = 0;
        while i < n
            invariant
                i <= n,
                n == self.skills@.len(),
                n == old(self).skills@.len(),
                old(self).wf(),
                good == spec_accuracy_good(
                    spec_correct_count(spec_feedback_pairs(old(self).triage_log@)),
                    spec_feedback_pairs(old(self).triage_log@).len() - spec_correct_count(
                        spec_feedback_pairs(old(self).triage_log@),
                    ),
                ),
                self.emails@ == old(self).emails@,
                self.triage_log@ == old(self).triage_log@,
                self.vips@ == old(self).vips@,
                self.summaries@ == old(self).summaries@,
                self.config@ == old(self).config@,
                self.next_skill_id == old(self).next_skill_id,
                forall|j: int| i <= j < n ==> self.skills@[j] == old(self).skills@[j],
                forall|j: int|
                    0 <= j < i ==> {
                        let oldsk = old(self).skills@[j];
                        let newsk = #[trigger] self.skills@[j];
                        let nc = if oldsk.active {
                            if good {
                                spec_clamp_confidence(oldsk.confidence + CONFIDENCE_DELTA)
                            } else {
                                spec_clamp_confidence(oldsk.confidence - CONFIDENCE_DELTA)
                            }
                        } else {
                            oldsk.confidence
                        };
                        &&& newsk.confidence == nc
                        &&& newsk.active == (oldsk.active && nc >= CONFIDENCE_DEACTIVATE)
                        &&& newsk.updated_at == (if oldsk.active {
                            now
                        } else {
                            oldsk.updated_at
                        })
                        &&& newsk.id == oldsk.id
                        &&& newsk.skill_type == oldsk.skill_type
                        &&& newsk.description == oldsk.description
                        &&& newsk.rule == oldsk.rule
                        &&& newsk.times_applied == oldsk.times_applied
                        &&& newsk.times_correct == oldsk.times_correct
                        &&& newsk.created_at == oldsk.created_at
                    },
            decreases n - i,
        {
            let mut e = self.skills[i].clone();
            if e.active {
                proof {
                    assert(old(self).skills@[i as int].wf());
                }
                e.confidence = if good {
                    if e.confidence + CONFIDENCE_DELTA > CONFIDENCE_MAX {
                        CONFIDENCE_MAX
                    } else {
                        e.confidence + CONFIDENCE_DELTA
                    }
                } else {
                    if e.confidence < CONFIDENCE_DELTA {
                        0
                    } else {
                        e.confidence - CONFIDENCE_DELTA
                    }
                };
                e.updated_at = now;
            }
            if e.confidence < CONFIDENCE_DEACTIVATE {
                e.active = false;
            }
            proof {
                assert(spec_skill_after_eval(old(self).skills@[i as int], good, now) == e);
            }
            self.skills.set(i, e);
            i = i + 1;
        }
        proof {
            assert(self.skills@ =~= old(self).skills@.map_values(
                |k: Skill| spec_skill_after_eval(k, spec_log_accuracy_good(old(self).triage_log@), now),
            ));
        }
        EvalReport { correct, incorrect }
    }
}

/// The user-facing evaluation report, with accuracy as a rounded percentage.
pub fn eval_report_message(report: &EvalReport) -> (r: String)
    requires
        report.correct + report.incorrect <= FEEDBACK_LIMIT,
    ensures
        r@ == "📊 Evaluación: "@ + spec_decimal(report.correct as nat) + " correctas, "@
            + spec_decimal(report.incorrect as nat) + " incorrectas. Precisión: "@ + spec_decimal(
            spec_accuracy_percent(report.correct as int, report.incorrect as int) as nat,
        ) + "%. Skills ajustados."@,
{
    let total = report.correct + report.incorrect;
    let percent: u64 = if total == 0 {
        50
    } else {
        ((200 * report.correct + total) / (2 * total)) as u64
    };
    let mut r = String::from_str("📊 Evaluación: ");
    let c = u64_to_string(report.correct as u64);
    r.append(c.as_str());
    r.append(" correctas, ");
    let ic = u64_to_string(report.incorrect as u64);
    r.append(ic.as_str());
    r.append(" incorrectas. Precisión: ");
    let p = u64_to_string(percent);
    r.append(p.as_str());
    r.append("%. Skills ajustados.");
    proof {
        assert(r@ =~= "📊 Evaluación: "@ + spec_decimal(report.correct as nat) + " correctas, "@
            + spec_decimal(report.incorrect as nat) + " incorrectas. Precisión: "@ + spec_decimal(
            spec_accuracy_percent(report.correct as int, report.incorrect as int) as nat,
        ) + "%. Skills ajustados."@);
    }
    r
}

/// Accuracy as a percentage rounded to the nearest whole number (half up);
/// one half when no pairs were comparable.
pub open spec fn spec_accuracy_percent(correct: int, incorrect: int) -> int {
    if correct + incorrect == 0 {
        50
    } else {
        (200 * correct + (correct + incorrect)) / (2 * (correct + incorrect))
    }
}

/// `x` placed into a confidence-descending sequence, after any equal
/// confidences (so sorting is stable).
pub open spec fn spec_insert_skill_desc(sorted: Seq<Skill>, x: Skill) -> Seq<Skill>
    decreases sorted.len(),
{
    if sorted.len() == 0 {
        seq![x]
    } else if x.confidence > sorted[0].confidence {
        seq![x] + sorted
    } else {
        seq![sorted[0]] + spec_insert_skill_desc(sorted.drop_first(), x)
    }
}

/// Stable insertion sort by confidence, highest first.
pub open spec fn spec_sort_skills_desc(s: Seq<Skill>) -> Seq<Skill>
    decreases s.len(),
{
    if s.len() == 0 {
        s
    } else {
        spec_insert_skill_desc(spec_sort_skills_desc(s.drop_last()), s.last())
    }
}

proof fn lemma_insert_skill_at(sorted: Seq<Skill>, x: Skill, pos: int)
    requires
        0 <= pos <= sorted.len(),
        forall|k: int| 0 <= k < pos ==> !(x.confidence > (#[trigger] sorted[k]).confidence),
        pos < sorted.len() ==> x.confidence > sorted[pos].confidence,
    ensures
        spec_insert_skill_desc(sorted, x) == sorted.take(pos) + seq![x] + sorted.skip(pos),
    decreases pos,
{
    if sorted.len() == 0 {
        assert(sorted.take(0) + seq![x] + sorted.skip(0) =~= seq![x]);
    } else if pos == 0 {
        assert(sorted.take(0) + seq![x] + sorted.skip(0) =~= seq![x] + sorted);
    } else {
        let tail = sorted.drop_first();
        assert forall|k: int| 0 <= k < pos - 1 implies !(x.confidence > (#[trigger] tail[k]).confidence) by {
            assert(tail[k] == sorted[k + 1]);
        }
        if pos - 1 < tail.len() {
            assert(tail[pos - 1] == sorted[pos as int]);
        }
        lemma_insert_skill_at(tail, x, pos - 1);
        assert(seq![sorted[0]] + (tail.take(pos - 1) + seq![x] + tail.skip(pos - 1))
            =~= sorted.take(pos) + seq![x] + sorted.skip(pos));
    }
}

/// Sorts skills by confidence, highest first (stable).
pub fn sort_skills_desc(input: Vec<Skill>) -> (r: Vec<Skill>)
    ensures
        r@ == spec_sort_skills_desc(input@),
{
    let n = input.len();
    let mut out: Vec<Skill> = Vec::new();
    let mut i: usize = 0;
    proof {
        assert(input@.take(0) =~= Seq::<Skill>::empty());
    }
    while i < n
        invariant
            i <= n,
            n == input@.len(),
            out@ == spec_sort_skills_desc(input@.take(i as int)),
        decreases n - i,
    {
        let x = input[i].clone();
        let m = out.len();
        let mut pos: usize = 0;
        while pos < m && !(x.confidence > out[pos].confidence)
            invariant
                pos <= m,
                m == out@.len(),
                x == input@[i as int],
                forall|k: int| 0 <= k < pos ==> !(x.confidence > (#[trigger] out@[k]).confidence),
            decreases m - pos,
        {
            pos = pos + 1;
        }
        proof {
            lemma_insert_skill_at(out@, x, pos as int);
        }
        out.insert(pos, x);
        proof {
            assert(out@ =~= out@.subrange(0, pos as int) + seq![input@[i as int]]
                + out@.subrange(pos + 1, out@.len() as int));
            assert(input@.take(i + 1).drop_last() =~= input@.take(i as int));
            assert(input@.take(i + 1).last() == input@[i as int]);
        }
        i = i + 1;
    }
    proof {
        assert(input@.take(n as int) =~= input@);
    }
    out
}

/// Skills eligible for the prompt context: active and strictly above the
/// context confidence bound, in table order.
pub open spec fn spec_context_skills(skills: Seq<Skill>) -> Seq<Skill>
    decreases skills.len(),
{
    if skills.len() == 0 {
        skills
    } else {
        spec_context_skills(skills.drop_last()) + (if skills.last().active
            && skills.last().confidence > crate::types::CONFIDENCE_CONTEXT_MIN {
            seq![skills.last()]
        } else {
            Seq::empty()
        })
    }
}

/// The active skills, in table order.
pub open spec fn spec_active_skills(skills: Seq<Skill>) -> Seq<Skill>
    decreases skills.len(),
{
    if skills.len() == 0 {
        skills
    } else {
        spec_active_skills(skills.drop_last()) + (if skills.last().active {
            seq![skills.last()]
        } else {
            Seq::empty()
        })
    }
}

/// The active skills' rule payloads, in table order.
pub open spec fn spec_active_rules(skills: Seq<Skill>) -> Seq<Seq<char>>
    decreases skills.len(),
{
    if skills.len() == 0 {
        Seq::empty()
    } else {
        spec_active_rules(skills.drop_last()) + (if skills.last().active {
            seq![skills.last().rule@]
        } else {
            Seq::empty()
        })
    }
}

/// Lines joined by single newlines.
pub open spec fn spec_join_newline(items: Seq<Seq<char>>) -> Seq<char>
    decreases items.len(),
{
    if items.len() == 0 {
        Seq::empty()
    } else if items.len() == 1 {
        items[0]
    } else {
        items[0] + "\n"@ + spec_join_newline(items.drop_first())
    }
}

/// One skill rendered for the prompt context.
pub open spec fn spec_skill_line(k: Skill) -> Seq<char> {
    "- "@ + k.description@ + " (confianza: "@ + spec_decimal(k.confidence as nat) + "%) — "@
        + k.rule@
}

/// Skills rendered as context lines.
pub open spec fn spec_skill_lines(ks: Seq<Skill>) -> Seq<Seq<char>>
    decreases ks.len(),
{
    if ks.len() == 0 {
        Seq::empty()
    } else {
        spec_skill_lines(ks.drop_last()).push(spec_skill_line(ks.last()))
    }
}

/// The prompt fragment carrying learned rules: the ten most confident
/// eligible skills, or empty when none qualify.
pub open spec fn spec_skills_context(skills: Seq<Skill>) -> Seq<char> {
    let sorted = spec_sort_skills_desc(spec_context_skills(skills));
    let chosen = if sorted.len() <= 10 {
        sorted
    } else {
        sorted.take(10)
    };
    if chosen.len() == 0 {
        Seq::empty()
    } else {
        "\n\nReglas auto-aprendidas (USAR para clasificar):\n"@ + spec_join_newline(
            spec_skill_lines(chosen),
        )
    }
}

/// Renders one skill's context line.
pub fn skill_line(k: &Skill) -> (r: String)
    ensures
        r@ == spec_skill_line(*k),
{
    let mut r = String::from_str("- ");
    r.append(k.description.as_str());
    r.append(" (confianza: ");
    let c = u64_to_string(k.confidence as u64);
    r.append(c.as_str());
    r.append("%) — ");
    r.append(k.rule.as_str());
    proof {
        assert(r@ =~= spec_skill_line(*k));
    }
    r
}

/// Joins pre-rendered lines with newlines, starting at `i`.
fn join_newline_from(items: &Vec<String>, i: usize) -> (r: String)
    requires
        i <= items@.len(),
    ensures
        r@ == spec_join_newline(items@.map_values(|s: String| s@).skip(i as int)),
    decreases items@.len() - i,
{
    let ghost m = items@.map_values(|s: String| s@);
    if i >= items.len() {
        proof {
            assert(m.skip(i as int).len() == 0);
        }
        String::new()
    } else {
        let mut line = items[i].clone();
        proof {
            assert(m.skip(i as int)[0] == m[i as int]);
        }
        if i + 1 < items.len() {
            line.append("\n");
            let rest = join_newline_from(items, i + 1);
            line.append(rest.as_str());
            proof {
                assert(m.skip(i as int).drop_first() =~= m.skip(i + 1));
                assert(line@ =~= m.skip(i as int)[0] + "\n"@ + spec_join_newline(
                    m.skip(i as int).drop_first(),
                ));
            }
        } else {
            proof {
                assert(m.skip(i as int).len() == 1);
            }
        }
        line
    }
}

impl TriageStore {
    /// The active skills, most confident first.
    pub fn get_active_skills(&self) -> (r: Vec<Skill>)
        ensures
            r@ == spec_sort_skills_desc(spec_active_skills(self.skills@)),
    {
        let n = self.skills.len();
        let mut picked: Vec<Skill> = Vec::new();
        let mut i: usize = 0;
        proof {
            assert(spec_active_skills(self.skills@.take(0)) =~= Seq::<Skill>::empty());
        }
        while i < n
            invariant
                i <= n,
                n == self.skills@.len(),
                picked@ == spec_active_skills(self.skills@.take(i as int)),
            decreases n - i,
        {
            proof {
                assert(self.skills@.take(i + 1).drop_last() =~= self.skills@.take(i as int));
                assert(self.skills@.take(i + 1).last() == self.skills@[i as int]);
            }
            if self.skills[i].active {
                picked.push(self.skills[i].clone());
                proof {
                    assert(picked@ =~= spec_active_skills(self.skills@.take(i as int)).push(
                        self.skills@[i as int],
                    ));
                    assert(spec_active_skills(self.skills@.take(i as int)) + seq![
                        self.skills@[i as int],
                    ] =~= spec_active_skills(self.skills@.take(i as int)).push(
                        self.skills@[i as int],
                    ));
                }
            } else {
                proof {
                    assert(spec_active_skills(self.skills@.take(i as int)) + Seq::<Skill>::empty()
                        =~= spec_active_skills(self.skills@.take(i as int)));
                }
            }
            i = i + 1;
        }
        proof {
            assert(self.skills@.take(n as int) =~= self.skills@);
        }
        sort_skills_desc(picked)
    }

    /// The prompt fragment carrying the most confident learned rules.
    pub fn get_skills_context(&self) -> (r: String)
        ensures
            r@ == spec_skills_context(self.skills@),
    {
        let n = self.skills.len();
        let mut picked: Vec<Skill> = Vec::new();
        let mut i: usize = 0;
        proof {
            assert(spec_context_skills(self.skills@.take(0)) =~= Seq::<Skill>::empty());
        }
        while i < n
            invariant
                i <= n,
                n == self.skills@.len(),
                picked@ == spec_context_skills(self.skills@.take(i as int)),
            decreases n - i,
        {
            proof {
                assert(self.skills@.take(i + 1).drop_last() =~= self.skills@.take(i as int));
                assert(self.skills@.take(i + 1).last() == self.skills@[i as int]);
            }
            if self.skills[i].active && self.skills[i].confidence
                > crate::types::CONFIDENCE_CONTEXT_MIN {
                picked.push(self.skills[i].clone());
                proof {
                    assert(spec_context_skills(self.skills@.take(i as int)) + seq![
                        self.skills@[i as int],
                    ] =~= spec_context_skills(self.skills@.take(i as int)).push(
                        self.skills@[i as int],
                    ));
                }
            } else {
                proof {
                    assert(spec_context_skills(self.skills@.take(i as int)) + Seq::<Skill>::empty()
                        =~= spec_context_skills(self.skills@.take(i as int)));
                }
            }
            i = i + 1;
        }
        proof {
            assert(self.skills@.take(n as int) =~= self.skills@);
        }
        let mut sorted = sort_skills_desc(picked);
        if sorted.len() > 10 {
            sorted.truncate(10);
        }
        proof {
            if spec_sort_skills_desc(spec_context_skills(self.skills@)).len() <= 10 {
                assert(sorted@ =~= spec_sort_skills_desc(spec_context_skills(self.skills@)));
            }
        }
        if sorted.len() == 0 {
            String::new()
        } else {
            let m = sorted.len();
            let mut lines: Vec<String> = Vec::new();
            let mut j: usize = 0;
            proof {
                assert(spec_skill_lines(sorted@.take(0)) =~= Seq::<Seq<char>>::empty());
            }
            while j < m
                invariant
                    j <= m,
                    m == sorted@.len(),
                    lines@.map_values(|s: String| s@) == spec_skill_lines(sorted@.take(j as int)),
                decreases m - j,
            {
                proof {
                    assert(sorted@.take(j + 1).drop_last() =~= sorted@.take(j as int));
                    assert(sorted@.take(j + 1).last() == sorted@[j as int]);
                }
                let line = skill_line(&sorted[j]);
                lines.push(line);
                proof {
                    assert(lines@.map_values(|s: String| s@) =~= spec_skill_lines(
                        sorted@.take(j as int),
                    ).push(spec_skill_line(sorted@[j as int])));
                }
                j = j + 1;
            }
            proof {
                assert(sorted@.take(m as int) =~= sorted@);
            }
            let body = join_newline_from(&lines, 0);
            let mut r = String::from_str("\n\nReglas auto-aprendidas (USAR para clasificar):\n");
            r.append(body.as_str());
            proof {
                assert(lines@.map_values(|s: String| s@).skip(0) =~= lines@.map_values(
                    |s: String| s@,
                ));
            }
            r
        }
    }
}

/// One (sender, action) interaction count discovered in the behavior log.
#[derive(Debug)]
pub struct BehaviorStat {
    pub sender_email: String,
    pub action: UserAction,
    pub count: u64,
}

impl Clone for BehaviorStat {
    fn clone(&self) -> (r: Self)
        ensures
            r == *self,
    {
        BehaviorStat {
            sender_email: self.sender_email.clone(),
            action: self.action,
            count: self.count,
        }
    }
}

/// The first index holding the pair, or -1 when absent.
pub open spec fn spec_pair_index(
    stats: Seq<BehaviorStat>,
    sender: Seq<char>,
    action: UserAction,
) -> int
    decreases stats.len(),
{
    if stats.len() == 0 {
        -1
    } else if stats[0].sender_email@ == sender && stats[0].action == action {
        0
    } else {
        let r = spec_pair_index(stats.drop_first(), sender, action);
        if r < 0 {
            -1
        } else {
            r + 1
        }
    }
}

proof fn lemma_pair_index_at(stats: Seq<BehaviorStat>, sender: Seq<char>, action: UserAction, i: int)
    requires
        0 <= i <= stats.len(),
        forall|j: int|
            0 <= j < i ==> !((#[trigger] stats[j]).sender_email@ == sender && stats[j].action
                == action),
        i < stats.len() ==> (stats[i].sender_email@ == sender && stats[i].action == action),
    ensures
        spec_pair_index(stats, sender, action) == (if i == stats.len() {
            -1
        } else {
            i
        }),
    decreases i,
{
    if stats.len() == 0 {
    } else if i == 0 {
    } else {
        let tail = stats.drop_first();
        assert forall|j: int|
            0 <= j < i - 1 implies !((#[trigger] tail[j]).sender_email@ == sender && tail[j].action
            == action) by {
            assert(tail[j] == stats[j + 1]);
        }
        if i - 1 < tail.len() {
            assert(tail[i - 1] == stats[i as int]);
        }
        lemma_pair_index_at(tail, sender, action, i - 1);
    }
}

/// The generation system instruction.
pub fn generation_system_prompt() -> (r: String)
    ensures
        r@ == "Eres un motor de auto-mejora para un agente de correo. Genera SOLO JSON."@,
{
    String::from_str("Eres un motor de auto-mejora para un agente de correo. Genera SOLO JSON.")
}

/// The reply when no behavior data has been gathered yet.
pub fn insufficient_data_message() -> (r: String)
    ensures
        r@ == "No hay suficientes datos de comportamiento aún."@,
{
    String::from_str("No hay suficientes datos de comportamiento aún.")
}

/// The reply when the candidate set was empty after deduplication.
pub fn no_new_patterns_message() -> (r: String)
    ensures
        r@ == "No se descubrieron patrones nuevos."@,
{
    String::from_str("No se descubrieron patrones nuevos.")
}

/// The reply when the completion service failed during generation.
pub fn generation_error_message(err: &str) -> (r: String)
    ensures
        r@ == "Error generando skills: "@ + err@,
{
    let mut r = String::from_str("Error generando skills: ");
    r.append(err);
    r
}

/// One record folded into the per-pair counts.
pub open spec fn spec_integrate_record(stats: Seq<BehaviorStat>, r: TriageRecord) -> Seq<
    BehaviorStat,
> {
    if r.user_action is Some && r.sender_email@ != Seq::<char>::empty() {
        let idx = spec_pair_index(stats, r.sender_email@, r.user_action->0);
        if idx >= 0 {
            stats.update(
                idx,
                (BehaviorStat {
                    sender_email: stats[idx].sender_email,
                    action: stats[idx].action,
                    count: (stats[idx].count + 1) as u64,
                }),
            )
        } else {
            stats.push(
                (BehaviorStat { sender_email: r.sender_email, action: r.user_action->0, count: 1 }),
            )
        }
    } else {
        stats
    }
}

/// Per-(sender, action) interaction counts over the whole log, grouped in
/// first-appearance order.
pub open spec fn spec_group_behavior(log: Seq<TriageRecord>) -> Seq<BehaviorStat>
    decreases log.len(),
{
    if log.len() == 0 {
        Seq::empty()
    } else {
        spec_integrate_record(spec_group_behavior(log.drop_last()), log.last())
    }
}

/// `x` placed into a count-descending sequence, after any equal counts.
pub open spec fn spec_insert_stat_desc(sorted: Seq<BehaviorStat>, x: BehaviorStat) -> Seq<
    BehaviorStat,
>
    decreases sorted.len(),
{
    if sorted.len() == 0 {
        seq![x]
    } else if x.count > sorted[0].count {
        seq![x] + sorted
    } else {
        seq![sorted[0]] + spec_insert_stat_desc(sorted.drop_first(), x)
    }
}

/// Stable insertion sort by count, highest first.
pub open spec fn spec_sort_stats_desc(s: Seq<BehaviorStat>) -> Seq<BehaviorStat>
    decreases s.len(),
{
    if s.len() == 0 {
        s
    } else {
        spec_insert_stat_desc(spec_sort_stats_desc(s.drop_last()), s.last())
    }
}

proof fn lemma_insert_stat_at(sorted: Seq<BehaviorStat>, x: BehaviorStat, pos: int)
    requires
        0 <= pos <= sorted.len(),
        forall|k: int| 0 <= k < pos ==> !(x.count > (#[trigger] sorted[k]).count),
        pos < sorted.len() ==> x.count > sorted[pos].count,
    ensures
        spec_insert_stat_desc(sorted, x) == sorted.take(pos) + seq![x] + sorted.skip(pos),
    decreases pos,
{
    if sorted.len() == 0 {
        assert(sorted.take(0) + seq![x] + sorted.skip(0) =~= seq![x]);
    } else if pos == 0 {
        assert(sorted.take(0) + seq![x] + sorted.skip(0) =~= seq![x] + sorted);
    } else {
        let tail = sorted.drop_first();
        assert forall|k: int| 0 <= k < pos - 1 implies !(x.count > (#[trigger] tail[k]).count) by {
            assert(tail[k] == sorted[k + 1]);
        }
        if pos - 1 < tail.len() {
            assert(tail[pos - 1] == sorted[pos as int]);
        }
        lemma_insert_stat_at(tail, x, pos - 1);
        assert(seq![sorted[0]] + (tail.take(pos - 1) + seq![x] + tail.skip(pos - 1))
            =~= sorted.take(pos) + seq![x] + sorted.skip(pos));
    }
}

/// Sorts behavior counts, highest first (stable).
pub fn sort_stats_desc(input: Vec<BehaviorStat>) -> (r: Vec<BehaviorStat>)
    ensures
        r@ == spec_sort_stats_desc(input@),
{
    let n = input.len();
    let mut out: Vec<BehaviorStat> = Vec::new();
    let mut i: usize = 0;
    proof {
        assert(input@.take(0) =~= Seq::<BehaviorStat>::empty());
    }
    while i < n
        invariant
            i <= n,
            n == input@.len(),
            out@ == spec_sort_stats_desc(input@.take(i as int)),
        decreases n - i,
    {
        let x = input[i].clone();
        let m = out.len();
        let mut pos: usize = 0;
        while pos < m && !(x.count > out[pos].count)
            invariant
                pos <= m,
                m == out@.len(),
                x == input@[i as int],
                forall|k: int| 0 <= k < pos ==> !(x.count > (#[trigger] out@[k]).count),
            decreases m - pos,
        {
            pos = pos + 1;
        }
        proof {
            lemma_insert_stat_at(out@, x, pos as int);
        }
        out.insert(pos, x);
        proof {
            assert(out@ =~= out@.subrange(0, pos as int) + seq![input@[i as int]]
                + out@.subrange(pos + 1, out@.len() as int));
            assert(input@.take(i + 1).drop_last() =~= input@.take(i as int));
            assert(input@.take(i + 1).last() == input@[i as int]);
        }
        i = i + 1;
    }
    proof {
        assert(input@.take(n as int) =~= input@);
    }
    out
}

/// The counts offered to the generation prompt: the thirty most frequent.
pub open spec fn spec_generation_stats(log: Seq<TriageRecord>) -> Seq<BehaviorStat> {
    let sorted = spec_sort_stats_desc(spec_group_behavior(log));
    if sorted.len() <= 30 {
        sorted
    } else {
        sorted.take(30)
    }
}

/// One behavior count rendered for the generation prompt.
pub open spec fn spec_behavior_line(st: BehaviorStat) -> Seq<char> {
    "  "@ + st.sender_email@ + " → "@ + st.action.spec_label() + " ("@ + spec_decimal(
        st.count as nat,
    ) + " veces)"@
}

/// Behavior counts rendered as prompt lines.
pub open spec fn spec_behavior_lines(stats: Seq<BehaviorStat>) -> Seq<Seq<char>>
    decreases stats.len(),
{
    if stats.len() == 0 {
        Seq::empty()
    } else {
        spec_behavior_lines(stats.drop_last()).push(spec_behavior_line(stats.last()))
    }
}

/// The existing-rules block of the generation prompt.
pub open spec fn spec_existing_rules_text(skills: Seq<Skill>) -> Seq<char> {
    let rules = spec_active_rules(skills);
    if rules.len() == 0 {
        "Ninguna regla existente."@
    } else {
        spec_join_newline(rules)
    }
}

/// The full generation prompt over the store's behavior data and existing
/// active rules.
pub open spec fn spec_generation_prompt(log: Seq<TriageRecord>, skills: Seq<Skill>) -> Seq<char> {
    "Analiza estos patrones de comportamiento de correo y genera reglas inteligentes.\n\nCOMPORTAMIENTO DEL USUARIO:\n"@
        + spec_join_newline(spec_behavior_lines(spec_generation_stats(log)))
        + "\n\nREGLAS YA EXISTENTES (NO duplicar):\n"@ + spec_existing_rules_text(skills)
        + "\n\nGenera 1-3 reglas nuevas basadas en los patrones. Cada regla DEBE ser JSON válido.\nResponde SOLO con un array JSON, sin explicación:\n\n[\n  {\n    \"skill_type\": \"sender_rule|keyword_rule|time_rule\",\n    \"description\": \"frase corta explicando la regla\",\n    \"rule_json\": \"{\"match\\\":\\\"sender_contains\\\",\\\"value\\\":\\\"...\\\",\\\"action\\\":\\\"high|medium|low\\\"}\",\n    \"confidence\": 0.6\n  }\n]\n\nReglas inteligentes posibles:\n- Si user siempre abre correos de X → sender_rule: marcar X como high\n- Si user ignora correos de Y → sender_rule: marcar Y como low\n- Si user responde rápido a Z → sender_rule: Z es VIP, high + notify"@
}

/// Renders one behavior count line.
pub fn behavior_line(st: &BehaviorStat) -> (r: String)
    ensures
        r@ == spec_behavior_line(*st),
{
    let mut r = String::from_str("  ");
    r.append(st.sender_email.as_str());
    r.append(" → ");
    let a = st.action.label();
    r.append(a.as_str());
    r.append(" (");
    let c = u64_to_string(st.count);
    r.append(c.as_str());
    r.append(" veces)");
    proof {
        assert(r@ =~= spec_behavior_line(*st));
    }
    r
}

impl TriageStore {
    /// Per-(sender, action) interaction counts from the behavior log, in
    /// first-appearance order.
    pub fn group_behavior(&self) -> (r: Vec<BehaviorStat>)
        ensures
            r@ == spec_group_behavior(self.triage_log@),
    {
        let log = &self.triage_log;
        let n = log.len();
        let mut out: Vec<BehaviorStat> = Vec::new();
        let mut i: usize = 0;
        proof {
            assert(spec_group_behavior(log@.take(0)) =~= Seq::<BehaviorStat>::empty());
        }
        while i < n
            invariant
                i <= n,
                n == log@.len(),
                log@ == self.triage_log@,
                out@ == spec_group_behavior(log@.take(i as int)),
                forall|j: int| 0 <= j < out@.len() ==> (#[trigger] out@[j]).count <= i,
            decreases n - i,
        {
            proof {
                assert(log@.take(i + 1).drop_last() =~= log@.take(i as int));
                assert(log@.take(i + 1).last() == log@[i as int]);
            }
            let rec = &self.triage_log[i];
            if rec.user_action.is_some() && rec.sender_email.as_str().unicode_len() > 0 {
                let action = rec.user_action.unwrap();
                let ghost sender = rec.sender_email@;
                let ghost prev = out@;
                let m = out.len();
                let mut k: usize = 0;
                let mut found: Option<usize> = None;
                while k < m
                    invariant_except_break
                        k <= m,
                        m == out@.len(),
                        found is None,
                        log@ == self.triage_log@,
                        0 <= i < log@.len(),
                        action == log@[i as int].user_action->0,
                        sender == log@[i as int].sender_email@,
                        rec.sender_email@ == sender,
                        out@ == prev,
                        forall|j: int|
                            0 <= j < k ==> !((#[trigger] out@[j]).sender_email@ == sender
                                && out@[j].action == action),
                    ensures
                        m == out@.len(),
                        log@ == self.triage_log@,
                        0 <= i < log@.len(),
                        action == log@[i as int].user_action->0,
                        sender == log@[i as int].sender_email@,
                        out@ == prev,
                        match found {
                            Some(f) => f < m && out@[f as int].sender_email@ == sender
                                && out@[f as int].action == action && forall|j: int|
                                0 <= j < f ==> !((#[trigger] out@[j]).sender_email@ == sender
                                    && out@[j].action == action),
                            None => forall|j: int|
                                0 <= j < m ==> !((#[trigger] out@[j]).sender_email@ == sender
                                    && out@[j].action == action),
                        },
                    decreases m - k,
                {
                    let same_action = match (out[k].action, action) {
                        (UserAction::Opened, UserAction::Opened) => true,
                        (UserAction::Replied, UserAction::Replied) => true,
                        (UserAction::Deleted, UserAction::Deleted) => true,
                        (UserAction::Ignored, UserAction::Ignored) => true,
                        (UserAction::Starred, UserAction::Starred) => true,
                        _ => false,
                    };
                    if same_action && crate::text::str_eq(
                        out[k].sender_email.as_str(),
                        rec.sender_email.as_str(),
                    ) {
                        found = Some(k);
                        break ;
                    }
                    k = k + 1;
                }
                match found {
                    Some(f) => {
                        proof {
                            lemma_pair_index_at(prev, sender, action, f as int);
                        }
                        let mut e = out[f].clone();
                        e.count = e.count + 1;
                        out.set(f, e);
                        proof {
                            assert(out@ =~= prev.update(
                                f as int,
                                (BehaviorStat {
                                    sender_email: prev[f as int].sender_email,
                                    action: prev[f as int].action,
                                    count: (prev[f as int].count + 1) as u64,
                                }),
                            ));
                        }
                    },
                    None => {
                        proof {
                            lemma_pair_index_at(prev, sender, action, m as int);
                        }
                        out.push(
                            BehaviorStat {
                                sender_email: rec.sender_email.clone(),
                                action,
                                count: 1,
                            },
                        );
                        proof {
                            assert(out@ =~= prev.push(
                                (BehaviorStat {
                                    sender_email: log@[i as int].sender_email,
                                    action: log@[i as int].user_action->0,
                                    count: 1,
                                }),
                            ));
                        }
                    },
                }
            } else {
                proof {
                    if log@[i as int].sender_email@.len() == 0 {
                        assert(log@[i as int].sender_email@ =~= Seq::<char>::empty());
                    }
                }
            }
            i = i + 1;
        }
        proof {
            assert(log@.take(n as int) =~= log@);
        }
        out
    }

    /// The prompt asking the completion service for new rule candidates, or
    /// nothing when no behavioral data exists (the service is then not
    /// called).
    pub fn generate_skills_prompt(&self) -> (r: Option<String>)
        ensures
            (r is None) <==> spec_group_behavior(self.triage_log@).len() == 0,
            r matches Some(p) ==> p@ == spec_generation_prompt(self.triage_log@, self.skills@),
    {
        let grouped = self.group_behavior();
        if grouped.len() == 0 {
            return None;
        }
        let mut stats = sort_stats_desc(grouped);
        if stats.len() > 30 {
            stats.truncate(30);
        }
        proof {
            if spec_sort_stats_desc(spec_group_behavior(self.triage_log@)).len() <= 30 {
                assert(stats@ =~= spec_generation_stats(self.triage_log@));
            }
        }
        let m = stats.len();
        let mut lines: Vec<String> = Vec::new();
        let mut j: usize = 0;
        proof {
            assert(spec_behavior_lines(stats@.take(0)) =~= Seq::<Seq<char>>::empty());
        }
        while j < m
            invariant
                j <= m,
                m == stats@.len(),
                lines@.map_values(|s: String| s@) == spec_behavior_lines(stats@.take(j as int)),
            decreases m - j,
        {
            proof {
                assert(stats@.take(j + 1).drop_last() =~= stats@.take(j as int));
                assert(stats@.take(j + 1).last() == stats@[j as int]);
            }
            let line = behavior_line(&stats[j]);
            lines.push(line);
            proof {
                assert(lines@.map_values(|s: String| s@) =~= spec_behavior_lines(
                    stats@.take(j as int),
                ).push(spec_behavior_line(stats@[j as int])));
            }
            j = j + 1;
        }
        proof {
            assert(stats@.take(m as int) =~= stats@);
        }
        let behavior_text = join_newline_from(&lines, 0);
        proof {
            assert(lines@.map_values(|s: String| s@).skip(0) =~= lines@.map_values(
                |s: String| s@,
            ));
        }

        let sn = self.skills.len();
        let mut rules: Vec<String> = Vec::new();
        let mut k: usize = 0;
        proof {
            assert(spec_active_rules(self.skills@.take(0)) =~= Seq::<Seq<char>>::empty());
        }
        while k < sn
            invariant
                k <= sn,
                sn == self.skills@.len(),
                rules@.map_values(|s: String| s@) == spec_active_rules(self.skills@.take(k as int)),
            decreases sn - k,
        {
            proof {
                assert(self.skills@.take(k + 1).drop_last() =~= self.skills@.take(k as int));
                assert(self.skills@.take(k + 1).last() == self.skills@[k as int]);
            }
            if self.skills[k].active {
                rules.push(self.skills[k].rule.clone());
                proof {
                    assert(rules@.map_values(|s: String| s@) =~= spec_active_rules(
                        self.skills@.take(k as int),
                    ) + seq![self.skills@[k as int].rule@]);
                }
            } else {
                proof {
                    assert(spec_active_rules(self.skills@.take(k as int))
                        + Seq::<Seq<char>>::empty() =~= spec_active_rules(
                        self.skills@.take(k as int),
                    ));
                }
            }
            k = k + 1;
        }
        proof {
            assert(self.skills@.take(sn as int) =~= self.skills@);
        }
        let existing_text = if rules.len() == 0 {
            String::from_str("Ninguna regla existente.")
        } else {
            let t = join_newline_from(&rules, 0);
            proof {
                assert(rules@.map_values(|s: String| s@).skip(0) =~= rules@.map_values(
                    |s: String| s@,
                ));
            }
            t
        };

        let mut p = String::from_str(
            "Analiza estos patrones de comportamiento de correo y genera reglas inteligentes.\n\nCOMPORTAMIENTO DEL USUARIO:\n",
        );
        p.append(behavior_text.as_str());
        p.append("\n\nREGLAS YA EXISTENTES (NO duplicar):\n");
        p.append(existing_text.as_str());
        p.append(
            "\n\nGenera 1-3 reglas nuevas basadas en los patrones. Cada regla DEBE ser JSON válido.\nResponde SOLO con un array JSON, sin explicación:\n\n[\n  {\n    \"skill_type\": \"sender_rule|keyword_rule|time_rule\",\n    \"description\": \"frase corta explicando la regla\",\n    \"rule_json\": \"{\"match\\\":\\\"sender_contains\\\",\\\"value\\\":\\\"...\\\",\\\"action\\\":\\\"high|medium|low\\\"}\",\n    \"confidence\": 0.6\n  }\n]\n\nReglas inteligentes posibles:\n- Si user siempre abre correos de X → sender_rule: marcar X como high\n- Si user ignora correos de Y → sender_rule: marcar Y como low\n- Si user responde rápido a Z → sender_rule: Z es VIP, high + notify",
        );
        proof {
            assert(p@ =~= spec_generation_prompt(self.triage_log@, self.skills@));
        }
        Some(p)
    }
}

/// One rule candidate as the completion service proposed it, each field
/// absent when the reply did not carry it.
pub struct SkillCandidate {
    pub skill_type: Option<String>,
    pub description: Option<String>,
    pub rule: Option<String>,
    pub confidence_text: Option<String>,
}

/// What serde_json extracts from a cleaned generation reply: `None` when the
/// text is not a JSON array, otherwise one candidate per element with its
/// fields looked up and the proposed confidence carried as its raw JSON
/// text. The result depends on the text alone.
pub uninterp spec fn skill_candidates_of(s: Seq<char>) -> Option<Seq<SkillCandidate>>;

/// Relies on `serde_json::from_str`, `serde_json::Value::{get, as_str}` and
/// `serde_json::Value`'s `Display`: parses the text as a JSON array and picks
/// each candidate's fields, a function of the text alone; the proposed
/// confidence is handed on as its raw JSON text.
#[verifier::external_body]
fn extract_skill_candidates(s: &str) -> (r: Option<Vec<SkillCandidate>>)
    ensures
        match skill_candidates_of(s@) {
            Some(cs) => r matches Some(v) && v@ == cs,
            None => r is None,
        },
{
    let vals: Vec<serde_json::Value> = match serde_json::from_str(s) {
        Ok(v) => v,
        Err(_) => return None,
    };
    let mut out = Vec::new();
    for v in vals.iter() {
        out.push(SkillCandidate {
            skill_type: v.get("skill_type").and_then(|x| x.as_str()).map(|x| x.to_string()),
            description: v.get("description").and_then(|x| x.as_str()).map(|x| x.to_string()),
            rule: v.get("rule_json").and_then(|x| x.as_str()).map(|x| x.to_string()),
            confidence_text: v.get("confidence").map(|x| x.to_string()),
        });
    }
    Some(out)
}

/// First index of a decimal point, or -1 when there is none.
pub open spec fn spec_dot_index(s: Seq<char>) -> int
    decreases s.len(),
{
    if s.len() == 0 {
        -1
    } else if s[0] == '.' {
        0
    } else {
        let r = spec_dot_index(s.drop_first());
        if r < 0 {
            -1
        } else {
            r + 1
        }
    }
}

proof fn lemma_dot_index_at(s: Seq<char>, i: int)
    requires
        0 <= i <= s.len(),
        forall|j: int| 0 <= j < i ==> (#[trigger] s[j]) != '.',
        i < s.len() ==> s[i] == '.',
    ensures
        spec_dot_index(s) == (if i == s.len() {
            -1
        } else {
            i
        }),
    decreases i,
{
    if s.len() == 0 {
    } else if i == 0 {
    } else {
        let tail = s.drop_first();
        assert forall|j: int| 0 <= j < i - 1 implies (#[trigger] tail[j]) != '.' by {
            assert(tail[j] == s[j + 1]);
        }
        if i - 1 < tail.len() {
            assert(tail[i - 1] == s[i]);
        }
        lemma_dot_index_at(tail, i - 1);
    }
}

/// A proposed confidence, read from its JSON numeral text into hundredths:
/// an optional sign, at most six integer digits, and an optional fraction of
/// which the first two digits count. Anything else is not a confidence.
pub open spec fn spec_confidence_hundredths(s: Seq<char>) -> Option<int> {
    let neg = s.len() > 0 && s[0] == '-';
    let body = if neg {
        s.drop_first()
    } else {
        s
    };
    let dot = spec_dot_index(body);
    let ipart = if dot < 0 {
        body
    } else {
        body.take(dot)
    };
    let frac = if dot < 0 {
        Seq::<char>::empty()
    } else {
        body.skip(dot + 1)
    };
    if ipart.len() == 0 || ipart.len() > 6 || !crate::text::spec_all_digits(ipart) || (dot >= 0 && (
    frac.len() == 0 || !crate::text::spec_all_digits(frac))) {
        None
    } else {
        let f1 = if frac.len() >= 1 {
            frac[0] as int - 48
        } else {
            0
        };
        let f2 = if frac.len() >= 2 {
            frac[1] as int - 48
        } else {
            0
        };
        let h = crate::text::spec_digits_to_int(ipart) * 100 + f1 * 10 + f2;
        Some(
            if neg {
                -h
            } else {
                h
            },
        )
    }
}

/// Parses a proposed confidence numeral into hundredths.
pub fn confidence_hundredths(s: &str) -> (r: Option<i64>)
    ensures
        match spec_confidence_hundredths(s@) {
            Some(v) => r matches Some(x) && x as int == v,
            None => r is None,
        },
{
    let v = crate::text::chars_of(s);
    let n = v.len();
    let neg = n > 0 && v[0] == '-';
    let off: usize = if neg {
        1
    } else {
        0
    };
    let ghost body = if neg {
        s@.drop_first()
    } else {
        s@
    };
    proof {
        assert(body =~= v@.skip(off as int));
    }
    let mut d: usize = off;
    while d < n
        invariant_except_break
            off <= d <= n,
            n == v@.len(),
            body == v@.skip(off as int),
            forall|j: int| off <= j < d ==> (#[trigger] v@[j]) != '.',
        ensures
            off <= d <= n,
            n == v@.len(),
            body == v@.skip(off as int),
            forall|j: int| off <= j < d ==> (#[trigger] v@[j]) != '.',
            d < n ==> v@[d as int] == '.',
        decreases n - d,
    {
        if v[d] == '.' {
            break ;
        }
        d = d + 1;
    }
    let iend = d;
    let has_dot = iend < n;
    proof {
        assert forall|j: int| 0 <= j < iend - off implies (#[trigger] body[j]) != '.' by {
            assert(body[j] == v@[j + off]);
        }
        if iend < n {
            assert(body[iend - off] == v@[iend as int]);
        }
        lemma_dot_index_at(body, iend - off);
        if has_dot {
            assert(body.take(iend - off) =~= v@.subrange(off as int, iend as int));
            assert(body.skip(iend - off + 1) =~= v@.subrange(iend + 1, n as int));
        } else {
            assert(body =~= v@.subrange(off as int, iend as int));
        }
    }
    let ghost ipart = v@.subrange(off as int, iend as int);
    if iend == off || iend - off > 6 {
        return None;
    }
    let mut acc: i64 = 0;
    let mut k: usize = off;
    proof {
        assert(v@.subrange(off as int, off as int) =~= Seq::<char>::empty());
    }
    while k < iend
        invariant_except_break
            off <= k <= iend <= n,
            n == v@.len(),
            iend - off <= 6,
            ipart == v@.subrange(off as int, iend as int),
            acc as int == crate::text::spec_digits_to_int(v@.subrange(off as int, k as int)),
            forall|j: int|
                off <= j < k ==> crate::text::spec_is_digit(#[trigger] v@[j]),
        ensures
            n == v@.len(),
            off <= k <= iend,
            ipart == v@.subrange(off as int, iend as int),
            k < iend ==> !crate::text::spec_is_digit(v@[k as int]),
            k >= iend ==> (crate::text::spec_all_digits(ipart) && acc as int
                == crate::text::spec_digits_to_int(ipart)),
        decreases iend - k,
    {
        let c = v[k];
        if !('0' <= c && c <= '9') {
            break ;
        }
        proof {
            assert forall|j: int|
                0 <= j < v@.subrange(off as int, k as int).len() implies crate::text::spec_is_digit(
                #[trigger] v@.subrange(off as int, k as int)[j],
            ) by {
                assert(v@.subrange(off as int, k as int)[j] == v@[j + off]);
            }
            crate::text::lemma_digits_to_int_bounds(v@.subrange(off as int, k as int));
            crate::text::lemma_pow10_mono((k - off) as nat, 5);
            reveal_with_fuel(crate::text::spec_pow10, 7);
            assert(crate::text::spec_pow10(5) == 100000);
            assert('0' as u32 == 48 && '9' as u32 == 57);
            assert(v@.subrange(off as int, k + 1).drop_last() =~= v@.subrange(
                off as int,
                k as int,
            ));
            assert(v@.subrange(off as int, k + 1).last() == v@[k as int]);
        }
        acc = acc * 10 + ((c as u32) as i64 - 48);
        k = k + 1;
        proof {
            if k == iend {
                assert forall|j: int| 0 <= j < ipart.len() implies crate::text::spec_is_digit(
                    #[trigger] ipart[j],
                ) by {
                    assert(ipart[j] == v@[j + off]);
                }
            }
        }
    }
    if k < iend {
        proof {
            assert(ipart[k - off] == v@[k as int]);
        }
        return None;
    }
    let mut f1: i64 = 0;
    let mut f2: i64 = 0;
    if has_dot {
        let fstart = iend + 1;
        let ghost frac = v@.subrange(fstart as int, n as int);
        if fstart >= n {
            return None;
        }
        let mut k2: usize = fstart;
        while k2 < n
            invariant_except_break
                fstart <= k2 <= n,
                n == v@.len(),
                frac == v@.subrange(fstart as int, n as int),
                forall|j: int|
                    fstart <= j < k2 ==> crate::text::spec_is_digit(#[trigger] v@[j]),
            ensures
                n == v@.len(),
                fstart <= k2 <= n,
                frac == v@.subrange(fstart as int, n as int),
                k2 < n ==> !crate::text::spec_is_digit(v@[k2 as int]),
                k2 >= n ==> crate::text::spec_all_digits(frac),
            decreases n - k2,
        {
            let c = v[k2];
            if !('0' <= c && c <= '9') {
                break ;
            }
            k2 = k2 + 1;
            proof {
                if k2 == n {
                    assert forall|j: int| 0 <= j < frac.len() implies crate::text::spec_is_digit(
                        #[trigger] frac[j],
                    ) by {
                        assert(frac[j] == v@[j + fstart]);
                    }
                }
            }
        }
        if k2 < n {
            proof {
                assert(frac[k2 - fstart] == v@[k2 as int]);
            }
            return None;
        }
        f1 = (v[fstart] as u32) as i64 - 48;
        proof {
            assert(frac[0] == v@[fstart as int]);
        }
        if fstart + 1 < n {
            f2 = (v[fstart + 1] as u32) as i64 - 48;
            proof {
                assert(frac[1] == v@[fstart + 1]);
            }
        }
        proof {
            assert(crate::text::spec_is_digit(frac[0]));
            if frac.len() >= 2 {
                assert(crate::text::spec_is_digit(frac[1]));
            }
            assert('0' as u32 == 48 && '9' as u32 == 57);
        }
    }
    proof {
        crate::text::lemma_digits_to_int_bounds(ipart);
        reveal_with_fuel(crate::text::spec_pow10, 7);
        assert(crate::text::spec_pow10(6) == 1000000);
    }
    let h: i64 = acc * 100 + f1 * 10 + f2;
    if neg {
        Some(-h)
    } else {
        Some(h)
    }
}

/// The rule kind named by a label; anything unrecognized falls back to the
/// sender-rule kind, the default.
pub open spec fn spec_skill_type_from_label(s: Seq<char>) -> crate::types::SkillType {
    if s == "keyword_rule"@ {
        crate::types::SkillType::KeywordRule
    } else if s == "time_rule"@ {
        crate::types::SkillType::TimeRule
    } else if s == "style_pref"@ {
        crate::types::SkillType::StylePref
    } else {
        crate::types::SkillType::SenderRule
    }
}

pub fn skill_type_from_label(s: &str) -> (r: crate::types::SkillType)
    ensures
        r == spec_skill_type_from_label(s@),
{
    if crate::text::str_eq(s, "keyword_rule") {
        crate::types::SkillType::KeywordRule
    } else if crate::text::str_eq(s, "time_rule") {
        crate::types::SkillType::TimeRule
    } else if crate::text::str_eq(s, "style_pref") {
        crate::types::SkillType::StylePref
    } else {
        crate::types::SkillType::SenderRule
    }
}

/// A candidate with every default applied, at specification level.
pub struct NormalizedCandidate {
    pub skill_type: crate::types::SkillType,
    pub description: Seq<char>,
    pub rule: Seq<char>,
    pub confidence: int,
}

/// The defaults a candidate's absent fields take.
pub open spec fn spec_normalize_candidate(c: SkillCandidate) -> NormalizedCandidate {
    NormalizedCandidate {
        skill_type: match c.skill_type {
            Some(s) => spec_skill_type_from_label(s@),
            None => crate::types::SkillType::SenderRule,
        },
        description: match c.description {
            Some(s) => s@,
            None => "Regla auto-generada"@,
        },
        rule: match c.rule {
            Some(s) => s@,
            None => "{}"@,
        },
        confidence: match c.confidence_text {
            Some(s) => match spec_confidence_hundredths(s@) {
                Some(v) => v,
                None => crate::types::CONFIDENCE_DEFAULT as int,
            },
            None => crate::types::CONFIDENCE_DEFAULT as int,
        },
    }
}

/// A freshly persisted skill built from a normalized candidate.
pub open spec fn spec_new_skill_matches(
    sk: Skill,
    id: int,
    nc: NormalizedCandidate,
    now: i64,
) -> bool {
    &&& sk.id == id
    &&& sk.skill_type == nc.skill_type
    &&& sk.description@ == nc.description
    &&& sk.rule@ == nc.rule
    &&& sk.confidence == spec_clamp_confidence(nc.confidence)
    &&& sk.times_applied == 0
    &&& sk.times_correct == 0
    &&& sk.active
    &&& sk.created_at == now
    &&& sk.updated_at == now
}

/// How applying a candidate list transforms the skill table: each candidate
/// whose rule payload is byte-identical to an active skill's rule is skipped,
/// every other one is persisted, and one creation message per persisted skill
/// is reported.
pub open spec fn spec_candidates_applied(
    skills: Seq<Skill>,
    next_id: int,
    cands: Seq<SkillCandidate>,
    now: i64,
    fskills: Seq<Skill>,
    fnext: int,
    msgs: Seq<Seq<char>>,
) -> bool
    decreases cands.len(),
{
    if cands.len() == 0 {
        fskills == skills && fnext == next_id && msgs.len() == 0
    } else {
        let nc = spec_normalize_candidate(cands[0]);
        if crate::store::spec_has_active_rule(skills, nc.rule) {
            spec_candidates_applied(skills, next_id, cands.drop_first(), now, fskills, fnext, msgs)
        } else {
            exists|sk: Skill|
                #[trigger] spec_new_skill_matches(sk, next_id, nc, now) && msgs.len() > 0
                    && msgs[0] == "✨ Nueva skill: "@ + nc.description && spec_candidates_applied(
                    skills.push(sk),
                    next_id + 1,
                    cands.drop_first(),
                    now,
                    fskills,
                    fnext,
                    msgs.drop_first(),
                )
        }
    }
}

/// Extending a processed prefix by one skipped candidate.
proof fn lemma_applied_extend_skip(
    skills: Seq<Skill>,
    next_id: int,
    cs: Seq<SkillCandidate>,
    now: i64,
    m: Seq<Skill>,
    mnext: int,
    msgs: Seq<Seq<char>>,
    c: SkillCandidate,
)
    requires
        spec_candidates_applied(skills, next_id, cs, now, m, mnext, msgs),
        crate::store::spec_has_active_rule(m, spec_normalize_candidate(c).rule),
    ensures
        spec_candidates_applied(skills, next_id, cs.push(c), now, m, mnext, msgs),
    decreases cs.len(),
{
    if cs.len() == 0 {
        assert(cs.push(c)[0] == c);
        assert(cs.push(c).drop_first() =~= cs);
    } else {
        assert(cs.push(c)[0] == cs[0]);
        assert(cs.push(c).drop_first() =~= cs.drop_first().push(c));
        let nc0 = spec_normalize_candidate(cs[0]);
        if crate::store::spec_has_active_rule(skills, nc0.rule) {
            lemma_applied_extend_skip(skills, next_id, cs.drop_first(), now, m, mnext, msgs, c);
        } else {
            let sk = choose|sk: Skill|
                #[trigger] spec_new_skill_matches(sk, next_id, nc0, now) && msgs.len() > 0
                    && msgs[0] == "✨ Nueva skill: "@ + nc0.description && spec_candidates_applied(
                    skills.push(sk),
                    next_id + 1,
                    cs.drop_first(),
                    now,
                    m,
                    mnext,
                    msgs.drop_first(),
                );
            lemma_applied_extend_skip(
                skills.push(sk),
                next_id + 1,
                cs.drop_first(),
                now,
                m,
                mnext,
                msgs.drop_first(),
                c,
            );
        }
    }
}

/// Extending a processed prefix by one persisted candidate.
proof fn lemma_applied_extend_insert(
    skills: Seq<Skill>,
    next_id: int,
    cs: Seq<SkillCandidate>,
    now: i64,
    m: Seq<Skill>,
    mnext: int,
    msgs: Seq<Seq<char>>,
    c: SkillCandidate,
    sk: Skill,
)
    requires
        spec_candidates_applied(skills, next_id, cs, now, m, mnext, msgs),
        !crate::store::spec_has_active_rule(m, spec_normalize_candidate(c).rule),
        spec_new_skill_matches(sk, mnext, spec_normalize_candidate(c), now),
    ensures
        spec_candidates_applied(
            skills,
            next_id,
            cs.push(c),
            now,
            m.push(sk),
            mnext + 1,
            msgs.push("✨ Nueva skill: "@ + spec_normalize_candidate(c).description),
        ),
    decreases cs.len(),
{
    let line = "✨ Nueva skill: "@ + spec_normalize_candidate(c).description;
    if cs.len() == 0 {
        assert(cs.push(c)[0] == c);
        assert(cs.push(c).drop_first() =~= cs);
        assert(msgs.push(line)[0] == line);
        assert(msgs.push(line).drop_first() =~= msgs);
        assert(spec_new_skill_matches(sk, next_id, spec_normalize_candidate(c), now));
        assert(spec_candidates_applied(
            skills.push(sk),
            next_id + 1,
            cs.push(c).drop_first(),
            now,
            m.push(sk),
            mnext + 1,
            msgs.push(line).drop_first(),
        ));
    } else {
        assert(cs.push(c)[0] == cs[0]);
        assert(cs.push(c).drop_first() =~= cs.drop_first().push(c));
        let nc0 = spec_normalize_candidate(cs[0]);
        if crate::store::spec_has_active_rule(skills, nc0.rule) {
            lemma_applied_extend_insert(
                skills,
                next_id,
                cs.drop_first(),
                now,
                m,
                mnext,
                msgs,
                c,
                sk,
            );
        } else {
            let sk0 = choose|sk0: Skill|
                #[trigger] spec_new_skill_matches(sk0, next_id, nc0, now) && msgs.len() > 0
                    && msgs[0] == "✨ Nueva skill: "@ + nc0.description && spec_candidates_applied(
                    skills.push(sk0),
                    next_id + 1,
                    cs.drop_first(),
                    now,
                    m,
                    mnext,
                    msgs.drop_first(),
                );
            lemma_applied_extend_insert(
                skills.push(sk0),
                next_id + 1,
                cs.drop_first(),
                now,
                m,
                mnext,
                msgs.drop_first(),
                c,
                sk,
            );
            assert(msgs.push(line)[0] == msgs[0]);
            assert(msgs.push(line).drop_first() =~= msgs.drop_first().push(line));
            assert(spec_candidates_applied(
                skills.push(sk0),
                next_id + 1,
                cs.push(c).drop_first(),
                now,
                m.push(sk),
                mnext + 1,
                msgs.push(line).drop_first(),
            ));
        }
    }
}

/// No two active skills share a rule payload.
pub open spec fn spec_no_dup_active_rules(skills: Seq<Skill>) -> bool {
    forall|i: int, j: int|
        0 <= i < skills.len() && 0 <= j < skills.len() && i != j && (#[trigger] skills[i]).active
            && (#[trigger] skills[j]).active ==> skills[i].rule@ != skills[j].rule@
}

/// Applying any candidate list — in particular, generating skills a second
/// time over identical behavioral input — never produces two active skills
/// with identical rule payloads: candidates whose rule already belongs to an
/// active skill are skipped.
pub proof fn lemma_generation_never_duplicates(
    skills: Seq<Skill>,
    next_id: int,
    cands: Seq<SkillCandidate>,
    now: i64,
    fskills: Seq<Skill>,
    fnext: int,
    msgs: Seq<Seq<char>>,
)
    requires
        spec_no_dup_active_rules(skills),
        spec_candidates_applied(skills, next_id, cands, now, fskills, fnext, msgs),
    ensures
        spec_no_dup_active_rules(fskills),
    decreases cands.len(),
{
    if cands.len() == 0 {
    } else {
        let nc = spec_normalize_candidate(cands[0]);
        if crate::store::spec_has_active_rule(skills, nc.rule) {
            lemma_generation_never_duplicates(
                skills,
                next_id,
                cands.drop_first(),
                now,
                fskills,
                fnext,
                msgs,
            );
        } else {
            let sk = choose|sk: Skill|
                #[trigger] spec_new_skill_matches(sk, next_id, nc, now) && msgs.len() > 0
                    && msgs[0] == "✨ Nueva skill: "@ + nc.description && spec_candidates_applied(
                    skills.push(sk),
                    next_id + 1,
                    cands.drop_first(),
                    now,
                    fskills,
                    fnext,
                    msgs.drop_first(),
                );
            let pushed = skills.push(sk);
            assert forall|a: int, b: int|
                0 <= a < pushed.len() && 0 <= b < pushed.len() && a != b && (
                #[trigger] pushed[a]).active && (#[trigger] pushed[b]).active implies pushed[a].rule@
                != pushed[b].rule@ by {
                if a < skills.len() && b < skills.len() {
                    assert(pushed[a] == skills[a] && pushed[b] == skills[b]);
                } else {
                    let o = if a < skills.len() {
                        a
                    } else {
                        b
                    };
                    assert(pushed[o] == skills[o]);
                    assert(pushed[if a < skills.len() {
                        b
                    } else {
                        a
                    }] == sk);
                    assert(!crate::store::spec_has_active_rule(skills, sk.rule@));
                }
            }
            lemma_generation_never_duplicates(
                pushed,
                next_id + 1,
                cands.drop_first(),
                now,
                fskills,
                fnext,
                msgs.drop_first(),
            );
        }
    }
}

impl TriageStore {
    /// Persist the candidates that are not byte-identical to an existing
    /// active skill's rule; returns one creation message per new skill.
    pub fn insert_skill_candidates(&mut self, cands: &Vec<SkillCandidate>, now: i64) -> (msgs: Vec<
        String,
    >)
        requires
            old(self).wf(),
            old(self).next_skill_id + cands@.len() <= u64::MAX,
        ensures
            final(self).wf(),
            spec_candidates_applied(
                old(self).skills@,
                old(self).next_skill_id as int,
                cands@,
                now,
                final(self).skills@,
                final(self).next_skill_id as int,
                msgs@.map_values(|s: String| s@),
            ),
            final(self).next_skill_id <= old(self).next_skill_id + cands@.len(),
            final(self).emails@ == old(self).emails@,
            final(self).triage_log@ == old(self).triage_log@,
            final(self).vips@ == old(self).vips@,
            final(self).summaries@ == old(self).summaries@,
            final(self).config@ == old(self).config@,
    {
        let n = cands.len();
        let mut msgs: Vec<String> = Vec::new();
        let mut i: usize = 0;
        proof {
            assert(cands@.take(0) =~= Seq::<SkillCandidate>::empty());
            assert(msgs@.map_values(|s: String| s@) =~= Seq::<Seq<char>>::empty());
        }
        while i < n
            invariant
                i <= n,
                n == cands@.len(),
                old(self).wf(),
                self.wf(),
                old(self).next_skill_id + n <= u64::MAX,
                self.next_skill_id <= old(self).next_skill_id + i,
                spec_candidates_applied(
                    old(self).skills@,
                    old(self).next_skill_id as int,
                    cands@.take(i as int),
                    now,
                    self.skills@,
                    self.next_skill_id as int,
                    msgs@.map_values(|s: String| s@),
                ),
                self.emails@ == old(self).emails@,
                self.triage_log@ == old(self).triage_log@,
                self.vips@ == old(self).vips@,
                self.summaries@ == old(self).summaries@,
                self.config@ == old(self).config@,
            decreases n - i,
        {
            proof {
                assert(cands@.take(i + 1).drop_last() =~= cands@.take(i as int));
                assert(cands@.take(i + 1) =~= cands@.take(i as int).push(cands@[i as int]));
            }
            let c = &cands[i];
            let skill_type = match &c.skill_type {
                Some(s) => skill_type_from_label(s.as_str()),
                None => crate::types::SkillType::SenderRule,
            };
            let description = match &c.description {
                Some(s) => s.clone(),
                None => String::from_str("Regla auto-generada"),
            };
            let rule = match &c.rule {
                Some(s) => s.clone(),
                None => String::from_str("{}"),
            };
            let confidence: i64 = match &c.confidence_text {
                Some(s) => match confidence_hundredths(s.as_str()) {
                    Some(x) => x,
                    None => crate::types::CONFIDENCE_DEFAULT as i64,
                },
                None => crate::types::CONFIDENCE_DEFAULT as i64,
            };
            let ghost nc = spec_normalize_candidate(cands@[i as int]);
            proof {
                assert(skill_type == nc.skill_type);
                assert(description@ == nc.description);
                assert(rule@ == nc.rule);
                assert(confidence as int == nc.confidence);
            }
            if !self.has_active_rule(rule.as_str()) {
                let mut msg = String::from_str("✨ Nueva skill: ");
                msg.append(description.as_str());
                let ghost pre_skills = self.skills@;
                let ghost pre_next = self.next_skill_id as int;
                let ghost pre_msgs = msgs@.map_values(|s: String| s@);
                self.insert_skill(skill_type, description, rule, confidence, now);
                msgs.push(msg);
                proof {
                    let sk = self.skills@.last();
                    assert(spec_new_skill_matches(sk, pre_next, nc, now));
                    assert(self.skills@ =~= pre_skills.push(sk));
                    assert(msgs@.map_values(|s: String| s@) =~= pre_msgs.push(
                        "✨ Nueva skill: "@ + nc.description,
                    ));
                    lemma_applied_extend_insert(
                        old(self).skills@,
                        old(self).next_skill_id as int,
                        cands@.take(i as int),
                        now,
                        pre_skills,
                        pre_next,
                        pre_msgs,
                        cands@[i as int],
                        sk,
                    );
                }
            } else {
                proof {
                    lemma_applied_extend_skip(
                        old(self).skills@,
                        old(self).next_skill_id as int,
                        cands@.take(i as int),
                        now,
                        self.skills@,
                        self.next_skill_id as int,
                        msgs@.map_values(|s: String| s@),
                        cands@[i as int],
                    );
                }
            }
            i = i + 1;
        }
        proof {
            assert(cands@.take(n as int) =~= cands@);
        }
        msgs
    }

    /// Digest a generation reply: parse the candidate array, persist the
    /// deduplicated candidates, and report what was created (or that nothing
    /// new was discovered).
    pub fn apply_skill_candidates(&mut self, response_text: &str, now: i64) -> (msgs: Vec<String>)
        requires
            old(self).wf(),
        ensures
            final(self).wf(),
            final(self).emails@ == old(self).emails@,
            final(self).triage_log@ == old(self).triage_log@,
            final(self).vips@ == old(self).vips@,
            final(self).summaries@ == old(self).summaries@,
            final(self).config@ == old(self).config@,
            match skill_candidates_of(
                crate::text::spec_clean_response_of(response_text@),
            ) {
                Some(cs) => {
                    if old(self).next_skill_id + cs.len() <= u64::MAX {
                        if cs.len() == 0 {
                            final(self).skills@ == old(self).skills@ && final(self).next_skill_id
                                == old(self).next_skill_id && msgs@.len() == 1 && msgs@[0]@
                                == "No se descubrieron patrones nuevos."@
                        } else {
                            exists|created: Seq<Seq<char>>|
                                #![auto]
                                spec_candidates_applied(
                                    old(self).skills@,
                                    old(self).next_skill_id as int,
                                    cs,
                                    now,
                                    final(self).skills@,
                                    final(self).next_skill_id as int,
                                    created,
                                ) && (if created.len() == 0 {
                                    msgs@.len() == 1 && msgs@[0]@
                                        == "No se descubrieron patrones nuevos."@
                                } else {
                                    msgs@.map_values(|s: String| s@) == created
                                })
                        }
                    } else {
                        final(self).skills@ == old(self).skills@ && final(self).next_skill_id
                            == old(self).next_skill_id && msgs@.len() == 1 && msgs@[0]@
                            == "No se descubrieron patrones nuevos."@
                    }
                },
                None => {
                    &&& final(self).skills@ == old(self).skills@
                    &&& final(self).next_skill_id == old(self).next_skill_id
                    &&& msgs@.len() == 1
                    &&& msgs@[0]@ == "No se descubrieron patrones nuevos."@
                },
            },
    {
        let clean = crate::classifier::clean_response(response_text);
        match extract_skill_candidates(clean.as_str()) {
            None => {
                let mut msgs: Vec<String> = Vec::new();
                msgs.push(no_new_patterns_message());
                msgs
            },
            Some(cands) => {
                if cands.len() as u64 > u64::MAX - self.next_skill_id {
                    let mut msgs: Vec<String> = Vec::new();
                    msgs.push(no_new_patterns_message());
                    return msgs;
                }
                if cands.len() == 0 {
                    proof {
                        assert(cands@ =~= Seq::<SkillCandidate>::empty());
                    }
                    let mut msgs: Vec<String> = Vec::new();
                    msgs.push(no_new_patterns_message());
                    return msgs;
                }
                let mut msgs = self.insert_skill_candidates(&cands, now);
                if msgs.len() == 0 {
                    msgs.push(no_new_patterns_message());
                }
                msgs
            },
        }
    }
}

} // verus!
