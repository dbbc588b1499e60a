//! The triage scheduler: a single-flight, rate-limited run controller that
//! drains the backlog of unclassified INBOX mail one message at a time. The
//! engine owns the store and all run state explicitly; the driver loop around
//! it performs the outside work (the completion call, the waiting) and hands
//! the outcomes back as plain values.

use vstd::prelude::*;
use vstd::string::StringExecFns;

use crate::classifier::{
    Verdict, build_triage_prompt, reason_is_marker, spec_triage_prompt, spec_vip_note,
    triage_verdict,
};
use crate::drafting::{build_draft_prompt, spec_draft_prompt};
use crate::skills::{EvalReport, spec_skills_context};
use crate::store::{
    TriageStore, spec_backlog, spec_is_backlog_email, spec_is_classification_record,
};
use crate::types::{
    ClassifiedPayload, Email, EngineEvent, Importance, ImportantMailPayload, MAX_PER_RUN,
    MIN_CALL_INTERVAL_SECS, ProgressStatus, TriageProgress, TriageResult,
};

verus! {

/// Bookkeeping of the run in progress.
pub struct ActiveRun {
    pub account_id: String,
    pub total: i64,
    pub processed: u64,
    pub awaiting: Option<Email>,
}

/// What a trigger call decided.
#[derive(Clone, Debug)]
pub enum BeginOutcome {
    /// A run is already active; this trigger is a no-op.
    AlreadyRunning,
    /// Nothing awaits classification.
    NoBacklog,
    /// A run started over this many unclassified messages.
    Started(i64),
}

/// What the engine asks of the driver next.
pub enum RunStep {
    /// The run is over; this many messages were processed.
    Finished(u64),
    /// Classify this message: wait `wait_secs`, then call the completion
    /// service with `prompt` and hand the outcome to `submit_outcome`.
    Classify { email: Email, prompt: String, wait_secs: u64 },
}

/// A detached drafting task the driver should spawn, without awaiting it.
pub struct DraftRequest {
    pub email_id: String,
    pub sender: String,
    pub sender_email: String,
    pub subject: String,
    pub prompt: String,
}

/// What one submitted completion outcome led to.
pub enum StepResult {
    /// The verdict was persisted; a drafting task may have been requested.
    Recorded { result: TriageResult, draft: Option<DraftRequest> },
    /// The attempt failed; the run stopped, nothing was persisted, and the
    /// message will be retried on the next trigger.
    ServiceFailed,
}

/// Consecutive completion-service call starts are at least the minimum
/// interval apart.
pub open spec fn spec_rate_spaced(calls: Seq<i64>) -> bool {
    forall|i: int|
        0 <= i < calls.len() - 1 ==> #[trigger] calls[i + 1] >= calls[i]
            + MIN_CALL_INTERVAL_SECS
}

/// The wait the rate limiter imposes before the next call may start.
pub open spec fn spec_wait_secs(last: i64, now: i64) -> int {
    if now - last < MIN_CALL_INTERVAL_SECS {
        MIN_CALL_INTERVAL_SECS - (now - last)
    } else {
        0
    }
}

/// The string a missing optional column coalesces to.
pub open spec fn spec_coalesce(o: Option<String>) -> Seq<char> {
    match o {
        Some(s) => s@,
        None => Seq::<char>::empty(),
    }
}

/// The optional column's text, or empty.
pub fn coalesce_str(o: &Option<String>) -> (r: &str)
    ensures
        r@ == spec_coalesce(*o),
{
    match o {
        Some(s) => s.as_str(),
        None => {
            proof {
                reveal_strlit("");
                assert(""@ =~= Seq::<char>::empty());
            }
            ""
        },
    }
}

/// A progress event with these fields.
pub open spec fn spec_is_progress(
    e: EngineEvent,
    total: i64,
    processed: u64,
    subject: Option<Seq<char>>,
    status: ProgressStatus,
) -> bool {
    e matches EngineEvent::Progress(p) && p.total == total && p.processed == processed
        && p.status == status && (match (p.current_subject, subject) {
        (Some(s), Some(t)) => s@ == t,
        (None, None) => true,
        _ => false,
    })
}

/// The classification prompt the scheduler sends for a message, over the
/// store's current VIP and skill context.
pub open spec fn spec_prompt_for(s: TriageStore, email: Email) -> Seq<char> {
    spec_triage_prompt(
        spec_coalesce(email.sender),
        spec_coalesce(email.sender_email),
        spec_coalesce(email.subject),
        spec_coalesce(email.snippet),
        spec_vip_note(s.vips@),
        spec_skills_context(s.skills@),
    )
}

/// The message a run classifies next: an unclassified INBOX message of the
/// account with the highest uid.
pub open spec fn spec_is_next_unclassified(s: TriageStore, account: Seq<char>, e: Email) -> bool {
    &&& spec_is_backlog_email(s.triage_log@, e, account)
    &&& s.emails@.contains(e)
    &&& forall|i: int|
        0 <= i < s.emails@.len() && spec_is_backlog_email(
            s.triage_log@,
            #[trigger] s.emails@[i],
            account,
        ) ==> s.emails@[i].uid <= e.uid
}

/// The run controller. It owns the store, the single-flight flag and the
/// rate-limiter clock; the ghost call log records every completion-call
/// start, so the spacing guarantee covers the whole history.
pub struct TriageEngine {
    pub store: TriageStore,
    pub running: bool,
    pub last_call_ts: i64,
    pub run: Option<ActiveRun>,
    pub call_log: Ghost<Seq<i64>>,
}

impl TriageEngine {
    /// The engine's invariants: the store is well-formed, a run exists only
    /// while the flag is set, a run never exceeds the per-run cap, and the
    /// recorded completion calls are rate-spaced with the limiter clock at
    /// the last of them.
    pub open spec fn wf(self) -> bool {
        &&& self.store.wf()
        &&& (self.run is Some ==> self.running)
        &&& (self.run matches Some(a) ==> a.processed <= MAX_PER_RUN && a.total >= 0)
        &&& (self.run matches Some(a) ==> (a.awaiting is Some ==> a.processed < MAX_PER_RUN))
        &&& self.last_call_ts >= 0
        &&& self.last_call_ts + MIN_CALL_INTERVAL_SECS <= i64::MAX
        &&& spec_rate_spaced(self.call_log@)
        &&& (self.call_log@.len() > 0 ==> self.call_log@.last() == self.last_call_ts)
        &&& (self.call_log@.len() == 0 ==> self.last_call_ts == 0)
        &&& (forall|i: int| 0 <= i < self.call_log@.len() ==> #[trigger] self.call_log@[i] > 0)
    }

    pub fn new(store: TriageStore) -> (e: TriageEngine)
        requires
            store.wf(),
        ensures
            e.wf(),
            e.store == store,
            !e.running,
            e.run is None,
            e.last_call_ts == 0,
            e.call_log@ == Seq::<i64>::empty(),
    {
        TriageEngine {
            store,
            running: false,
            last_call_ts: 0,
            run: None,
            call_log: Ghost(Seq::empty()),
        }
    }

    /// Trigger a triage run for the account. At most one run is ever active:
    /// a trigger while one runs changes nothing and reports so; with an empty
    /// backlog nothing starts; otherwise the run begins and the started
    /// progress event is emitted.
    pub fn trigger_triage(&mut self, account_id: &str, now: i64) -> (r: (
        BeginOutcome,
        Vec<EngineEvent>,
    ))
        requires
            old(self).wf(),
            old(self).store.emails@.len() <= i64::MAX,
        ensures
            final(self).wf(),
            old(self).running ==> *final(self) == *old(self) && r.0 is AlreadyRunning && r.1@.len()
                == 0,
            !old(self).running && spec_backlog(old(self).store, account_id@).len() == 0
                ==> *final(self) == *old(self) && r.0 is NoBacklog && r.1@.len() == 0,
            !old(self).running && spec_backlog(old(self).store, account_id@).len() > 0 ==> {
                &&& final(self).running
                &&& final(self).store == old(self).store
                &&& final(self).last_call_ts == old(self).last_call_ts
                &&& final(self).call_log@ == old(self).call_log@
                &&& (final(self).run matches Some(a) && a.account_id@ == account_id@ && a.total
                    == spec_backlog(old(self).store, account_id@).len() && a.processed == 0
                    && a.awaiting is None)
                &&& r.0 matches BeginOutcome::Started(t) && t == spec_backlog(
                    old(self).store,
                    account_id@,
                ).len()
                &&& r.1@.len() == 1
                &&& spec_is_progress(
                    r.1@[0],
                    spec_backlog(old(self).store, account_id@).len() as i64,
                    0,
                    None,
                    ProgressStatus::Started,
                )
            },
    {
        if self.running {
            return (BeginOutcome::AlreadyRunning, Vec::new());
        }
        let count = self.store.backlog_count(account_id);
        if count == 0 {
            return (BeginOutcome::NoBacklog, Vec::new());
        }
        let total = count as i64;
        self.running = true;
        self.run = Some(
            ActiveRun {
                account_id: String::from_str(account_id),
                total,
                processed: 0,
                awaiting: None,
            },
        );
        let mut events: Vec<EngineEvent> = Vec::new();
        events.push(
            EngineEvent::Progress(
                TriageProgress {
                    total,
                    processed: 0,
                    current_subject: None,
                    status: ProgressStatus::Started,
                },
            ),
        );
        (BeginOutcome::Started(total), events)
    }

    /// Decide the run's next move: finish when the cap is reached or the
    /// backlog is drained (emitting the done event and clearing the flag),
    /// else pick the newest unclassified message, report the wait the rate
    /// limiter imposes, build its prompt, and emit the classifying event.
    pub fn next_step(&mut self, now: i64) -> (r: (RunStep, Vec<EngineEvent>))
        requires
            old(self).wf(),
            old(self).running,
            old(self).run matches Some(a) && a.awaiting is None,
            now >= 0,
        ensures
            final(self).wf(),
            final(self).store == old(self).store,
            final(self).last_call_ts == old(self).last_call_ts,
            final(self).call_log@ == old(self).call_log@,
            ({
                let a = old(self).run->0;
                let account = a.account_id@;
                if a.processed >= MAX_PER_RUN || spec_backlog(old(self).store, account).len()
                    == 0 {
                    &&& !final(self).running
                    &&& final(self).run is None
                    &&& r.0 matches RunStep::Finished(p) && p == a.processed
                    &&& r.1@.len() == 1
                    &&& spec_is_progress(
                        r.1@[0],
                        a.total,
                        a.processed,
                        None,
                        ProgressStatus::Done,
                    )
                } else {
                    &&& final(self).running
                    &&& (final(self).run matches Some(b) && b.account_id@ == account && b.total
                        == a.total && b.processed == a.processed && (r.0 matches RunStep::Classify {
                        email,
                        prompt,
                        wait_secs,
                    } && b.awaiting == Some(email) && spec_is_next_unclassified(
                        old(self).store,
                        account,
                        email,
                    ) && prompt@ == spec_prompt_for(old(self).store, email) && wait_secs as int
                        == spec_wait_secs(old(self).last_call_ts, now) && r.1@.len() == 1
                        && spec_is_progress(
                        r.1@[0],
                        if a.total <= MAX_PER_RUN as i64 {
                            a.total
                        } else {
                            MAX_PER_RUN as i64
                        },
                        a.processed,
                        Some(spec_coalesce(email.subject)),
                        ProgressStatus::Classifying,
                    )))
                }
            }),
    {
        let (account_id, total, processed) = match &self.run {
            Some(a) => (a.account_id.clone(), a.total, a.processed),
            None => vstd::pervasive::unreached(),
        };
        let next = if processed >= MAX_PER_RUN {
            None
        } else {
            self.store.next_unclassified(account_id.as_str())
        };
        let next = match next {
            Some(email) => email,
            None => {
                // Cap reached or backlog drained: the run ends here.
                self.running = false;
                self.run = None;
                let mut events: Vec<EngineEvent> = Vec::new();
                events.push(
                    EngineEvent::Progress(
                        TriageProgress {
                            total,
                            processed,
                            current_subject: None,
                            status: ProgressStatus::Done,
                        },
                    ),
                );
                return (RunStep::Finished(processed), events);
            },
        };
        let wait_secs: u64 = if now - self.last_call_ts < MIN_CALL_INTERVAL_SECS {
            (MIN_CALL_INTERVAL_SECS - (now - self.last_call_ts)) as u64
        } else {
            0
        };
        let vip_note = self.store.get_vip_note();
        let skills_ctx = self.store.get_skills_context();
        let prompt = build_triage_prompt(
            coalesce_str(&next.sender),
            coalesce_str(&next.sender_email),
            coalesce_str(&next.subject),
            coalesce_str(&next.snippet),
            vip_note.as_str(),
            skills_ctx.as_str(),
        );
        let capped_total = if total <= MAX_PER_RUN as i64 {
            total
        } else {
            MAX_PER_RUN as i64
        };
        let subject = String::from_str(coalesce_str(&next.subject));
        let mut events: Vec<EngineEvent> = Vec::new();
        events.push(
            EngineEvent::Progress(
                TriageProgress {
                    total: capped_total,
                    processed,
                    current_subject: Some(subject),
                    status: ProgressStatus::Classifying,
                },
            ),
        );
        self.run = Some(
            ActiveRun {
                account_id,
                total,
                processed,
                awaiting: Some(next.clone()),
            },
        );
        (RunStep::Classify { email: next, prompt, wait_secs }, events)
    }

    /// Digest one completion outcome for the awaited message. `call_time` is
    /// when the driver started the call: the rate limiter demands it be at
    /// least the minimum interval after the previous call. A failed call, an
    /// unparseable reply, or a verdict whose reason text equals a failure
    /// marker stops the run whole — nothing is persisted, so the message is
    /// retried on the next trigger. Any other classified outcome is persisted
    /// (always as a non-transient record) and reported, and a high-importance
    /// notifying verdict also raises the alert event and requests a detached
    /// drafting task.
    #[verifier::rlimit(60)]
    pub fn submit_outcome(&mut self, response: Option<String>, call_time: i64, now: i64) -> (r: (
        StepResult,
        Vec<EngineEvent>,
    ))
        requires
            old(self).wf(),
            old(self).running,
            old(self).run matches Some(a) && a.awaiting is Some,
            call_time > 0,
            call_time + MIN_CALL_INTERVAL_SECS <= i64::MAX,
            now >= 0,
            old(self).last_call_ts > 0 ==> call_time >= old(self).last_call_ts
                + MIN_CALL_INTERVAL_SECS,
        ensures
            final(self).wf(),
            final(self).last_call_ts == call_time,
            final(self).call_log@ == old(self).call_log@.push(call_time),
            spec_rate_spaced(final(self).call_log@),
            ({
                let a = old(self).run->0;
                let email = a.awaiting->0;
                let response_view: Option<Seq<char>> = match response {
                    Some(t) => Some(t@),
                    None => None,
                };
                let failed = response_view is None || crate::classifier::verdict_fields_of(
                    crate::text::spec_clean_response_of(response_view->0),
                ) is None || crate::classifier::spec_reason_is_marker(
                    match crate::classifier::verdict_fields_of(
                        crate::text::spec_clean_response_of(response_view->0),
                    )->0.reason {
                        Some(s) => s@,
                        None => Seq::<char>::empty(),
                    },
                );
                if !failed {
                    let f = crate::classifier::verdict_fields_of(
                        crate::text::spec_clean_response_of(response_view->0),
                    )->0;
                    let importance = (match f.importance {
                        Some(s) => crate::classifier::spec_importance_from_label(s@),
                        None => Importance::Low,
                    });
                    let reason = (match f.reason {
                        Some(s) => s@,
                        None => Seq::<char>::empty(),
                    });
                    let should_notify = (match f.should_notify {
                        Some(b) => b,
                        None => false,
                    });
                    {
                            &&& final(self).running
                            &&& (final(self).run matches Some(b) && b.account_id@ == a.account_id@
                                && b.total == a.total && b.processed == a.processed + 1
                                && b.awaiting is None)
                            &&& final(self).store.triage_log@.len()
                                == old(self).store.triage_log@.len() + 1
                            &&& final(self).store.triage_log@.drop_last()
                                == old(self).store.triage_log@
                            &&& spec_is_classification_record(
                                final(self).store.triage_log@.last(),
                                email.id@,
                                importance,
                                reason,
                                spec_coalesce(email.sender_email),
                                now,
                            )
                            &&& !crate::store::spec_is_transient(
                                final(self).store.triage_log@.last(),
                            )
                            &&& final(self).store.emails@ == old(self).store.emails@
                            &&& final(self).store.vips@ == old(self).store.vips@
                            &&& final(self).store.skills@ == old(self).store.skills@
                            &&& final(self).store.summaries@ == old(self).store.summaries@
                            &&& final(self).store.config@ == old(self).store.config@
                            &&& (r.0 matches StepResult::Recorded { result, draft } && {
                                &&& result.email_id@ == email.id@
                                &&& result.importance@ == importance.spec_label()
                                &&& result.reason@ == reason
                                &&& result.should_notify == should_notify
                                &&& (if importance == Importance::High && should_notify {
                                    &&& r.1@.len() == 2
                                    &&& (r.1@[1] matches EngineEvent::ImportantMail(p)
                                        && p.account_id@ == a.account_id@ && p.email_id@
                                        == email.id@ && p.sender@ == spec_coalesce(email.sender)
                                        && p.subject@ == spec_coalesce(email.subject)
                                        && p.importance@ == importance.spec_label())
                                    &&& (draft matches Some(d) && d.email_id@ == email.id@
                                        && d.sender@ == spec_coalesce(email.sender)
                                        && d.sender_email@ == spec_coalesce(email.sender_email)
                                        && d.subject@ == spec_coalesce(email.subject) && d.prompt@
                                        == spec_draft_prompt(
                                        spec_coalesce(email.sender),
                                        spec_coalesce(email.subject),
                                        spec_coalesce(email.snippet),
                                    ))
                                } else {
                                    r.1@.len() == 1 && draft is None
                                })
                                &&& (r.1@[0] matches EngineEvent::Classified(c) && c.email_id@
                                    == email.id@ && c.importance@ == importance.spec_label()
                                    && c.reason@ == reason)
                            })
                    }
                } else {
                    &&& !final(self).running
                    &&& final(self).run is None
                    &&& final(self).store == old(self).store
                    &&& r.0 is ServiceFailed
                    &&& r.1@.len() == 1
                    &&& spec_is_progress(r.1@[0], a.total, a.processed, None, ProgressStatus::Done)
                }
            }),
    {
        self.last_call_ts = call_time;
        proof {
            self.call_log@ = self.call_log@.push(call_time);
        }
        let (account_id, total, processed, email) = match &self.run {
            Some(a) => match &a.awaiting {
                Some(e) => (a.account_id.clone(), a.total, a.processed, e.clone()),
                None => vstd::pervasive::unreached(),
            },
            None => vstd::pervasive::unreached(),
        };
        let verdict = triage_verdict(&response);
        // A verdict whose reason collides with a failure marker would persist
        // as a transient record; it is treated as a failed attempt instead.
        let accepted: Option<(Importance, String, bool)> = match verdict {
            Verdict::Classified { importance, reason, should_notify } => {
                if reason_is_marker(reason.as_str()) {
                    None
                } else {
                    Some((importance, reason, should_notify))
                }
            },
            _ => None,
        };
        match accepted {
            Some((importance, reason, should_notify)) => {
                let record = crate::types::TriageRecord {
                    email_id: email.id.clone(),
                    importance: Some(importance),
                    reason: reason.clone(),
                    user_action: None,
                    sender_email: String::from_str(coalesce_str(&email.sender_email)),
                    created_at: now,
                };
                self.store.triage_log.push(record);
                self.run = Some(
                    ActiveRun { account_id: account_id.clone(), total, processed: processed + 1, awaiting: None },
                );
                let result = TriageResult {
                    email_id: email.id.clone(),
                    importance: importance.label(),
                    reason: reason.clone(),
                    should_notify,
                };
                let mut events: Vec<EngineEvent> = Vec::new();
                events.push(
                    EngineEvent::Classified(
                        ClassifiedPayload {
                            email_id: email.id.clone(),
                            importance: importance.label(),
                            reason: reason.clone(),
                        },
                    ),
                );
                let is_alert = matches!(importance, Importance::High) && should_notify;
                let draft = if is_alert {
                    events.push(
                        EngineEvent::ImportantMail(
                            ImportantMailPayload {
                                account_id,
                                email_id: email.id.clone(),
                                sender: String::from_str(coalesce_str(&email.sender)),
                                subject: String::from_str(coalesce_str(&email.subject)),
                                importance: importance.label(),
                            },
                        ),
                    );
                    let prompt = build_draft_prompt(
                        coalesce_str(&email.sender),
                        coalesce_str(&email.subject),
                        coalesce_str(&email.snippet),
                    );
                    Some(
                        DraftRequest {
                            email_id: email.id.clone(),
                            sender: String::from_str(coalesce_str(&email.sender)),
                            sender_email: String::from_str(coalesce_str(&email.sender_email)),
                            subject: String::from_str(coalesce_str(&email.subject)),
                            prompt,
                        },
                    )
                } else {
                    None
                };
                (StepResult::Recorded { result, draft }, events)
            },
            None => {
                // Failure short-circuit: stop whole, persist nothing, so the
                // message is retried on the next trigger.
                self.running = false;
                self.run = None;
                let mut events: Vec<EngineEvent> = Vec::new();
                events.push(
                    EngineEvent::Progress(
                        TriageProgress {
                            total,
                            processed,
                            current_subject: None,
                            status: ProgressStatus::Done,
                        },
                    ),
                );
                (StepResult::ServiceFailed, events)
            },
        }
    }
}

/// What a self-improvement cycle decided.
pub enum CyclePlan {
    /// Too few action-bearing records to learn from: nothing ran.
    InsufficientData,
    /// Evaluation ran; when behavior data exists the generation prompt is
    /// ready for the driver to send, and the reply belongs to
    /// `apply_skill_candidates`.
    Evaluated { report: EvalReport, generation_prompt: Option<String> },
}

impl TriageEngine {
    /// The full self-improvement cycle: skipped entirely while fewer than
    /// five action-bearing records exist; otherwise evaluation runs first
    /// (so confidence reflects the latest feedback), then the generation
    /// prompt is prepared from the freshly evaluated store.
    pub fn run_self_improvement_cycle(&mut self, now: i64) -> (r: CyclePlan)
        requires
            old(self).wf(),
        ensures
            final(self).wf(),
            final(self).running == old(self).running,
            final(self).run == old(self).run,
            final(self).last_call_ts == old(self).last_call_ts,
            final(self).call_log@ == old(self).call_log@,
            final(self).store.emails@ == old(self).store.emails@,
            final(self).store.triage_log@ == old(self).store.triage_log@,
            final(self).store.vips@ == old(self).store.vips@,
            final(self).store.summaries@ == old(self).store.summaries@,
            final(self).store.config@ == old(self).store.config@,
            final(self).store.next_skill_id == old(self).store.next_skill_id,
            old(self).store.triage_log@.filter(|t: crate::types::TriageRecord| t.user_action is Some).len()
                < 5 ==> (*final(self) == *old(self) && r is InsufficientData),
            old(self).store.triage_log@.filter(|t: crate::types::TriageRecord| t.user_action is Some).len()
                >= 5 ==> {
                &&& final(self).store.skills@ == old(self).store.skills@.map_values(
                    |k: crate::types::Skill| crate::skills::spec_skill_after_eval(
                        k,
                        crate::skills::spec_log_accuracy_good(old(self).store.triage_log@),
                        now,
                    ),
                )
                &&& (r matches CyclePlan::Evaluated { report, generation_prompt } && {
                    &&& report.correct == crate::skills::spec_correct_count(
                        crate::skills::spec_feedback_pairs(old(self).store.triage_log@),
                    )
                    &&& report.correct + report.incorrect == crate::skills::spec_feedback_pairs(
                        old(self).store.triage_log@,
                    ).len()
                    &&& ((generation_prompt is None) <==> crate::skills::spec_group_behavior(
                        old(self).store.triage_log@,
                    ).len() == 0)
                    &&& (generation_prompt matches Some(p) ==> p@
                        == crate::skills::spec_generation_prompt(
                        old(self).store.triage_log@,
                        final(self).store.skills@,
                    ))
                })
            },
    {
        let count = self.store.action_record_count();
        if count < 5 {
            return CyclePlan::InsufficientData;
        }
        let report = self.store.evaluate_skills(now);
        let generation_prompt = self.store.generate_skills_prompt();
        CyclePlan::Evaluated { report, generation_prompt }
    }
}

/// Within the whole recorded history of a well-formed engine, any two
/// consecutive completion-service call starts are at least the minimum
/// interval apart.
pub proof fn lemma_consecutive_calls_spaced(e: TriageEngine, i: int)
    requires
        e.wf(),
        0 <= i < e.call_log@.len() - 1,
    ensures
        e.call_log@[i + 1] >= e.call_log@[i] + MIN_CALL_INTERVAL_SECS,
{
}

} // verus!
