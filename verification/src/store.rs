//! In-memory record store of the triage core: the triage log, VIP senders,
//! skills, per-account conversation summaries, completion-service settings, and the
//! mail table the sync collaborator fills. Every write is an append, an
//! insert-if-absent, or a keyed upsert, mirroring the record operations the
//! persistent collaborator offers.

use vstd::prelude::*;
use vstd::pervasive::VecAdditionalExecFns;
use vstd::string::StringExecFns;

use crate::text::str_eq;
use crate::types::{
    CONFIDENCE_MAX, ConfigEntry, ConversationSummary, Email, Importance, Skill, SkillType,
    TriageConfig, TriageRecord, UserAction, VipReason, VipSender, clone_opt_string,
    spec_unavailable_reason, spec_unparseable_reason, unavailable_reason, unparseable_reason,
};

verus! {

/// A record is transient when its reason is one of the two failure markers;
/// such records never count as a classification.
pub open spec fn spec_is_transient(r: TriageRecord) -> bool {
    r.reason@ == spec_unavailable_reason() || r.reason@ == spec_unparseable_reason()
}

/// Whether some non-transient record exists for the message.
pub open spec fn spec_classified(log: Seq<TriageRecord>, email_id: Seq<char>) -> bool {
    exists|i: int|
        0 <= i < log.len() && (#[trigger] log[i]).email_id@ == email_id && !spec_is_transient(
            log[i],
        )
}

/// Whether the sender is VIP.
pub open spec fn spec_vip(vips: Seq<VipSender>, sender: Seq<char>) -> bool {
    exists|i: int| 0 <= i < vips.len() && (#[trigger] vips[i]).sender_email@ == sender
}

/// How many VIP rows carry this sender.
pub open spec fn spec_vip_count(vips: Seq<VipSender>, sender: Seq<char>) -> nat {
    vips.filter(|v: VipSender| v.sender_email@ == sender).len()
}

/// The value stored under `key`, if any.
pub open spec fn spec_config_value(cfg: Seq<ConfigEntry>, key: Seq<char>) -> Option<Seq<char>>
    decreases cfg.len(),
{
    if cfg.len() == 0 {
        None
    } else if cfg[0].key@ == key {
        Some(cfg[0].value@)
    } else {
        spec_config_value(cfg.drop_first(), key)
    }
}

/// The account's conversation summary, if one is held for it.
pub open spec fn spec_summary_for(
    summaries: Seq<ConversationSummary>,
    account: Seq<char>,
) -> Option<ConversationSummary>
    decreases summaries.len(),
{
    if summaries.len() == 0 {
        None
    } else if summaries[0].account_id@ == account {
        Some(summaries[0])
    } else {
        spec_summary_for(summaries.drop_first(), account)
    }
}

/// The importance of the newest classification record for the message.
pub open spec fn spec_latest_importance(log: Seq<TriageRecord>, email_id: Seq<char>) -> Option<
    Importance,
>
    decreases log.len(),
{
    if log.len() == 0 {
        None
    } else if log.last().email_id@ == email_id && log.last().importance is Some {
        log.last().importance
    } else {
        spec_latest_importance(log.drop_last(), email_id)
    }
}

/// A behavior-log entry as `record_user_action` writes it.
pub open spec fn spec_is_behavior_record(
    r: TriageRecord,
    email_id: Seq<char>,
    action: UserAction,
    sender: Seq<char>,
    now: i64,
) -> bool {
    &&& r.email_id@ == email_id
    &&& r.importance is None
    &&& r.reason@ == Seq::<char>::empty()
    &&& r.user_action == Some(action)
    &&& r.sender_email@ == sender
    &&& r.created_at == now
}

/// A classification entry as the scheduler persists it.
pub open spec fn spec_is_classification_record(
    r: TriageRecord,
    email_id: Seq<char>,
    importance: Importance,
    reason: Seq<char>,
    sender: Seq<char>,
    now: i64,
) -> bool {
    &&& r.email_id@ == email_id
    &&& r.importance == Some(importance)
    &&& r.reason@ == reason
    &&& r.user_action is None
    &&& r.sender_email@ == sender
    &&& r.created_at == now
}

/// Whether some active skill holds exactly this rule payload.
pub open spec fn spec_has_active_rule(skills: Seq<Skill>, rule: Seq<char>) -> bool {
    exists|i: int| 0 <= i < skills.len() && (#[trigger] skills[i]).active && skills[i].rule@ == rule
}

/// A confidence, clamped into the allowed band (hundredths).
pub open spec fn spec_clamp_confidence(c: int) -> u8 {
    if c < 0 {
        0
    } else if c > CONFIDENCE_MAX {
        CONFIDENCE_MAX
    } else {
        c as u8
    }
}

/// Whether the mail table holds a message with this id.
pub open spec fn spec_has_email(emails: Seq<Email>, id: Seq<char>) -> bool {
    exists|i: int| 0 <= i < emails.len() && (#[trigger] emails[i]).id@ == id
}

/// A message in the account's INBOX with no non-transient record yet.
pub open spec fn spec_is_backlog_email(
    log: Seq<TriageRecord>,
    m: Email,
    account: Seq<char>,
) -> bool {
    &&& m.account_id@ == account
    &&& m.folder@ == "INBOX"@
    &&& !spec_classified(log, m.id@)
}

/// The unclassified INBOX messages of the account, in table order.
pub open spec fn spec_backlog_of(
    log: Seq<TriageRecord>,
    emails: Seq<Email>,
    account: Seq<char>,
) -> Seq<Email> {
    emails.filter(|m: Email| spec_is_backlog_email(log, m, account))
}

/// The store's unclassified INBOX messages for the account.
pub open spec fn spec_backlog(s: TriageStore, account: Seq<char>) -> Seq<Email> {
    spec_backlog_of(s.triage_log@, s.emails@, account)
}

/// Whether the account owns a message with this id.
pub open spec fn spec_email_in_account(
    emails: Seq<Email>,
    id: Seq<char>,
    account: Seq<char>,
) -> bool {
    exists|i: int|
        0 <= i < emails.len() && (#[trigger] emails[i]).id@ == id && emails[i].account_id@
            == account
}

/// All importance verdicts for the account's messages, newest record first.
pub open spec fn spec_importance_map(
    log: Seq<TriageRecord>,
    emails: Seq<Email>,
    account: Seq<char>,
) -> Seq<(Seq<char>, Importance)>
    decreases log.len(),
{
    if log.len() == 0 {
        Seq::empty()
    } else {
        let r = log.last();
        let head: Seq<(Seq<char>, Importance)> = if r.importance is Some && spec_email_in_account(
            emails,
            r.email_id@,
            account,
        ) {
            seq![(r.email_id@, r.importance->0)]
        } else {
            Seq::empty()
        };
        head + spec_importance_map(log.drop_last(), emails, account)
    }
}

/// `x` placed into a uid-descending message list, after any equal uids.
pub open spec fn spec_insert_email_desc(sorted: Seq<Email>, x: Email) -> Seq<Email>
    decreases sorted.len(),
{
    if sorted.len() == 0 {
        seq![x]
    } else if x.uid > sorted[0].uid {
        seq![x] + sorted
    } else {
        seq![sorted[0]] + spec_insert_email_desc(sorted.drop_first(), x)
    }
}

/// Stable insertion sort of messages by uid, newest first.
pub open spec fn spec_sort_emails_desc(s: Seq<Email>) -> Seq<Email>
    decreases s.len(),
{
    if s.len() == 0 {
        s
    } else {
        spec_insert_email_desc(spec_sort_emails_desc(s.drop_last()), s.last())
    }
}

/// The account's messages in one folder, in table order.
pub open spec fn spec_folder_emails(
    emails: Seq<Email>,
    account: Seq<char>,
    folder: Seq<char>,
) -> Seq<Email>
    decreases emails.len(),
{
    if emails.len() == 0 {
        Seq::empty()
    } else {
        spec_folder_emails(emails.drop_last(), account, folder) + (if emails.last().account_id@
            == account && emails.last().folder@ == folder {
            seq![emails.last()]
        } else {
            Seq::empty()
        })
    }
}

proof fn lemma_insert_email_at(sorted: Seq<Email>, x: Email, pos: int)
    requires
        0 <= pos <= sorted.len(),
        forall|k: int| 0 <= k < pos ==> !(x.uid > (#[trigger] sorted[k]).uid),
        pos < sorted.len() ==> x.uid > sorted[pos].uid,
    ensures
        spec_insert_email_desc(sorted, x) == sorted.take(pos) + seq![x] + sorted.skip(pos),
    decreases pos,
{
    if sorted.len() == 0 {
        assert(sorted.take(0) + seq![x] + sorted.skip(0) =~= seq![x]);
    } else if pos == 0 {
        assert(sorted.take(0) + seq![x] + sorted.skip(0) =~= seq![x] + sorted);
    } else {
        let tail = sorted.drop_first();
        assert forall|k: int| 0 <= k < pos - 1 implies !(x.uid > (#[trigger] tail[k]).uid) by {
            assert(tail[k] == sorted[k + 1]);
        }
        if pos - 1 < tail.len() {
            assert(tail[pos - 1] == sorted[pos as int]);
        }
        lemma_insert_email_at(tail, x, pos - 1);
        assert(seq![sorted[0]] + (tail.take(pos - 1) + seq![x] + tail.skip(pos - 1))
            =~= sorted.take(pos) + seq![x] + sorted.skip(pos));
    }
}

/// The record store every component reads and writes.
pub struct TriageStore {
    pub emails: Vec<Email>,
    pub triage_log: Vec<TriageRecord>,
    pub vips: Vec<VipSender>,
    pub skills: Vec<Skill>,
    pub summaries: Vec<ConversationSummary>,
    pub config: Vec<ConfigEntry>,
    pub next_skill_id: u64,
}

impl TriageStore {
    /// Structural invariants: every record plays exactly one role, VIP senders
    /// and config keys and message ids are unique, and every skill is within
    /// the confidence bound with an id below the allocator's watermark.
    pub open spec fn wf(self) -> bool {
        &&& forall|i: int|
            0 <= i < self.triage_log@.len() ==> (#[trigger] self.triage_log@[i]).wf()
        &&& forall|i: int, j: int|
            0 <= i < self.vips@.len() && 0 <= j < self.vips@.len() && i != j ==> (
            #[trigger] self.vips@[i]).sender_email@ != (#[trigger] self.vips@[j]).sender_email@
        &&& forall|i: int| 0 <= i < self.skills@.len() ==> (#[trigger] self.skills@[i]).wf()
        &&& forall|i: int, j: int|
            0 <= i < self.skills@.len() && 0 <= j < self.skills@.len() && i != j ==> (
            #[trigger] self.skills@[i]).id != (#[trigger] self.skills@[j]).id
        &&& forall|i: int|
            0 <= i < self.skills@.len() ==> (#[trigger] self.skills@[i]).id < self.next_skill_id
        &&& forall|i: int, j: int|
            0 <= i < self.config@.len() && 0 <= j < self.config@.len() && i != j ==> (
            #[trigger] self.config@[i]).key@ != (#[trigger] self.config@[j]).key@
        &&& forall|i: int, j: int|
            0 <= i < self.summaries@.len() && 0 <= j < self.summaries@.len() && i != j ==> (
            #[trigger] self.summaries@[i]).account_id@ != (
            #[trigger] self.summaries@[j]).account_id@
        &&& forall|i: int, j: int|
            0 <= i < self.emails@.len() && 0 <= j < self.emails@.len() && i != j ==> (
            #[trigger] self.emails@[i]).id@ != (#[trigger] self.emails@[j]).id@
    }

    /// All parts except the mail table, unchanged between two states.
    pub open spec fn same_except_emails(self, other: TriageStore) -> bool {
        &&& self.triage_log@ == other.triage_log@
        &&& self.vips@ == other.vips@
        &&& self.skills@ == other.skills@
        &&& self.summaries@ == other.summaries@
        &&& self.config@ == other.config@
        &&& self.next_skill_id == other.next_skill_id
    }

    pub fn new() -> (s: TriageStore)
        ensures
            s.wf(),
            s.emails@.len() == 0,
            s.triage_log@.len() == 0,
            s.vips@.len() == 0,
            s.skills@.len() == 0,
            s.summaries@.len() == 0,
            s.config@.len() == 0,
            s.next_skill_id == 0,
    {
        TriageStore {
            emails: Vec::new(),
            triage_log: Vec::new(),
            vips: Vec::new(),
            skills: Vec::new(),
            summaries: Vec::new(),
            config: Vec::new(),
            next_skill_id: 0,
        }
    }

    /// Promote a sender to VIP with the given reason; an insert that is
    /// ignored when the sender is already present.
    pub fn promote_to_vip(&mut self, sender_email: &str, reason: VipReason, now: i64)
        requires
            old(self).wf(),
        ensures
            final(self).wf(),
            spec_vip(final(self).vips@, sender_email@),
            spec_vip_count(final(self).vips@, sender_email@) == 1,
            spec_vip(old(self).vips@, sender_email@) ==> final(self).vips@ == old(self).vips@,
            !spec_vip(old(self).vips@, sender_email@) ==> {
                &&& final(self).vips@.len() == old(self).vips@.len() + 1
                &&& final(self).vips@.drop_last() == old(self).vips@
                &&& final(self).vips@.last().sender_email@ == sender_email@
                &&& final(self).vips@.last().reason == reason
                &&& final(self).vips@.last().created_at == now
            },
            final(self).emails@ == old(self).emails@,
            final(self).triage_log@ == old(self).triage_log@,
            final(self).skills@ == old(self).skills@,
            final(self).summaries@ == old(self).summaries@,
            final(self).config@ == old(self).config@,
            final(self).next_skill_id == old(self).next_skill_id,
    {
        let n = self.vips.len();
        let mut i: usize = 0;
        while i < n
            invariant
                i <= n,
                n == self.vips@.len(),
                *self == *old(self),
                old(self).wf(),
                forall|j: int| 0 <= j < i ==> (#[trigger] self.vips@[j]).sender_email@ != sender_email@,
            decreases n - i,
        {
            if str_eq(self.vips[i].sender_email.as_str(), sender_email) {
                proof {
                    lemma_vip_count_one(self.vips@, sender_email@);
                }
                return ;
            }
            i = i + 1;
        }
        let row = VipSender {
            sender_email: String::from_str(sender_email),
            reason,
            created_at: now,
        };
        self.vips.push(row);
        proof {
            assert(self.vips@.drop_last() =~= old(self).vips@);
            lemma_vip_count_one(self.vips@, sender_email@);
        }
    }

    /// Record what the user did with a message; a replied or starred action
    /// additionally promotes the sender to VIP (auto-learned, idempotent).
    pub fn record_user_action(
        &mut self,
        email_id: &str,
        action: UserAction,
        sender_email: &str,
        now: i64,
    )
        requires
            old(self).wf(),
        ensures
            final(self).wf(),
            final(self).triage_log@.len() == old(self).triage_log@.len() + 1,
            final(self).triage_log@.drop_last() == old(self).triage_log@,
            spec_is_behavior_record(
                final(self).triage_log@.last(),
                email_id@,
                action,
                sender_email@,
                now,
            ),
            action.spec_promotes() ==> spec_vip(final(self).vips@, sender_email@)
                && spec_vip_count(final(self).vips@, sender_email@) == 1,
            !action.spec_promotes() ==> final(self).vips@ == old(self).vips@,
            action.spec_promotes() && spec_vip(old(self).vips@, sender_email@)
                ==> final(self).vips@ == old(self).vips@,
            action.spec_promotes() && !spec_vip(old(self).vips@, sender_email@) ==> {
                &&& final(self).vips@.len() == old(self).vips@.len() + 1
                &&& final(self).vips@.drop_last() == old(self).vips@
                &&& final(self).vips@.last().sender_email@ == sender_email@
                &&& final(self).vips@.last().reason == VipReason::AutoLearned
            },
            final(self).emails@ == old(self).emails@,
            final(self).skills@ == old(self).skills@,
            final(self).summaries@ == old(self).summaries@,
            final(self).config@ == old(self).config@,
            final(self).next_skill_id == old(self).next_skill_id,
    {
        let rec = TriageRecord {
            email_id: String::from_str(email_id),
            importance: None,
            reason: String::new(),
            user_action: Some(action),
            sender_email: String::from_str(sender_email),
            created_at: now,
        };
        self.triage_log.push(rec);
        if action.promotes() {
            self.promote_to_vip(sender_email, VipReason::AutoLearned, now);
        }
    }

    /// Manually add a VIP sender; ignored when already present.
    pub fn add_vip_sender(&mut self, sender_email: &str, now: i64)
        requires
            old(self).wf(),
        ensures
            final(self).wf(),
            spec_vip(final(self).vips@, sender_email@),
            spec_vip_count(final(self).vips@, sender_email@) == 1,
            spec_vip(old(self).vips@, sender_email@) ==> final(self).vips@ == old(self).vips@,
            !spec_vip(old(self).vips@, sender_email@) ==> {
                &&& final(self).vips@.len() == old(self).vips@.len() + 1
                &&& final(self).vips@.drop_last() == old(self).vips@
                &&& final(self).vips@.last().sender_email@ == sender_email@
                &&& final(self).vips@.last().reason == VipReason::Manual
            },
            final(self).emails@ == old(self).emails@,
            final(self).triage_log@ == old(self).triage_log@,
            final(self).skills@ == old(self).skills@,
            final(self).summaries@ == old(self).summaries@,
            final(self).config@ == old(self).config@,
            final(self).next_skill_id == old(self).next_skill_id,
    {
        self.promote_to_vip(sender_email, VipReason::Manual, now);
    }

    /// VIP addresses, newest first.
    pub fn get_vip_senders(&self) -> (r: Vec<String>)
        ensures
            r@.len() == self.vips@.len(),
            forall|i: int|
                0 <= i < r@.len() ==> (#[trigger] r@[i])@ == self.vips@[self.vips@.len() - 1
                    - i].sender_email@,
    {
        let n = self.vips.len();
        let mut r: Vec<String> = Vec::new();
        let mut i: usize = n;
        while i > 0
            invariant
                i <= n,
                n == self.vips@.len(),
                r@.len() == n - i,
                forall|j: int|
                    0 <= j < r@.len() ==> (#[trigger] r@[j])@ == self.vips@[n - 1 - j].sender_email@,
            decreases i,
        {
            i = i - 1;
            r.push(self.vips[i].sender_email.clone());
        }
        r
    }

    /// The latest persisted importance of a message, as its label.
    pub fn get_email_importance(&self, email_id: &str) -> (r: Option<String>)
        ensures
            match spec_latest_importance(self.triage_log@, email_id@) {
                Some(imp) => r matches Some(s) && s@ == imp.spec_label(),
                None => r is None,
            },
    {
        let n = self.triage_log.len();
        proof {
            assert(self.triage_log@.take(n as int) =~= self.triage_log@);
        }
        let mut i: usize = n;
        while i > 0
            invariant
                i <= n,
                n == self.triage_log@.len(),
                spec_latest_importance(self.triage_log@, email_id@) == spec_latest_importance(
                    self.triage_log@.take(i as int),
                    email_id@,
                ),
            decreases i,
        {
            i = i - 1;
            let rec = &self.triage_log[i];
            proof {
                assert(self.triage_log@.take(i + 1).last() == self.triage_log@[i as int]);
                assert(self.triage_log@.take(i + 1).drop_last() =~= self.triage_log@.take(i as int));
            }
            if rec.importance.is_some() && str_eq(rec.email_id.as_str(), email_id) {
                let imp = rec.importance.unwrap();
                return Some(imp.label());
            }
        }
        None
    }

    /// Whether the account owns a message with this id.
    pub fn email_in_account(&self, email_id: &str, account_id: &str) -> (r: bool)
        ensures
            r == spec_email_in_account(self.emails@, email_id@, account_id@),
    {
        let n = self.emails.len();
        let mut i: usize = 0;
        while i < n
            invariant
                i <= n,
                n == self.emails@.len(),
                forall|j: int|
                    0 <= j < i ==> !((#[trigger] self.emails@[j]).id@ == email_id@
                        && self.emails@[j].account_id@ == account_id@),
            decreases n - i,
        {
            if str_eq(self.emails[i].id.as_str(), email_id) && str_eq(
                self.emails[i].account_id.as_str(),
                account_id,
            ) {
                return true;
            }
            i = i + 1;
        }
        false
    }

    /// Every persisted importance for the account's messages, as
    /// (message id, importance label) pairs, newest record first.
    pub fn get_importance_map(&self, account_id: &str) -> (r: Vec<(String, String)>)
        ensures
            r@.len() == spec_importance_map(self.triage_log@, self.emails@, account_id@).len(),
            forall|j: int|
                0 <= j < r@.len() ==> {
                    let entry = spec_importance_map(
                        self.triage_log@,
                        self.emails@,
                        account_id@,
                    )[j];
                    (#[trigger] r@[j]).0@ == entry.0 && r@[j].1@ == entry.1.spec_label()
                },
    {
        let log = &self.triage_log;
        let n = log.len();
        let ghost full = spec_importance_map(self.triage_log@, self.emails@, account_id@);
        let mut out: Vec<(String, String)> = Vec::new();
        let mut i: usize = n;
        proof {
            assert(log@.take(n as int) =~= log@);
            assert(full.skip(0) =~= full);
        }
        while i > 0
            invariant
                i <= n,
                n == log@.len(),
                log@ == self.triage_log@,
                full == spec_importance_map(self.triage_log@, self.emails@, account_id@),
                out@.len() <= full.len(),
                spec_importance_map(log@.take(i as int), self.emails@, account_id@) == full.skip(
                    out@.len() as int,
                ),
                forall|j: int|
                    0 <= j < out@.len() ==> (#[trigger] out@[j]).0@ == full[j].0 && out@[j].1@
                        == full[j].1.spec_label(),
            decreases i,
        {
            i = i - 1;
            proof {
                assert(log@.take(i + 1).drop_last() =~= log@.take(i as int));
                assert(log@.take(i + 1).last() == log@[i as int]);
            }
            let rec = &self.triage_log[i];
            if rec.importance.is_some() && self.email_in_account(
                rec.email_id.as_str(),
                account_id,
            ) {
                let imp = rec.importance.unwrap();
                proof {
                    let cur = full.skip(out@.len() as int);
                    assert(cur[0] == (log@[i as int].email_id@, log@[i as int].importance->0));
                    assert(cur.drop_first() =~= full.skip(out@.len() as int + 1));
                }
                out.push((rec.email_id.clone(), imp.label()));
            } else {
                proof {
                    assert(Seq::<(Seq<char>, Importance)>::empty() + spec_importance_map(
                        log@.take(i as int),
                        self.emails@,
                        account_id@,
                    ) =~= spec_importance_map(log@.take(i as int), self.emails@, account_id@));
                }
            }
        }
        proof {
            assert(spec_importance_map(log@.take(0), self.emails@, account_id@).len() == 0);
        }
        out
    }

    /// Store or replace the account's rolling conversation summary: an
    /// upsert keyed on the account, leaving other accounts' summaries alone.
    pub fn save_conversation_summary(
        &mut self,
        account_id: &str,
        summary_text: &str,
        message_count: i64,
        now: i64,
    )
        requires
            old(self).wf(),
        ensures
            final(self).wf(),
            spec_summary_for(final(self).summaries@, account_id@) matches Some(cs)
                && cs.account_id@ == account_id@ && cs.summary@ == summary_text@
                && cs.message_count == message_count && cs.updated_at == now,
            forall|a: Seq<char>|
                a != account_id@ ==> spec_summary_for(final(self).summaries@, a)
                    == spec_summary_for(old(self).summaries@, a),
            final(self).emails@ == old(self).emails@,
            final(self).triage_log@ == old(self).triage_log@,
            final(self).vips@ == old(self).vips@,
            final(self).skills@ == old(self).skills@,
            final(self).config@ == old(self).config@,
            final(self).next_skill_id == old(self).next_skill_id,
    {
        let entry = ConversationSummary {
            account_id: String::from_str(account_id),
            summary: String::from_str(summary_text),
            message_count,
            updated_at: now,
        };
        let n = self.summaries.len();
        let mut i: usize = 0;
        while i < n
            invariant
                i <= n,
                n == self.summaries@.len(),
                *self == *old(self),
                old(self).wf(),
                entry.account_id@ == account_id@,
                entry.summary@ == summary_text@,
                entry.message_count == message_count,
                entry.updated_at == now,
                forall|j: int|
                    0 <= j < i ==> (#[trigger] self.summaries@[j]).account_id@ != account_id@,
            decreases n - i,
        {
            if str_eq(self.summaries[i].account_id.as_str(), account_id) {
                self.summaries.set(i, entry);
                proof {
                    let newsum = self.summaries@;
                    assert forall|j: int| 0 <= j < i implies (#[trigger] newsum[j]).account_id@
                        != account_id@ by {
                        assert(newsum[j] == old(self).summaries@[j]);
                    }
                    lemma_summary_for_skip(newsum, account_id@, i as int);
                    assert(newsum.skip(i as int)[0] == newsum[i as int]);
                    assert forall|a: Seq<char>| a != account_id@ implies spec_summary_for(
                        newsum,
                        a,
                    ) == spec_summary_for(old(self).summaries@, a) by {
                        lemma_summary_for_update(
                            old(self).summaries@,
                            i as int,
                            newsum[i as int],
                            a,
                        );
                    }
                }
                return ;
            }
            i = i + 1;
        }
        proof {
            lemma_summary_for_skip(self.summaries@, account_id@, n as int);
            assert(self.summaries@.skip(n as int).len() == 0);
        }
        self.summaries.push(entry);
        proof {
            assert(self.summaries@.drop_last() =~= old(self).summaries@);
            assert forall|a: Seq<char>| true implies spec_summary_for(self.summaries@, a) == (
            if spec_summary_for(old(self).summaries@, a) is Some {
                spec_summary_for(old(self).summaries@, a)
            } else if a == account_id@ {
                Some(self.summaries@.last())
            } else {
                Option::<ConversationSummary>::None
            }) by {
                assert(self.summaries@ =~= old(self).summaries@.push(self.summaries@.last()));
                lemma_summary_for_push(old(self).summaries@, self.summaries@.last(), a);
            }
        }
    }

    /// The stored summary text for the account, if one is held for it.
    pub fn get_conversation_summary(&self, account_id: &str) -> (r: Option<String>)
        ensures
            match spec_summary_for(self.summaries@, account_id@) {
                Some(cs) => r matches Some(s) && s@ == cs.summary@,
                None => r is None,
            },
    {
        let n = self.summaries.len();
        let mut i: usize = 0;
        while i < n
            invariant
                i <= n,
                n == self.summaries@.len(),
                forall|j: int|
                    0 <= j < i ==> (#[trigger] self.summaries@[j]).account_id@ != account_id@,
            decreases n - i,
        {
            if str_eq(self.summaries[i].account_id.as_str(), account_id) {
                proof {
                    lemma_summary_for_skip(self.summaries@, account_id@, i as int);
                    assert(self.summaries@.skip(i as int)[0] == self.summaries@[i as int]);
                }
                return Some(self.summaries[i].summary.clone());
            }
            i = i + 1;
        }
        proof {
            lemma_summary_for_skip(self.summaries@, account_id@, n as int);
        }
        None
    }
}

/// The value stored under a key is found by walking past the entries whose
/// keys differ.
proof fn lemma_config_value_skip(cfg: Seq<ConfigEntry>, k: Seq<char>, i: int)
    requires
        0 <= i <= cfg.len(),
        forall|j: int| 0 <= j < i ==> (#[trigger] cfg[j]).key@ != k,
    ensures
        spec_config_value(cfg, k) == spec_config_value(cfg.skip(i), k),
    decreases i,
{
    if i > 0 {
        assert(cfg.drop_first() =~= cfg.skip(1));
        assert forall|j: int| 0 <= j < i - 1 implies (#[trigger] cfg.skip(1)[j]).key@ != k by {
            assert(cfg.skip(1)[j] == cfg[j + 1]);
        }
        lemma_config_value_skip(cfg.skip(1), k, i - 1);
        assert(cfg.skip(1).skip(i - 1) =~= cfg.skip(i));
    } else {
        assert(cfg.skip(0) =~= cfg);
    }
}

/// Appending an entry only affects the lookup of keys that were absent.
proof fn lemma_config_value_push(cfg: Seq<ConfigEntry>, e: ConfigEntry, k: Seq<char>)
    ensures
        spec_config_value(cfg.push(e), k) == (if spec_config_value(cfg, k) is Some {
            spec_config_value(cfg, k)
        } else if e.key@ == k {
            Some(e.value@)
        } else {
            Option::<Seq<char>>::None
        }),
    decreases cfg.len(),
{
    let p = cfg.push(e);
    if cfg.len() == 0 {
        assert(p[0] == e);
        assert(p.drop_first() =~= cfg);
    } else {
        assert(p[0] == cfg[0]);
        assert(p.drop_first() =~= cfg.drop_first().push(e));
        lemma_config_value_push(cfg.drop_first(), e, k);
    }
}

/// Replacing an entry by one with the same key leaves other keys' lookups
/// unchanged.
proof fn lemma_config_value_update(cfg: Seq<ConfigEntry>, i: int, e: ConfigEntry, k: Seq<char>)
    requires
        0 <= i < cfg.len(),
        cfg[i].key@ == e.key@,
        k != e.key@,
    ensures
        spec_config_value(cfg.update(i, e), k) == spec_config_value(cfg, k),
    decreases i,
{
    let u = cfg.update(i, e);
    if i == 0 {
        assert(u[0] == e);
        assert(u.drop_first() =~= cfg.drop_first());
    } else {
        assert(u[0] == cfg[0]);
        assert(u.drop_first() =~= cfg.drop_first().update(i - 1, e));
        lemma_config_value_update(cfg.drop_first(), i - 1, e, k);
    }
}

/// The account's summary is found by walking past the other accounts'.
proof fn lemma_summary_for_skip(summaries: Seq<ConversationSummary>, a: Seq<char>, i: int)
    requires
        0 <= i <= summaries.len(),
        forall|j: int| 0 <= j < i ==> (#[trigger] summaries[j]).account_id@ != a,
    ensures
        spec_summary_for(summaries, a) == spec_summary_for(summaries.skip(i), a),
    decreases i,
{
    if i > 0 {
        assert(summaries.drop_first() =~= summaries.skip(1));
        assert forall|j: int| 0 <= j < i - 1 implies (#[trigger] summaries.skip(1)[j]).account_id@
            != a by {
            assert(summaries.skip(1)[j] == summaries[j + 1]);
        }
        lemma_summary_for_skip(summaries.skip(1), a, i - 1);
        assert(summaries.skip(1).skip(i - 1) =~= summaries.skip(i));
    } else {
        assert(summaries.skip(0) =~= summaries);
    }
}

/// Appending a summary only affects the lookup of an account that was absent.
proof fn lemma_summary_for_push(
    summaries: Seq<ConversationSummary>,
    e: ConversationSummary,
    a: Seq<char>,
)
    ensures
        spec_summary_for(summaries.push(e), a) == (if spec_summary_for(summaries, a) is Some {
            spec_summary_for(summaries, a)
        } else if e.account_id@ == a {
            Some(e)
        } else {
            Option::<ConversationSummary>::None
        }),
    decreases summaries.len(),
{
    let p = summaries.push(e);
    if summaries.len() == 0 {
        assert(p[0] == e);
        assert(p.drop_first() =~= summaries);
    } else {
        assert(p[0] == summaries[0]);
        assert(p.drop_first() =~= summaries.drop_first().push(e));
        lemma_summary_for_push(summaries.drop_first(), e, a);
    }
}

/// Replacing a summary by one for the same account leaves other accounts'
/// lookups unchanged.
proof fn lemma_summary_for_update(
    summaries: Seq<ConversationSummary>,
    i: int,
    e: ConversationSummary,
    a: Seq<char>,
)
    requires
        0 <= i < summaries.len(),
        summaries[i].account_id@ == e.account_id@,
        a != e.account_id@,
    ensures
        spec_summary_for(summaries.update(i, e), a) == spec_summary_for(summaries, a),
    decreases i,
{
    let u = summaries.update(i, e);
    if i == 0 {
        assert(u[0] == e);
        assert(u.drop_first() =~= summaries.drop_first());
    } else {
        assert(u[0] == summaries[0]);
        assert(u.drop_first() =~= summaries.drop_first().update(i - 1, e));
        lemma_summary_for_update(summaries.drop_first(), i - 1, e, a);
    }
}

/// An absent sender has no VIP rows.
pub proof fn lemma_vip_count_zero(vips: Seq<VipSender>, sender: Seq<char>)
    requires
        !spec_vip(vips, sender),
    ensures
        spec_vip_count(vips, sender) == 0,
    decreases vips.len(),
{
    reveal(Seq::filter);
    if vips.len() > 0 {
        let dl = vips.drop_last();
        assert(vips[vips.len() - 1].sender_email@ != sender);
        assert forall|i: int| 0 <= i < dl.len() implies (#[trigger] dl[i]).sender_email@
            != sender by {
            assert(dl[i] == vips[i]);
        }
        lemma_vip_count_zero(dl, sender);
    }
}

/// In a VIP table with unique senders, a present sender has exactly one row.
pub proof fn lemma_vip_count_one(vips: Seq<VipSender>, sender: Seq<char>)
    requires
        forall|i: int, j: int|
            0 <= i < vips.len() && 0 <= j < vips.len() && i != j ==> (
            #[trigger] vips[i]).sender_email@ != (#[trigger] vips[j]).sender_email@,
        spec_vip(vips, sender),
    ensures
        spec_vip_count(vips, sender) == 1,
    decreases vips.len(),
{
    reveal(Seq::filter);
    let dl = vips.drop_last();
    if vips.last().sender_email@ == sender {
        assert forall|j: int| 0 <= j < dl.len() implies (#[trigger] dl[j]).sender_email@
            != sender by {
            assert(dl[j] == vips[j]);
            assert(vips[j].sender_email@ != vips[vips.len() - 1].sender_email@);
        }
        lemma_vip_count_zero(dl, sender);
    } else {
        let w = choose|i: int| 0 <= i < vips.len() && (#[trigger] vips[i]).sender_email@ == sender;
        assert(dl[w] == vips[w]);
        assert(spec_vip(dl, sender));
        assert forall|i: int, j: int|
            0 <= i < dl.len() && 0 <= j < dl.len() && i != j implies (
        #[trigger] dl[i]).sender_email@ != (#[trigger] dl[j]).sender_email@ by {
            assert(dl[i] == vips[i] && dl[j] == vips[j]);
        }
        lemma_vip_count_one(dl, sender);
    }
}

/// Every element of a filtered sequence comes from the original.
pub proof fn lemma_filter_subset<A>(s: Seq<A>, pred: spec_fn(A) -> bool)
    ensures
        forall|j: int|
            0 <= j < s.filter(pred).len() ==> s.contains(#[trigger] s.filter(pred)[j]),
    decreases s.len(),
{
    reveal(Seq::filter);
    if s.len() > 0 {
        let dl = s.drop_last();
        lemma_filter_subset(dl, pred);
        let f = s.filter(pred);
        let fd = dl.filter(pred);
        assert forall|j: int| 0 <= j < f.len() implies s.contains(f[j]) by {
            if pred(s.last()) && j == f.len() - 1 {
                assert(f[j] == s.last());
                assert(s[s.len() - 1] == s.last());
            } else {
                assert(f[j] == fd[j]);
                assert(dl.contains(fd[j]));
                let k = choose|k: int| 0 <= k < dl.len() && dl[k] == fd[j];
                assert(s[k] == fd[j]);
            }
        }
    }
}

/// Filtering preserves pairwise distinctness of any key of the elements.
pub proof fn lemma_filter_keeps_distinct_keys<A, K>(
    s: Seq<A>,
    pred: spec_fn(A) -> bool,
    key: spec_fn(A) -> K,
)
    requires
        forall|i: int, j: int|
            0 <= i < s.len() && 0 <= j < s.len() && i != j ==> key(#[trigger] s[i]) != key(
                #[trigger] s[j],
            ),
    ensures
        forall|i: int, j: int|
            0 <= i < s.filter(pred).len() && 0 <= j < s.filter(pred).len() && i != j ==> key(
                #[trigger] s.filter(pred)[i],
            ) != key(#[trigger] s.filter(pred)[j]),
    decreases s.len(),
{
    reveal(Seq::filter);
    if s.len() > 0 {
        let dl = s.drop_last();
        assert forall|i: int, j: int|
            0 <= i < dl.len() && 0 <= j < dl.len() && i != j implies key(#[trigger] dl[i]) != key(
            #[trigger] dl[j]) by {
            assert(dl[i] == s[i] && dl[j] == s[j]);
        }
        lemma_filter_keeps_distinct_keys(dl, pred, key);
        lemma_filter_subset(dl, pred);
        let f = s.filter(pred);
        let fd = dl.filter(pred);
        assert forall|i: int, j: int|
            0 <= i < f.len() && 0 <= j < f.len() && i != j implies key(#[trigger] f[i]) != key(
            #[trigger] f[j]) by {
            if pred(s.last()) {
                if i < f.len() - 1 && j < f.len() - 1 {
                    assert(f[i] == fd[i] && f[j] == fd[j]);
                } else {
                    let a = if i < j { i } else { j };
                    assert(f[a] == fd[a]);
                    assert(dl.contains(fd[a]));
                    let k = choose|k: int| 0 <= k < dl.len() && dl[k] == fd[a];
                    assert(s[k] == fd[a]);
                    assert(f[if i < j { j } else { i }] == s.last());
                    assert(s[s.len() - 1] == s.last());
                    assert(key(s[k]) != key(s[s.len() - 1]));
                }
            } else {
                assert(f[i] == fd[i] && f[j] == fd[j]);
            }
        }
    }
}

impl TriageStore {
    /// Store one completion-service setting, replacing any previous value
    /// under the same key.
    pub fn set_config(&mut self, key: &str, value: &str)
        requires
            old(self).wf(),
        ensures
            final(self).wf(),
            spec_config_value(final(self).config@, key@) == Some(value@),
            forall|k: Seq<char>|
                k != key@ ==> spec_config_value(final(self).config@, k) == spec_config_value(
                    old(self).config@,
                    k,
                ),
            final(self).emails@ == old(self).emails@,
            final(self).triage_log@ == old(self).triage_log@,
            final(self).vips@ == old(self).vips@,
            final(self).skills@ == old(self).skills@,
            final(self).summaries@ == old(self).summaries@,
            final(self).next_skill_id == old(self).next_skill_id,
    {
        let n = self.config.len();
        let mut i: usize = 0;
        while i < n
            invariant
                i <= n,
                n == self.config@.len(),
                *self == *old(self),
                old(self).wf(),
                forall|j: int| 0 <= j < i ==> (#[trigger] self.config@[j]).key@ != key@,
            decreases n - i,
        {
            if str_eq(self.config[i].key.as_str(), key) {
                let entry = ConfigEntry {
                    key: String::from_str(key),
                    value: String::from_str(value),
                };
                proof {
                    assert(self.config@[i as int].key@ == entry.key@);
                }
                self.config.set(i, entry);
                proof {
                    let newcfg = self.config@;
                    assert forall|j: int| 0 <= j < i implies (#[trigger] newcfg[j]).key@
                        != key@ by {
                        assert(newcfg[j] == old(self).config@[j]);
                    }
                    lemma_config_value_skip(newcfg, key@, i as int);
                    assert(newcfg.skip(i as int)[0] == newcfg[i as int]);
                    assert forall|k: Seq<char>| k != key@ implies spec_config_value(newcfg, k)
                        == spec_config_value(old(self).config@, k) by {
                        lemma_config_value_update(
                            old(self).config@,
                            i as int,
                            newcfg[i as int],
                            k,
                        );
                    }
                }
                return ;
            }
            i = i + 1;
        }
        let entry = ConfigEntry { key: String::from_str(key), value: String::from_str(value) };
        proof {
            lemma_config_value_skip(self.config@, key@, n as int);
            assert(self.config@.skip(n as int).len() == 0);
        }
        self.config.push(entry);
        proof {
            assert(self.config@.drop_last() =~= old(self).config@);
            assert forall|k: Seq<char>| true implies spec_config_value(self.config@, k) == (
            if spec_config_value(old(self).config@, k) is Some {
                spec_config_value(old(self).config@, k)
            } else if k == key@ {
                Some(value@)
            } else {
                Option::<Seq<char>>::None
            }) by {
                assert(self.config@ =~= old(self).config@.push(self.config@.last()));
                lemma_config_value_push(old(self).config@, self.config@.last(), k);
            }
        }
    }

    /// The stored value for one setting.
    pub fn get_config(&self, key: &str) -> (r: Option<String>)
        ensures
            match spec_config_value(self.config@, key@) {
                Some(v) => r matches Some(s) && s@ == v,
                None => r is None,
            },
    {
        let n = self.config.len();
        let mut i: usize = 0;
        while i < n
            invariant
                i <= n,
                n == self.config@.len(),
                forall|j: int| 0 <= j < i ==> (#[trigger] self.config@[j]).key@ != key@,
            decreases n - i,
        {
            if str_eq(self.config[i].key.as_str(), key) {
                proof {
                    lemma_config_value_skip(self.config@, key@, i as int);
                    assert(self.config@.skip(i as int)[0] == self.config@[i as int]);
                }
                return Some(self.config[i].value.clone());
            }
            i = i + 1;
        }
        proof {
            lemma_config_value_skip(self.config@, key@, n as int);
        }
        None
    }

    /// Save the three completion-service settings.
    pub fn save_ai_config(&mut self, endpoint: &str, api_key: &str, model: &str)
        requires
            old(self).wf(),
        ensures
            final(self).wf(),
            spec_config_value(final(self).config@, "endpoint"@) == Some(endpoint@),
            spec_config_value(final(self).config@, "api_key"@) == Some(api_key@),
            spec_config_value(final(self).config@, "model"@) == Some(model@),
            forall|k: Seq<char>|
                k != "endpoint"@ && k != "api_key"@ && k != "model"@ ==> spec_config_value(
                    final(self).config@,
                    k,
                ) == spec_config_value(old(self).config@, k),
            final(self).emails@ == old(self).emails@,
            final(self).triage_log@ == old(self).triage_log@,
            final(self).vips@ == old(self).vips@,
            final(self).skills@ == old(self).skills@,
            final(self).summaries@ == old(self).summaries@,
            final(self).next_skill_id == old(self).next_skill_id,
    {
        proof {
            reveal_strlit("endpoint");
            reveal_strlit("api_key");
            reveal_strlit("model");
            assert("endpoint"@.len() == 8);
            assert("api_key"@.len() == 7);
            assert("model"@.len() == 5);
        }
        self.set_config("endpoint", endpoint);
        self.set_config("api_key", api_key);
        self.set_config("model", model);
    }

    /// Whether some non-transient record already covers the message.
    pub fn is_classified(&self, email_id: &str) -> (r: bool)
        ensures
            r == spec_classified(self.triage_log@, email_id@),
    {
        let n = self.triage_log.len();
        let mut i: usize = 0;
        while i < n
            invariant
                i <= n,
                n == self.triage_log@.len(),
                forall|j: int|
                    0 <= j < i ==> !((#[trigger] self.triage_log@[j]).email_id@ == email_id@
                        && !spec_is_transient(self.triage_log@[j])),
            decreases n - i,
        {
            let rec = &self.triage_log[i];
            if str_eq(rec.email_id.as_str(), email_id) {
                let unavailable = unavailable_reason();
                let unparseable = unparseable_reason();
                let transient = str_eq(rec.reason.as_str(), unavailable.as_str()) || str_eq(
                    rec.reason.as_str(),
                    unparseable.as_str(),
                );
                if !transient {
                    return true;
                }
            }
            i = i + 1;
        }
        false
    }

    /// How many INBOX messages of the account still await classification.
    pub fn backlog_count(&self, account_id: &str) -> (r: usize)
        ensures
            r == spec_backlog(*self, account_id@).len(),
    {
        let ghost pred = |m: Email| spec_is_backlog_email(self.triage_log@, m, account_id@);
        let n = self.emails.len();
        let mut count: usize = 0;
        let mut i: usize = 0;
        proof {
            reveal(Seq::filter);
            assert(self.emails@.take(0).filter(pred) =~= Seq::<Email>::empty());
        }
        while i < n
            invariant
                i <= n,
                n == self.emails@.len(),
                count <= i,
                pred == (|m: Email| spec_is_backlog_email(self.triage_log@, m, account_id@)),
                count == self.emails@.take(i as int).filter(pred).len(),
            decreases n - i,
        {
            let m = &self.emails[i];
            let inbox = str_eq(m.folder.as_str(), "INBOX");
            let acct = str_eq(m.account_id.as_str(), account_id);
            let classified = if inbox && acct {
                self.is_classified(m.id.as_str())
            } else {
                false
            };
            proof {
                reveal(Seq::filter);
                assert(self.emails@.take(i + 1).drop_last() =~= self.emails@.take(i as int));
                assert(self.emails@.take(i + 1).last() == self.emails@[i as int]);
            }
            if inbox && acct && !classified {
                count = count + 1;
            }
            i = i + 1;
        }
        proof {
            assert(self.emails@.take(n as int) =~= self.emails@);
        }
        count
    }

    /// The next message a run should classify: the unclassified INBOX message
    /// of the account with the highest uid (newest-arrived first).
    pub fn next_unclassified(&self, account_id: &str) -> (r: Option<Email>)
        ensures
            (r is None) <==> spec_backlog(*self, account_id@).len() == 0,
            r matches Some(e) ==> {
                &&& spec_is_backlog_email(self.triage_log@, e, account_id@)
                &&& self.emails@.contains(e)
                &&& forall|i: int|
                    0 <= i < self.emails@.len() && spec_is_backlog_email(
                        self.triage_log@,
                        #[trigger] self.emails@[i],
                        account_id@,
                    ) ==> self.emails@[i].uid <= e.uid
            },
    {
        let ghost pred = |m: Email| spec_is_backlog_email(self.triage_log@, m, account_id@);
        let n = self.emails.len();
        let mut best: Option<usize> = None;
        let mut i: usize = 0;
        while i < n
            invariant
                i <= n,
                n == self.emails@.len(),
                pred == (|m: Email| spec_is_backlog_email(self.triage_log@, m, account_id@)),
                match best {
                    Some(b) => b < i && pred(self.emails@[b as int]) && forall|j: int|
                        0 <= j < i && pred(#[trigger] self.emails@[j]) ==> self.emails@[j].uid
                            <= self.emails@[b as int].uid,
                    None => forall|j: int| 0 <= j < i ==> !pred(#[trigger] self.emails@[j]),
                },
            decreases n - i,
        {
            let m = &self.emails[i];
            let inbox = str_eq(m.folder.as_str(), "INBOX");
            let acct = str_eq(m.account_id.as_str(), account_id);
            let classified = if inbox && acct {
                self.is_classified(m.id.as_str())
            } else {
                false
            };
            if inbox && acct && !classified {
                match best {
                    Some(b) => {
                        if self.emails[i].uid > self.emails[b].uid {
                            best = Some(i);
                        }
                    },
                    None => {
                        best = Some(i);
                    },
                }
            }
            i = i + 1;
        }
        match best {
            Some(b) => {
                proof {
                    self.emails@.lemma_filter_contains(pred, b as int);
                }
                Some(self.emails[b].clone())
            },
            None => {
                proof {
                    self.emails@.lemma_all_neg_filter_empty(pred);
                }
                None
            },
        }
    }

    /// Insert or replace a message in the mail table, keyed on its id.
    pub fn upsert_email(&mut self, e: Email)
        requires
            old(self).wf(),
        ensures
            final(self).wf(),
            !spec_has_email(old(self).emails@, e.id@)
                ==> final(self).emails@ == old(self).emails@.push(e),
            spec_has_email(old(self).emails@, e.id@) ==> exists|i: int|
                0 <= i < old(self).emails@.len() && old(self).emails@[i].id@ == e.id@
                    && final(self).emails@ == old(self).emails@.update(i, e),
            final(self).same_except_emails(*old(self)),
    {
        let n = self.emails.len();
        let mut i: usize = 0;
        while i < n
            invariant
                i <= n,
                n == self.emails@.len(),
                *self == *old(self),
                old(self).wf(),
                forall|j: int| 0 <= j < i ==> (#[trigger] self.emails@[j]).id@ != e.id@,
            decreases n - i,
        {
            if str_eq(self.emails[i].id.as_str(), e.id.as_str()) {
                self.emails.set(i, e);
                return ;
            }
            i = i + 1;
        }
        self.emails.push(e);
    }

    /// Remove a message and every triage record that refers to it.
    pub fn delete_email(&mut self, email_id: &str)
        requires
            old(self).wf(),
        ensures
            final(self).wf(),
            final(self).emails@ == old(self).emails@.filter(
                |m: Email| m.id@ != email_id@,
            ),
            final(self).triage_log@ == old(self).triage_log@.filter(
                |t: TriageRecord| t.email_id@ != email_id@,
            ),
            final(self).vips@ == old(self).vips@,
            final(self).skills@ == old(self).skills@,
            final(self).summaries@ == old(self).summaries@,
            final(self).config@ == old(self).config@,
            final(self).next_skill_id == old(self).next_skill_id,
    {
        let ghost epred = |m: Email| m.id@ != email_id@;
        let n = self.emails.len();
        let mut kept: Vec<Email> = Vec::new();
        let mut i: usize = 0;
        proof {
            reveal(Seq::filter);
        }
        while i < n
            invariant
                i <= n,
                n == self.emails@.len(),
                *self == *old(self),
                epred == (|m: Email| m.id@ != email_id@),
                kept@ == self.emails@.take(i as int).filter(epred),
            decreases n - i,
        {
            proof {
                reveal(Seq::filter);
                assert(self.emails@.take(i + 1).drop_last() =~= self.emails@.take(i as int));
                assert(self.emails@.take(i + 1).last() == self.emails@[i as int]);
            }
            if !str_eq(self.emails[i].id.as_str(), email_id) {
                kept.push(self.emails[i].clone());
            }
            i = i + 1;
        }
        proof {
            assert(self.emails@.take(n as int) =~= self.emails@);
        }
        self.emails = kept;

        let ghost tpred = |t: TriageRecord| t.email_id@ != email_id@;
        let ln = self.triage_log.len();
        let mut kept_log: Vec<TriageRecord> = Vec::new();
        let mut j: usize = 0;
        proof {
            reveal(Seq::filter);
        }
        while j < ln
            invariant
                j <= ln,
                ln == self.triage_log@.len(),
                self.triage_log@ == old(self).triage_log@,
                tpred == (|t: TriageRecord| t.email_id@ != email_id@),
                kept_log@ == self.triage_log@.take(j as int).filter(tpred),
            decreases ln - j,
        {
            proof {
                reveal(Seq::filter);
                assert(self.triage_log@.take(j + 1).drop_last() =~= self.triage_log@.take(
                    j as int,
                ));
                assert(self.triage_log@.take(j + 1).last() == self.triage_log@[j as int]);
            }
            if !str_eq(self.triage_log[j].email_id.as_str(), email_id) {
                kept_log.push(self.triage_log[j].clone());
            }
            j = j + 1;
        }
        proof {
            assert(self.triage_log@.take(ln as int) =~= self.triage_log@);
        }
        self.triage_log = kept_log;
        proof {
            lemma_filter_keeps_distinct_keys(
                old(self).emails@,
                epred,
                |m: Email| m.id@,
            );
            lemma_filter_subset(old(self).triage_log@, tpred);
        }
    }

    /// The account's messages in a folder, newest uid first.
    pub fn get_emails(&self, account_id: &str, folder: &str) -> (r: Vec<Email>)
        ensures
            r@ == spec_sort_emails_desc(spec_folder_emails(self.emails@, account_id@, folder@)),
    {
        let n = self.emails.len();
        let mut picked: Vec<Email> = Vec::new();
        let mut i: usize = 0;
        proof {
            assert(spec_folder_emails(self.emails@.take(0), account_id@, folder@)
                =~= Seq::<Email>::empty());
        }
        while i < n
            invariant
                i <= n,
                n == self.emails@.len(),
                picked@ == spec_folder_emails(self.emails@.take(i as int), account_id@, folder@),
            decreases n - i,
        {
            proof {
                assert(self.emails@.take(i + 1).drop_last() =~= self.emails@.take(i as int));
                assert(self.emails@.take(i + 1).last() == self.emails@[i as int]);
            }
            if str_eq(self.emails[i].account_id.as_str(), account_id) && str_eq(
                self.emails[i].folder.as_str(),
                folder,
            ) {
                picked.push(self.emails[i].clone());
                proof {
                    assert(spec_folder_emails(self.emails@.take(i as int), account_id@, folder@)
                        + seq![self.emails@[i as int]] =~= spec_folder_emails(
                        self.emails@.take(i as int),
                        account_id@,
                        folder@,
                    ).push(self.emails@[i as int]));
                }
            } else {
                proof {
                    assert(spec_folder_emails(self.emails@.take(i as int), account_id@, folder@)
                        + Seq::<Email>::empty() =~= spec_folder_emails(
                        self.emails@.take(i as int),
                        account_id@,
                        folder@,
                    ));
                }
            }
            i = i + 1;
        }
        proof {
            assert(self.emails@.take(n as int) =~= self.emails@);
        }
        let m = picked.len();
        let mut out: Vec<Email> = Vec::new();
        let mut j: usize = 0;
        proof {
            assert(picked@.take(0) =~= Seq::<Email>::empty());
        }
        while j < m
            invariant
                j <= m,
                m == picked@.len(),
                out@ == spec_sort_emails_desc(picked@.take(j as int)),
            decreases m - j,
        {
            let x = picked[j].clone();
            let k = out.len();
            let mut pos: usize = 0;
            while pos < k && !(x.uid > out[pos].uid)
                invariant
                    pos <= k,
                    k == out@.len(),
                    x == picked@[j as int],
                    forall|t: int| 0 <= t < pos ==> !(x.uid > (#[trigger] out@[t]).uid),
                decreases k - pos,
            {
                pos = pos + 1;
            }
            proof {
                lemma_insert_email_at(out@, x, pos as int);
            }
            out.insert(pos, x);
            proof {
                assert(out@ =~= out@.subrange(0, pos as int) + seq![picked@[j as int]]
                    + out@.subrange(pos + 1, out@.len() as int));
                assert(picked@.take(j + 1).drop_last() =~= picked@.take(j as int));
                assert(picked@.take(j + 1).last() == picked@[j as int]);
            }
            j = j + 1;
        }
        proof {
            assert(picked@.take(m as int) =~= picked@);
        }
        out
    }

    /// Attach classifier metadata to a stored message.
    pub fn save_ai_metadata(
        &mut self,
        email_id: &str,
        ai_priority: Option<String>,
        ai_labels: Option<String>,
        ai_summary: Option<String>,
    )
        requires
            old(self).wf(),
        ensures
            final(self).wf(),
            final(self).emails@.len() == old(self).emails@.len(),
            forall|i: int|
                0 <= i < old(self).emails@.len() && old(self).emails@[i].id@ != email_id@
                    ==> final(self).emails@[i] == old(self).emails@[i],
            forall|i: int|
                0 <= i < old(self).emails@.len() && old(self).emails@[i].id@ == email_id@ ==> {
                    &&& (#[trigger] final(self).emails@[i]).ai_priority == ai_priority
                    &&& final(self).emails@[i].ai_labels == ai_labels
                    &&& final(self).emails@[i].ai_summary == ai_summary
                    &&& final(self).emails@[i].id == old(self).emails@[i].id
                    &&& final(self).emails@[i].uid == old(self).emails@[i].uid
                    &&& final(self).emails@[i].account_id == old(self).emails@[i].account_id
                    &&& final(self).emails@[i].folder == old(self).emails@[i].folder
                    &&& final(self).emails@[i].subject == old(self).emails@[i].subject
                    &&& final(self).emails@[i].sender == old(self).emails@[i].sender
                    &&& final(self).emails@[i].sender_email == old(self).emails@[i].sender_email
                    &&& final(self).emails@[i].to_email == old(self).emails@[i].to_email
                    &&& final(self).emails@[i].date == old(self).emails@[i].date
                    &&& final(self).emails@[i].snippet == old(self).emails@[i].snippet
                    &&& final(self).emails@[i].body == old(self).emails@[i].body
                    &&& final(self).emails@[i].read == old(self).emails@[i].read
                },
            final(self).same_except_emails(*old(self)),
    {
        let n = self.emails.len();
        let mut i: usize = 0;
        while i < n
            invariant
                i <= n,
                n == self.emails@.len(),
                n == old(self).emails@.len(),
                old(self).wf(),
                self.same_except_emails(*old(self)),
                forall|j: int| i <= j < n ==> self.emails@[j] == old(self).emails@[j],
                forall|j: int|
                    0 <= j < i && old(self).emails@[j].id@ != email_id@ ==> self.emails@[j] == old(
                        self,
                    ).emails@[j],
                forall|j: int|
                    0 <= j < i && old(self).emails@[j].id@ == email_id@ ==> {
                        &&& (#[trigger] self.emails@[j]).ai_priority == ai_priority
                        &&& self.emails@[j].ai_labels == ai_labels
                        &&& self.emails@[j].ai_summary == ai_summary
                        &&& self.emails@[j].id == old(self).emails@[j].id
                        &&& self.emails@[j].uid == old(self).emails@[j].uid
                        &&& self.emails@[j].account_id == old(self).emails@[j].account_id
                        &&& self.emails@[j].folder == old(self).emails@[j].folder
                        &&& self.emails@[j].subject == old(self).emails@[j].subject
                        &&& self.emails@[j].sender == old(self).emails@[j].sender
                        &&& self.emails@[j].sender_email == old(self).emails@[j].sender_email
                        &&& self.emails@[j].to_email == old(self).emails@[j].to_email
                        &&& self.emails@[j].date == old(self).emails@[j].date
                        &&& self.emails@[j].snippet == old(self).emails@[j].snippet
                        &&& self.emails@[j].body == old(self).emails@[j].body
                        &&& self.emails@[j].read == old(self).emails@[j].read
                    },
            decreases n - i,
        {
            if str_eq(self.emails[i].id.as_str(), email_id) {
                let mut e = self.emails[i].clone();
                e.ai_priority = clone_opt_string(&ai_priority);
                e.ai_labels = clone_opt_string(&ai_labels);
                e.ai_summary = clone_opt_string(&ai_summary);
                self.emails.set(i, e);
            }
            i = i + 1;
        }
    }

    /// Remove every message of the account's folder. The triage log is left
    /// as it is: a bulk clear drops only the mail rows.
    pub fn delete_folder_emails(&mut self, account_id: &str, folder: &str) -> (removed: usize)
        requires
            old(self).wf(),
        ensures
            final(self).wf(),
            removed == spec_folder_emails(old(self).emails@, account_id@, folder@).len(),
            final(self).emails@ == old(self).emails@.filter(
                |m: Email| !(m.account_id@ == account_id@ && m.folder@ == folder@),
            ),
            final(self).triage_log@ == old(self).triage_log@,
            final(self).vips@ == old(self).vips@,
            final(self).skills@ == old(self).skills@,
            final(self).summaries@ == old(self).summaries@,
            final(self).config@ == old(self).config@,
            final(self).next_skill_id == old(self).next_skill_id,
    {
        let ghost pred = |m: Email| !(m.account_id@ == account_id@ && m.folder@ == folder@);
        let n = self.emails.len();
        let mut kept: Vec<Email> = Vec::new();
        let mut removed: usize = 0;
        let mut i: usize = 0;
        proof {
            reveal(Seq::filter);
        }
        while i < n
            invariant
                i <= n,
                n == self.emails@.len(),
                *self == *old(self),
                removed <= i,
                pred == (|m: Email| !(m.account_id@ == account_id@ && m.folder@ == folder@)),
                kept@ == self.emails@.take(i as int).filter(pred),
                removed == spec_folder_emails(
                    self.emails@.take(i as int),
                    account_id@,
                    folder@,
                ).len(),
            decreases n - i,
        {
            proof {
                reveal(Seq::filter);
                assert(self.emails@.take(i + 1).drop_last() =~= self.emails@.take(i as int));
                assert(self.emails@.take(i + 1).last() == self.emails@[i as int]);
            }
            if str_eq(self.emails[i].account_id.as_str(), account_id) && str_eq(
                self.emails[i].folder.as_str(),
                folder,
            ) {
                removed = removed + 1;
            } else {
                kept.push(self.emails[i].clone());
            }
            i = i + 1;
        }
        proof {
            assert(self.emails@.take(n as int) =~= self.emails@);
        }
        self.emails = kept;
        proof {
            lemma_filter_keeps_distinct_keys(old(self).emails@, pred, |m: Email| m.id@);
        }
        removed
    }

    /// Drop every transient record, so failed attempts are retried whole.
    pub fn purge_transient(&mut self)
        requires
            old(self).wf(),
        ensures
            final(self).wf(),
            final(self).triage_log@ == old(self).triage_log@.filter(
                |t: TriageRecord| !spec_is_transient(t),
            ),
            final(self).emails@ == old(self).emails@,
            final(self).vips@ == old(self).vips@,
            final(self).skills@ == old(self).skills@,
            final(self).summaries@ == old(self).summaries@,
            final(self).config@ == old(self).config@,
            final(self).next_skill_id == old(self).next_skill_id,
    {
        let ghost tpred = |t: TriageRecord| !spec_is_transient(t);
        let ln = self.triage_log.len();
        let mut kept_log: Vec<TriageRecord> = Vec::new();
        let mut j: usize = 0;
        proof {
            reveal(Seq::filter);
        }
        while j < ln
            invariant
                j <= ln,
                ln == self.triage_log@.len(),
                *self == *old(self),
                tpred == (|t: TriageRecord| !spec_is_transient(t)),
                kept_log@ == self.triage_log@.take(j as int).filter(tpred),
            decreases ln - j,
        {
            proof {
                reveal(Seq::filter);
                assert(self.triage_log@.take(j + 1).drop_last() =~= self.triage_log@.take(
                    j as int,
                ));
                assert(self.triage_log@.take(j + 1).last() == self.triage_log@[j as int]);
            }
            let rec = &self.triage_log[j];
            let unavailable = unavailable_reason();
            let unparseable = unparseable_reason();
            let transient = str_eq(rec.reason.as_str(), unavailable.as_str()) || str_eq(
                rec.reason.as_str(),
                unparseable.as_str(),
            );
            if !transient {
                kept_log.push(self.triage_log[j].clone());
            }
            j = j + 1;
        }
        proof {
            assert(self.triage_log@.take(ln as int) =~= self.triage_log@);
        }
        self.triage_log = kept_log;
        proof {
            lemma_filter_subset(old(self).triage_log@, tpred);
        }
    }

    /// How many records carry a user action.
    pub fn action_record_count(&self) -> (r: usize)
        ensures
            r == self.triage_log@.filter(|t: TriageRecord| t.user_action is Some).len(),
    {
        let ghost pred = |t: TriageRecord| t.user_action is Some;
        let n = self.triage_log.len();
        let mut count: usize = 0;
        let mut i: usize = 0;
        proof {
            reveal(Seq::filter);
        }
        while i < n
            invariant
                i <= n,
                n == self.triage_log@.len(),
                count <= i,
                pred == (|t: TriageRecord| t.user_action is Some),
                count == self.triage_log@.take(i as int).filter(pred).len(),
            decreases n - i,
        {
            proof {
                reveal(Seq::filter);
                assert(self.triage_log@.take(i + 1).drop_last() =~= self.triage_log@.take(
                    i as int,
                ));
                assert(self.triage_log@.take(i + 1).last() == self.triage_log@[i as int]);
            }
            if self.triage_log[i].user_action.is_some() {
                count = count + 1;
            }
            i = i + 1;
        }
        proof {
            assert(self.triage_log@.take(n as int) =~= self.triage_log@);
        }
        count
    }

    /// Enable or disable a skill by id.
    pub fn toggle_skill(&mut self, skill_id: u64, active: bool, now: i64)
        requires
            old(self).wf(),
        ensures
            final(self).wf(),
            final(self).skills@.len() == old(self).skills@.len(),
            forall|i: int|
                0 <= i < old(self).skills@.len() && old(self).skills@[i].id != skill_id
                    ==> final(self).skills@[i] == old(self).skills@[i],
            forall|i: int|
                0 <= i < old(self).skills@.len() && old(self).skills@[i].id == skill_id ==> {
                    &&& (#[trigger] final(self).skills@[i]).active == active
                    &&& final(self).skills@[i].updated_at == now
                    &&& final(self).skills@[i].id == old(self).skills@[i].id
                    &&& final(self).skills@[i].skill_type == old(self).skills@[i].skill_type
                    &&& final(self).skills@[i].description == old(self).skills@[i].description
                    &&& final(self).skills@[i].rule == old(self).skills@[i].rule
                    &&& final(self).skills@[i].confidence == old(self).skills@[i].confidence
                    &&& final(self).skills@[i].times_applied == old(self).skills@[i].times_applied
                    &&& final(self).skills@[i].times_correct == old(self).skills@[i].times_correct
                    &&& final(self).skills@[i].created_at == old(self).skills@[i].created_at
                },
            final(self).emails@ == old(self).emails@,
            final(self).triage_log@ == old(self).triage_log@,
            final(self).vips@ == old(self).vips@,
            final(self).summaries@ == old(self).summaries@,
            final(self).config@ == old(self).config@,
            final(self).next_skill_id == old(self).next_skill_id,
    {
        let n = self.skills.len();
        let mut i: usize = 0;
        while i < n
            invariant
                i <= n,
                n == self.skills@.len(),
                n == old(self).skills@.len(),
                old(self).wf(),
                self.emails@ == old(self).emails@,
                self.triage_log@ == old(self).triage_log@,
                self.vips@ == old(self).vips@,
                self.summaries@ == old(self).summaries@,
                self.config@ == old(self).config@,
                self.next_skill_id == old(self).next_skill_id,
                forall|j: int| i <= j < n ==> self.skills@[j] == old(self).skills@[j],
                forall|j: int|
                    0 <= j < i && old(self).skills@[j].id != skill_id
                        ==> self.skills@[j] == old(self).skills@[j],
                forall|j: int|
                    0 <= j < i && old(self).skills@[j].id == skill_id ==> {
                        &&& (#[trigger] self.skills@[j]).active == active
                        &&& self.skills@[j].updated_at == now
                        &&& self.skills@[j].id == old(self).skills@[j].id
                        &&& self.skills@[j].skill_type == old(self).skills@[j].skill_type
                        &&& self.skills@[j].description == old(self).skills@[j].description
                        &&& self.skills@[j].rule == old(self).skills@[j].rule
                        &&& self.skills@[j].confidence == old(self).skills@[j].confidence
                        &&& self.skills@[j].times_applied == old(self).skills@[j].times_applied
                        &&& self.skills@[j].times_correct == old(self).skills@[j].times_correct
                        &&& self.skills@[j].created_at == old(self).skills@[j].created_at
                    },
            decreases n - i,
        {
            if self.skills[i].id == skill_id {
                let mut e = self.skills[i].clone();
                e.active = active;
                e.updated_at = now;
                self.skills.set(i, e);
            }
            i = i + 1;
        }
    }

    /// Remove a skill entirely.
    pub fn delete_skill(&mut self, skill_id: u64)
        requires
            old(self).wf(),
        ensures
            final(self).wf(),
            final(self).skills@ == old(self).skills@.filter(|k: Skill| k.id != skill_id),
            final(self).emails@ == old(self).emails@,
            final(self).triage_log@ == old(self).triage_log@,
            final(self).vips@ == old(self).vips@,
            final(self).summaries@ == old(self).summaries@,
            final(self).config@ == old(self).config@,
            final(self).next_skill_id == old(self).next_skill_id,
    {
        let ghost pred = |k: Skill| k.id != skill_id;
        let n = self.skills.len();
        let mut kept: Vec<Skill> = Vec::new();
        let mut i: usize = 0;
        proof {
            reveal(Seq::filter);
        }
        while i < n
            invariant
                i <= n,
                n == self.skills@.len(),
                *self == *old(self),
                pred == (|k: Skill| k.id != skill_id),
                kept@ == self.skills@.take(i as int).filter(pred),
            decreases n - i,
        {
            proof {
                reveal(Seq::filter);
                assert(self.skills@.take(i + 1).drop_last() =~= self.skills@.take(i as int));
                assert(self.skills@.take(i + 1).last() == self.skills@[i as int]);
            }
            if self.skills[i].id != skill_id {
                kept.push(self.skills[i].clone());
            }
            i = i + 1;
        }
        proof {
            assert(self.skills@.take(n as int) =~= self.skills@);
        }
        self.skills = kept;
        proof {
            lemma_filter_keeps_distinct_keys(old(self).skills@, pred, |k: Skill| k.id);
            lemma_filter_subset(old(self).skills@, pred);
        }
    }

    /// Whether some active skill carries exactly this rule payload.
    pub fn has_active_rule(&self, rule: &str) -> (r: bool)
        ensures
            r == spec_has_active_rule(self.skills@, rule@),
    {
        let n = self.skills.len();
        let mut i: usize = 0;
        while i < n
            invariant
                i <= n,
                n == self.skills@.len(),
                forall|j: int|
                    0 <= j < i ==> !((#[trigger] self.skills@[j]).active && self.skills@[j].rule@
                        == rule@),
            decreases n - i,
        {
            if self.skills[i].active && str_eq(self.skills[i].rule.as_str(), rule) {
                return true;
            }
            i = i + 1;
        }
        false
    }

    /// Persist a freshly discovered skill: counters at zero, active, with its
    /// confidence clamped into the allowed band.
    pub fn insert_skill(
        &mut self,
        skill_type: SkillType,
        description: String,
        rule: String,
        confidence: i64,
        now: i64,
    )
        requires
            old(self).wf(),
            old(self).next_skill_id < u64::MAX,
        ensures
            final(self).wf(),
            final(self).skills@.len() == old(self).skills@.len() + 1,
            final(self).skills@.drop_last() == old(self).skills@,
            final(self).skills@.last() == (Skill {
                id: old(self).next_skill_id,
                skill_type,
                description,
                rule,
                confidence: spec_clamp_confidence(confidence as int),
                times_applied: 0,
                times_correct: 0,
                active: true,
                created_at: now,
                updated_at: now,
            }),
            final(self).next_skill_id == old(self).next_skill_id + 1,
            final(self).emails@ == old(self).emails@,
            final(self).triage_log@ == old(self).triage_log@,
            final(self).vips@ == old(self).vips@,
            final(self).summaries@ == old(self).summaries@,
            final(self).config@ == old(self).config@,
    {
        let c: u8 = if confidence < 0 {
            0
        } else if confidence > CONFIDENCE_MAX as i64 {
            CONFIDENCE_MAX
        } else {
            confidence as u8
        };
        let skill = Skill {
            id: self.next_skill_id,
            skill_type,
            description,
            rule,
            confidence: c,
            times_applied: 0,
            times_correct: 0,
            active: true,
            created_at: now,
            updated_at: now,
        };
        self.skills.push(skill);
        self.next_skill_id = self.next_skill_id + 1;
    }

    /// Read the completion-service settings, freshly on each use.
    pub fn get_ai_config(&self) -> (r: TriageConfig)
        ensures
            (match spec_config_value(self.config@, "endpoint"@) {
                Some(v) => r.endpoint matches Some(s) && s@ == v,
                None => r.endpoint is None,
            }),
            (match spec_config_value(self.config@, "api_key"@) {
                Some(v) => r.api_key matches Some(s) && s@ == v,
                None => r.api_key is None,
            }),
            (match spec_config_value(self.config@, "model"@) {
                Some(v) => r.model matches Some(s) && s@ == v,
                None => r.model is None,
            }),
    {
        TriageConfig {
            endpoint: self.get_config("endpoint"),
            api_key: self.get_config("api_key"),
            model: self.get_config("model"),
        }
    }
}

} // verus!
