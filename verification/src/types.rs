//! Data model of the triage core: importance tiers, user actions, triage
//! records, VIP senders, skills, and the event payloads observers receive.

use vstd::prelude::*;
use vstd::string::StringExecFns;

verus! {

/// Most messages a single run may classify.
pub const MAX_PER_RUN: u64 = 10;

/// Minimum wall-clock seconds between two completion-service calls.
pub const MIN_CALL_INTERVAL_SECS: i64 = 5;

/// Upper clamp for a skill's confidence, in hundredths.
pub const CONFIDENCE_MAX: u8 = 95;

/// A skill whose confidence falls below this bound is deactivated.
pub const CONFIDENCE_DEACTIVATE: u8 = 20;

/// Only skills strictly above this confidence are injected into prompts.
pub const CONFIDENCE_CONTEXT_MIN: u8 = 40;

/// Uniform confidence delta applied by an evaluation cycle, in hundredths.
pub const CONFIDENCE_DELTA: u8 = 5;

/// Confidence given to a skill candidate that names none, in hundredths.
pub const CONFIDENCE_DEFAULT: u8 = 50;

/// Reason marker of a transient record left by a run that could not reach
/// the completion service.
pub open spec fn spec_unavailable_reason() -> Seq<char> {
    "AI no disponible"@
}

/// Reason marker of a transient record left by a run whose completion
/// response could not be parsed.
pub open spec fn spec_unparseable_reason() -> Seq<char> {
    "No se pudo clasificar"@
}

pub fn unavailable_reason() -> (r: String)
    ensures
        r@ == spec_unavailable_reason(),
{
    String::from_str("AI no disponible")
}

pub fn unparseable_reason() -> (r: String)
    ensures
        r@ == spec_unparseable_reason(),
{
    String::from_str("No se pudo clasificar")
}

/// Importance tier of a classified message.
#[derive(Clone, Copy, Debug, PartialEq, Eq, Structural)]
pub enum Importance {
    High,
    Medium,
    Low,
}

impl Importance {
    pub open spec fn spec_label(self) -> Seq<char> {
        match self {
            Importance::High => "high"@,
            Importance::Medium => "medium"@,
            Importance::Low => "low"@,
        }
    }

    pub fn label(&self) -> (r: String)
        ensures
            r@ == self.spec_label(),
    {
        match self {
            Importance::High => String::from_str("high"),
            Importance::Medium => String::from_str("medium"),
            Importance::Low => String::from_str("low"),
        }
    }
}

/// What the user did with a message.
#[derive(Clone, Copy, Debug, PartialEq, Eq, Structural)]
pub enum UserAction {
    Opened,
    Replied,
    Deleted,
    Ignored,
    Starred,
}

impl UserAction {
    pub open spec fn spec_label(self) -> Seq<char> {
        match self {
            UserAction::Opened => "opened"@,
            UserAction::Replied => "replied"@,
            UserAction::Deleted => "deleted"@,
            UserAction::Ignored => "ignored"@,
            UserAction::Starred => "starred"@,
        }
    }

    pub fn label(&self) -> (r: String)
        ensures
            r@ == self.spec_label(),
    {
        match self {
            UserAction::Opened => String::from_str("opened"),
            UserAction::Replied => String::from_str("replied"),
            UserAction::Deleted => String::from_str("deleted"),
            UserAction::Ignored => String::from_str("ignored"),
            UserAction::Starred => String::from_str("starred"),
        }
    }

    /// An action that promotes its sender to VIP status.
    pub open spec fn spec_promotes(self) -> bool {
        self == UserAction::Replied || self == UserAction::Starred
    }

    pub fn promotes(&self) -> (r: bool)
        ensures
            r == self.spec_promotes(),
    {
        match self {
            UserAction::Replied => true,
            UserAction::Starred => true,
            _ => false,
        }
    }
}

/// Why a sender is VIP.
#[derive(Clone, Copy, Debug, PartialEq, Eq, Structural)]
pub enum VipReason {
    Manual,
    AutoLearned,
}

impl VipReason {
    pub open spec fn spec_label(self) -> Seq<char> {
        match self {
            VipReason::Manual => "manual"@,
            VipReason::AutoLearned => "auto-learned"@,
        }
    }

    pub fn label(&self) -> (r: String)
        ensures
            r@ == self.spec_label(),
    {
        match self {
            VipReason::Manual => String::from_str("manual"),
            VipReason::AutoLearned => String::from_str("auto-learned"),
        }
    }
}

/// Kind of a learned rule.
#[derive(Clone, Copy, Debug, PartialEq, Eq, Structural)]
pub enum SkillType {
    SenderRule,
    KeywordRule,
    TimeRule,
    StylePref,
}

impl SkillType {
    pub open spec fn spec_label(self) -> Seq<char> {
        match self {
            SkillType::SenderRule => "sender_rule"@,
            SkillType::KeywordRule => "keyword_rule"@,
            SkillType::TimeRule => "time_rule"@,
            SkillType::StylePref => "style_pref"@,
        }
    }

    pub fn label(&self) -> (r: String)
        ensures
            r@ == self.spec_label(),
    {
        match self {
            SkillType::SenderRule => String::from_str("sender_rule"),
            SkillType::KeywordRule => String::from_str("keyword_rule"),
            SkillType::TimeRule => String::from_str("time_rule"),
            SkillType::StylePref => String::from_str("style_pref"),
        }
    }
}

/// One verdict or behavior-log entry per (email, event). A record with an
/// importance and no user action is a classification; one with a user action
/// and no importance is a behavior-log entry.
#[derive(Debug)]
pub struct TriageRecord {
    pub email_id: String,
    pub importance: Option<Importance>,
    pub reason: String,
    pub user_action: Option<UserAction>,
    pub sender_email: String,
    pub created_at: i64,
}

impl TriageRecord {
    /// Exactly one of the two roles.
    pub open spec fn wf(self) -> bool {
        self.importance is Some <==> self.user_action is None
    }
}

impl Clone for TriageRecord {
    fn clone(&self) -> (r: Self)
        ensures
            r == *self,
    {
        TriageRecord {
            email_id: self.email_id.clone(),
            importance: self.importance,
            reason: self.reason.clone(),
            user_action: self.user_action,
            sender_email: self.sender_email.clone(),
            created_at: self.created_at,
        }
    }
}

/// A sender whose mail is always classified high.
#[derive(Clone, Debug)]
pub struct VipSender {
    pub sender_email: String,
    pub reason: VipReason,
    pub created_at: i64,
}

/// A persisted, confidence-weighted rule discovered from user behavior.
/// Confidence is held in hundredths: 95 stands for 0.95.
#[derive(Debug)]
pub struct Skill {
    pub id: u64,
    pub skill_type: SkillType,
    pub description: String,
    pub rule: String,
    pub confidence: u8,
    pub times_applied: u64,
    pub times_correct: u64,
    pub active: bool,
    pub created_at: i64,
    pub updated_at: i64,
}

impl Skill {
    pub open spec fn wf(self) -> bool {
        self.confidence <= CONFIDENCE_MAX
    }
}

/// A deep copy of an optional string, spec-equal to the original.
pub fn clone_opt_string(o: &Option<String>) -> (r: Option<String>)
    ensures
        r == *o,
{
    match o {
        Some(s) => Some(s.clone()),
        None => None,
    }
}

impl Clone for Skill {
    fn clone(&self) -> (r: Self)
        ensures
            r == *self,
    {
        Skill {
            id: self.id,
            skill_type: self.skill_type,
            description: self.description.clone(),
            rule: self.rule.clone(),
            confidence: self.confidence,
            times_applied: self.times_applied,
            times_correct: self.times_correct,
            active: self.active,
            created_at: self.created_at,
            updated_at: self.updated_at,
        }
    }
}

/// Rolling compacted digest of conversational context, one per account,
/// upserted on each compaction event.
#[derive(Clone, Debug)]
pub struct ConversationSummary {
    pub account_id: String,
    pub summary: String,
    pub message_count: i64,
    pub updated_at: i64,
}

/// One key/value setting read by every completion-service caller.
#[derive(Clone, Debug)]
pub struct ConfigEntry {
    pub key: String,
    pub value: String,
}

/// Completion-service settings as read from the config table.
#[derive(Clone, Debug)]
pub struct TriageConfig {
    pub endpoint: Option<String>,
    pub api_key: Option<String>,
    pub model: Option<String>,
}

/// A message as the mail-sync collaborator persisted it.
#[derive(Debug)]
pub struct Email {
    pub id: String,
    pub uid: i64,
    pub account_id: String,
    pub folder: String,
    pub subject: Option<String>,
    pub sender: Option<String>,
    pub sender_email: Option<String>,
    pub to_email: Option<String>,
    pub date: Option<String>,
    pub snippet: Option<String>,
    pub body: Option<String>,
    pub read: Option<bool>,
    pub ai_priority: Option<String>,
    pub ai_labels: Option<String>,
    pub ai_summary: Option<String>,
}

impl Clone for Email {
    fn clone(&self) -> (r: Self)
        ensures
            r == *self,
    {
        Email {
            id: self.id.clone(),
            uid: self.uid,
            account_id: self.account_id.clone(),
            folder: self.folder.clone(),
            subject: clone_opt_string(&self.subject),
            sender: clone_opt_string(&self.sender),
            sender_email: clone_opt_string(&self.sender_email),
            to_email: clone_opt_string(&self.to_email),
            date: clone_opt_string(&self.date),
            snippet: clone_opt_string(&self.snippet),
            body: clone_opt_string(&self.body),
            read: self.read,
            ai_priority: clone_opt_string(&self.ai_priority),
            ai_labels: clone_opt_string(&self.ai_labels),
            ai_summary: clone_opt_string(&self.ai_summary),
        }
    }
}

/// A mail account of the sync collaborator (credentials held opaquely).
#[derive(Clone, Debug)]
pub struct Account {
    pub id: String,
    pub full_name: Option<String>,
    pub email: String,
    pub password: Option<String>,
    pub imap_host: Option<String>,
    pub imap_port: Option<i32>,
    pub smtp_host: Option<String>,
    pub smtp_port: Option<i32>,
}

/// One remembered free-form prompt.
#[derive(Clone, Debug)]
pub struct PromptHistory {
    pub id: String,
    pub prompt_text: String,
    pub created_at: String,
}

/// A single request/response call to the completion service.
#[derive(Clone, Debug)]
pub struct AiRequest {
    pub prompt: String,
    pub model: Option<String>,
    pub system_prompt: Option<String>,
    pub endpoint: Option<String>,
    pub api_key: Option<String>,
    pub context: Option<String>,
}

/// What the completion transport hands back.
#[derive(Clone, Debug)]
pub struct AiResponse {
    pub text: String,
    pub error: Option<String>,
}

/// The classifier's verdict for one message, as observers see it.
#[derive(Clone, Debug)]
pub struct TriageResult {
    pub email_id: String,
    pub importance: String,
    pub reason: String,
    pub should_notify: bool,
}

/// Payload of the importance-alert event.
#[derive(Clone, Debug)]
pub struct ImportantMailPayload {
    pub account_id: String,
    pub email_id: String,
    pub sender: String,
    pub subject: String,
    pub importance: String,
}

/// Payload of the arrival event the mail-sync collaborator emits.
#[derive(Clone, Debug)]
pub struct NewMailPayload {
    pub account_id: String,
    pub folder: String,
}

/// Phase of a triage run, as reported to observers.
#[derive(Clone, Copy, Debug, PartialEq, Eq, Structural)]
pub enum ProgressStatus {
    Started,
    Classifying,
    Done,
}

impl ProgressStatus {
    pub open spec fn spec_label(self) -> Seq<char> {
        match self {
            ProgressStatus::Started => "started"@,
            ProgressStatus::Classifying => "classifying"@,
            ProgressStatus::Done => "done"@,
        }
    }

    pub fn label(&self) -> (r: String)
        ensures
            r@ == self.spec_label(),
    {
        match self {
            ProgressStatus::Started => String::from_str("started"),
            ProgressStatus::Classifying => String::from_str("classifying"),
            ProgressStatus::Done => String::from_str("done"),
        }
    }
}

/// Payload of a triage-progress event.
#[derive(Clone, Debug)]
pub struct TriageProgress {
    pub total: i64,
    pub processed: u64,
    pub current_subject: Option<String>,
    pub status: ProgressStatus,
}

/// Payload of an email-classified event.
#[derive(Clone, Debug)]
pub struct ClassifiedPayload {
    pub email_id: String,
    pub importance: String,
    pub reason: String,
}

/// Payload of a proactive-draft event.
#[derive(Clone, Debug)]
pub struct DraftPayload {
    pub email_id: String,
    pub to: String,
    pub subject: String,
    pub body: String,
    pub sender: String,
}

/// Everything the core emits to observers.
#[derive(Clone, Debug)]
pub enum EngineEvent {
    Progress(TriageProgress),
    Classified(ClassifiedPayload),
    ImportantMail(ImportantMailPayload),
    DraftReady(DraftPayload),
}

} // verus!
