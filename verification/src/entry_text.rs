//! What each transcript entry shows: user messages and answers as Markdown,
//! reasoning as muted Markdown under its speaker's prefix, sub-agents, banners,
//! approvals, debug messages and local command output as labelled rows, and nothing for tool
//! calls and the end of a turn (their rows are drawn elsewhere). Laying out the Markdown and choosing colours is left to
//! the caller.

use vstd::prelude::*;
use crate::picker::ApprovalStatus;
use crate::layout::{spec_truncate_user_content, truncate_user_content};
use crate::transcript::{entry_view, EntryView, StreamKind, TranscriptEntry};
use crate::transcript_text::{
    approval_rows, banner_rows, diagnostic_rows, spec_approval_rows, local_output_rows, row_views, spec_banner_rows, spec_labeled_rows,
    spec_local_output_rows, spec_speaker_prefix, spec_subagent_rows, speaker_prefix, subagent_rows,
    BannerSeverity,
};

verus! {

/// The colour family of a labelled entry.
#[derive(Debug, Clone, Copy, PartialEq, Eq, Structural)]
pub enum LabelTone {
    Agent,
    /// Debug messages.
    Debug,
    /// Local command output, under its dim gutter.
    Output,
    /// Tool requests asking for approval.
    Approval,
    Warning,
    Retry,
    Error,
}

/// What an entry shows.
pub enum EntryText {
    /// A user message as Markdown, cut down when it is huge.
    UserMarkdown(String),
    /// An answer as Markdown.
    AnswerMarkdown(String),
    /// Reasoning as muted Markdown under the speaker's prefix.
    ReasoningMarkdown { prefix: String, content: String },
    /// The rows of a labelled entry, in the tone of its label.
    Labeled(LabelTone, Vec<(String, String)>),
    /// Nothing.
    Nothing,
}

#[allow(inconsistent_fields)]
pub enum EntryTextView {
    UserMarkdown(Seq<char>),
    AnswerMarkdown(Seq<char>),
    ReasoningMarkdown(Seq<char>, Seq<char>),
    Labeled(LabelTone, Seq<(Seq<char>, Seq<char>)>),
    Nothing,
}

impl View for EntryText {
    type V = EntryTextView;

    open spec fn view(&self) -> EntryTextView {
        match self {
            EntryText::UserMarkdown(c) => EntryTextView::UserMarkdown(c@),
            EntryText::AnswerMarkdown(c) => EntryTextView::AnswerMarkdown(c@),
            EntryText::ReasoningMarkdown { prefix, content } => EntryTextView::ReasoningMarkdown(
                prefix@,
                content@,
            ),
            EntryText::Labeled(tone, rows) => EntryTextView::Labeled(*tone, row_views(rows@)),
            EntryText::Nothing => EntryTextView::Nothing,
        }
    }
}

/// The tone of a banner's label.
pub open spec fn banner_tone(severity: BannerSeverity) -> LabelTone {
    match severity {
        BannerSeverity::Warning => LabelTone::Warning,
        BannerSeverity::RecoverableError => LabelTone::Retry,
        BannerSeverity::BlockingError => LabelTone::Error,
    }
}

/// What an entry shows (see the module documentation); debug messages show only
/// with tool internals, local command output under its gutter, and an approval with
/// the status of its slot among `statuses`.
pub open spec fn spec_entry_text(e: EntryView, show_internals: bool, statuses: Seq<ApprovalStatus>) -> EntryTextView {
    match e {
        EntryView::User(content) => EntryTextView::UserMarkdown(spec_truncate_user_content(content)),
        EntryView::Streamed(kind, _id, content, agent) => match kind {
            StreamKind::Assistant => EntryTextView::AnswerMarkdown(content),
            StreamKind::Reasoning => EntryTextView::ReasoningMarkdown(
                spec_speaker_prefix("  "@, agent),
                content,
            ),
        },
        EntryView::Subagent { display_name, status, error, agent, .. } => EntryTextView::Labeled(
            LabelTone::Agent,
            spec_subagent_rows(display_name, status, error, agent),
        ),
        EntryView::Banner { severity, message, url } => EntryTextView::Labeled(
            banner_tone(severity),
            spec_banner_rows(severity, message, url),
        ),
        EntryView::Diagnostic(message) => if show_internals {
            EntryTextView::Labeled(LabelTone::Debug, spec_labeled_rows("debug"@, message))
        } else {
            EntryTextView::Nothing
        },
        EntryView::LocalOutput(lines) => EntryTextView::Labeled(LabelTone::Output, spec_local_output_rows(lines)),
        EntryView::Approval { category, tool_name, details, slot } => if slot < statuses.len() {
            EntryTextView::Labeled(
                LabelTone::Approval,
                spec_approval_rows(category, tool_name, details, statuses[slot as int]),
            )
        } else {
            EntryTextView::Nothing
        },
        _ => EntryTextView::Nothing,
    }
}

fn optional_str(s: &Option<String>) -> (r: Option<&str>)
    ensures
        match r {
            Some(t) => s.deep_view() == Some(t@),
            None => s.deep_view() == None::<Seq<char>>,
        },
{
    match s {
        Some(t) => Some(t.as_str()),
        None => None,
    }
}

/// What a transcript entry shows (see `spec_entry_text`).
pub fn entry_text(entry: &TranscriptEntry, show_internals: bool, statuses: &Vec<ApprovalStatus>) -> (r: EntryText)
    ensures
        r@ == spec_entry_text(entry_view(*entry), show_internals, statuses@),
{
    match entry {
        TranscriptEntry::User(content) => EntryText::UserMarkdown(truncate_user_content(content.as_str())),
        TranscriptEntry::Streamed { kind, content, agent_id, .. } => match kind {
            StreamKind::Assistant => EntryText::AnswerMarkdown(content.clone()),
            StreamKind::Reasoning => {
                let agent = optional_str(agent_id);
                let prefix = speaker_prefix("  ", agent);
                EntryText::ReasoningMarkdown { prefix, content: content.clone() }
            },
        },
        TranscriptEntry::Subagent { display_name, status, error, agent_id, .. } => {
            let rows = subagent_rows(
                display_name.as_str(),
                *status,
                optional_str(error),
                optional_str(agent_id),
            );
            EntryText::Labeled(LabelTone::Agent, rows)
        },
        TranscriptEntry::Banner { severity, message, url } => {
            let tone = match severity {
                BannerSeverity::Warning => LabelTone::Warning,
                BannerSeverity::RecoverableError => LabelTone::Retry,
                BannerSeverity::BlockingError => LabelTone::Error,
            };
            EntryText::Labeled(tone, banner_rows(*severity, message.as_str(), optional_str(url)))
        },
        TranscriptEntry::Diagnostic(message) => {
            if show_internals {
                EntryText::Labeled(LabelTone::Debug, diagnostic_rows(message.as_str(), true))
            } else {
                EntryText::Nothing
            }
        },
        TranscriptEntry::LocalOutput(lines) => EntryText::Labeled(LabelTone::Output, local_output_rows(lines)),
        TranscriptEntry::Approval { category, tool_name, details, slot } => {
            if *slot < statuses.len() {
                let rows = approval_rows(category.as_str(), tool_name.as_str(), details.as_str(), statuses[*slot]);
                EntryText::Labeled(LabelTone::Approval, rows)
            } else {
                EntryText::Nothing
            }
        },
        _ => EntryText::Nothing,
    }
}

} // verus!
