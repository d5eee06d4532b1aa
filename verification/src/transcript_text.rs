//! The text of labelled transcript entries (banners, approvals, sub-agents, debug
//! messages) and of the `/status` block. Each entry is split into lines as
//! `str::lines` does; the first line follows its label padded to eighteen columns,
//! the rest follow a blank gutter. Styling is left to the caller.

use vstd::prelude::*;
use crate::chat::UsageSnapshot;
use crate::format::{format_count, spec_format_count};
use crate::picker::ApprovalStatus;
use crate::text::{
    chars_of, decimal, pad_right, push_char, push_decimal, push_padded, push_str, string_from_chars,
    string_views,
};
use crate::tui::SubagentStatus;

verus! {

/// How serious a banner is.
#[derive(Debug, Clone, Copy, PartialEq, Eq, Structural)]
pub enum BannerSeverity {
    Warning,
    RecoverableError,
    BlockingError,
}

/// A line without the carriage return of a `\r\n` ending.
pub open spec fn strip_cr(line: Seq<char>) -> Seq<char> {
    if line.len() > 0 && line.last() == '\r' {
        line.drop_last()
    } else {
        line
    }
}

/// The lines of `s` after the lines `done` and the started line `current`: each
/// `\n` (or `\r\n`) ends a line, and a final line ending adds no empty line.
pub open spec fn lines_from(s: Seq<char>, done: Seq<Seq<char>>, current: Seq<char>) -> Seq<Seq<char>>
    decreases s.len(),
{
    if s.len() == 0 {
        if current.len() > 0 {
            done.push(current)
        } else {
            done
        }
    } else if s[0] == '\n' {
        lines_from(s.drop_first(), done.push(strip_cr(current)), Seq::empty())
    } else {
        lines_from(s.drop_first(), done, current.push(s[0]))
    }
}

/// The lines of `s`, as `str::lines` gives them.
pub open spec fn text_lines(s: Seq<char>) -> Seq<Seq<char>> {
    lines_from(s, Seq::empty(), Seq::empty())
}

fn strip_cr_chars(line: &Vec<char>) -> (r: String)
    ensures
        r@ == strip_cr(line@),
{
    if line.len() > 0 && line[line.len() - 1] == '\r' {
        let kept = crate::text::copy_range(line.as_slice(), 0, line.len() - 1);
        assert(kept@ == line@.drop_last());
        string_from_chars(kept.as_slice())
    } else {
        string_from_chars(line.as_slice())
    }
}

/// Splits `s` into lines as `str::lines` does.
pub fn lines_of(s: &str) -> (r: Vec<String>)
    ensures
        string_views(r@) == text_lines(s@),
{
    let cs = chars_of(s);
    let mut done: Vec<String> = Vec::new();
    let mut current: Vec<char> = Vec::new();
    let mut i: usize = 0;
    assert(cs@.skip(0) == cs@);
    assert(string_views(done@) =~= Seq::<Seq<char>>::empty());
    assert(current@ =~= Seq::<char>::empty());
    while i < cs.len()
        invariant
            i <= cs@.len(),
            cs@ == s@,
            lines_from(cs@.skip(i as int), string_views(done@), current@) == text_lines(s@),
        decreases cs@.len() - i,
    {
        assert(cs@.skip(i as int)[0] == cs@[i as int]);
        assert(cs@.skip(i as int).drop_first() == cs@.skip(i + 1));
        if cs[i] == '\n' {
            let line = strip_cr_chars(&current);
            let ghost before = done@;
            done.push(line);
            assert(string_views(done@) == string_views(before).push(strip_cr(current@)));
            current = Vec::new();
            assert(current@ == Seq::<char>::empty());
        } else {
            current.push(cs[i]);
        }
        i += 1;
    }
    assert(cs@.skip(i as int).len() == 0);
    if current.len() > 0 {
        let ghost before = done@;
        done.push(string_from_chars(current.as_slice()));
        assert(string_views(done@) == string_views(before).push(current@));
    }
    done
}

/// The gutter in front of a label's first line: the label in eighteen columns and a
/// space.
pub open spec fn label_gutter(label: Seq<char>) -> Seq<char> {
    pad_right(label, 18).push(' ')
}

/// The gutter in front of every later line: nineteen spaces.
pub open spec fn blank_gutter() -> Seq<char> {
    Seq::new(19, |i: int| ' ')
}

/// A labelled entry: its first line (empty when there is none) after the label,
/// each further line after the blank gutter.
pub open spec fn spec_labeled_rows(label: Seq<char>, content: Seq<char>) -> Seq<(Seq<char>, Seq<char>)> {
    let lines = text_lines(content);
    let first = if lines.len() > 0 {
        lines[0]
    } else {
        Seq::empty()
    };
    seq![(label_gutter(label), first)] + Seq::new(
        if lines.len() > 1 {
            (lines.len() - 1) as nat
        } else {
            0
        },
        |i: int| (blank_gutter(), lines[i + 1]),
    )
}

pub open spec fn row_views(v: Seq<(String, String)>) -> Seq<(Seq<char>, Seq<char>)> {
    v.map_values(|r: (String, String)| (r.0@, r.1@))
}

fn blank_gutter_string() -> (r: String)
    ensures
        r@ == blank_gutter(),
{
    let mut r = String::new();
    proof {
        reveal_strlit("");
    }
    push_padded(&mut r, "", 19);
    assert(r@ =~= blank_gutter());
    r
}

/// The rows of a labelled entry, each as its gutter and its text.
pub fn labeled_rows(label: &str, content: &str) -> (r: Vec<(String, String)>)
    ensures
        row_views(r@) == spec_labeled_rows(label@, content@),
{
    let lines = lines_of(content);
    let ghost ls = string_views(lines@);
    let mut gutter = String::new();
    push_padded(&mut gutter, label, 18);
    push_char(&mut gutter, ' ');
    let first = if lines.len() > 0 {
        lines[0].clone()
    } else {
        String::new()
    };
    let mut rows: Vec<(String, String)> = Vec::new();
    rows.push((gutter, first));
    let ghost head = seq![(label_gutter(label@), if ls.len() > 0 {
        ls[0]
    } else {
        Seq::<char>::empty()
    })];
    assert(row_views(rows@) =~= head);
    let mut i: usize = 1;
    while i < lines.len()
        invariant
            1 <= i <= lines@.len() || (i == 1 && lines@.len() == 0),
            ls == string_views(lines@),
            row_views(rows@) == head + Seq::new((i - 1) as nat, |k: int| (blank_gutter(), ls[k + 1])),
        decreases lines@.len() - i,
    {
        let ghost before = rows@;
        rows.push((blank_gutter_string(), lines[i].clone()));
        assert(row_views(rows@) == row_views(before).push((blank_gutter(), ls[i as int])));
        assert(head + Seq::new(i as nat, |k: int| (blank_gutter(), ls[k + 1])) =~= (head + Seq::new(
            (i - 1) as nat,
            |k: int| (blank_gutter(), ls[k + 1]),
        )).push((blank_gutter(), ls[i as int])));
        i += 1;
    }
    assert(row_views(rows@) =~= spec_labeled_rows(label@, content@));
    rows
}

/// ` (agent)` after a speaker for another agent's output, nothing for the main one.
pub open spec fn spec_agent_suffix(agent_id: Option<Seq<char>>) -> Seq<char> {
    match agent_id {
        Some(id) => " ("@ + id + ")"@,
        None => Seq::empty(),
    }
}

/// The suffix naming the agent that produced an entry.
pub fn agent_suffix(agent_id: Option<&str>) -> (r: String)
    ensures
        r@ == spec_agent_suffix(
            match agent_id {
                Some(id) => Some(id@),
                None => None,
            },
        ),
{
    match agent_id {
        Some(id) => {
            let mut r = " (".to_owned();
            push_str(&mut r, id);
            push_str(&mut r, ")");
            r
        },
        None => String::new(),
    }
}

pub open spec fn subagent_state(status: SubagentStatus) -> Seq<char> {
    match status {
        SubagentStatus::Running => "running"@,
        SubagentStatus::Completed => "done"@,
        SubagentStatus::Failed => "failed"@,
    }
}

/// A sub-agent entry: `agent <name> [<state>]` and its agent, with the error (if
/// any) as the text.
pub open spec fn spec_subagent_rows(
    display_name: Seq<char>,
    status: SubagentStatus,
    error: Option<Seq<char>>,
    agent_id: Option<Seq<char>>,
) -> Seq<(Seq<char>, Seq<char>)> {
    let content = match error {
        Some(e) => e,
        None => Seq::empty(),
    };
    let rows = spec_labeled_rows(
        "agent "@ + display_name + " ["@ + subagent_state(status) + "]"@ + spec_agent_suffix(agent_id),
        content,
    );
    if content.len() == 0 {
        rows.take(1)
    } else {
        rows
    }
}

/// The rows of a sub-agent entry.
pub fn subagent_rows(
    display_name: &str,
    status: SubagentStatus,
    error: Option<&str>,
    agent_id: Option<&str>,
) -> (r: Vec<(String, String)>)
    ensures
        row_views(r@) == spec_subagent_rows(
            display_name@,
            status,
            match error {
                Some(e) => Some(e@),
                None => None,
            },
            match agent_id {
                Some(a) => Some(a@),
                None => None,
            },
        ),
{
    proof {
        reveal_strlit("");
    }
    let state = match status {
        SubagentStatus::Running => "running",
        SubagentStatus::Completed => "done",
        SubagentStatus::Failed => "failed",
    };
    assert(state@ == subagent_state(status));
    let mut label = "agent ".to_owned();
    push_str(&mut label, display_name);
    push_str(&mut label, " [");
    push_str(&mut label, state);
    push_str(&mut label, "]");
    let suffix = agent_suffix(agent_id);
    push_str(&mut label, suffix.as_str());
    let content = match error {
        Some(e) => e,
        None => "",
    };
    let mut rows = labeled_rows(label.as_str(), content);
    if content.is_empty() {
        let ghost before = rows@;
        rows.truncate(1);
        assert(row_views(rows@) =~= row_views(before).take(1));
    }
    rows
}

pub open spec fn banner_label(severity: BannerSeverity) -> Seq<char> {
    match severity {
        BannerSeverity::Warning => "warn"@,
        BannerSeverity::RecoverableError => "retry"@,
        BannerSeverity::BlockingError => "error"@,
    }
}

/// A banner: `warn`, `retry` or `error`, with the message and the link after it
/// in brackets.
pub open spec fn spec_banner_rows(severity: BannerSeverity, message: Seq<char>, url: Option<Seq<char>>) -> Seq<
    (Seq<char>, Seq<char>),
> {
    spec_labeled_rows(
        banner_label(severity),
        match url {
            Some(u) => message + " ("@ + u + ")"@,
            None => message,
        },
    )
}

/// The rows of a banner entry.
pub fn banner_rows(severity: BannerSeverity, message: &str, url: Option<&str>) -> (r: Vec<(String, String)>)
    ensures
        row_views(r@) == spec_banner_rows(
            severity,
            message@,
            match url {
                Some(u) => Some(u@),
                None => None,
            },
        ),
{
    let label = match severity {
        BannerSeverity::Warning => "warn",
        BannerSeverity::RecoverableError => "retry",
        BannerSeverity::BlockingError => "error",
    };
    let mut content = message.to_owned();
    if let Some(u) = url {
        push_str(&mut content, " (");
        push_str(&mut content, u);
        push_str(&mut content, ")");
    }
    labeled_rows(label, content.as_str())
}

pub open spec fn approval_state(status: ApprovalStatus) -> Seq<char> {
    match status {
        ApprovalStatus::Pending => "pending"@,
        ApprovalStatus::ApprovedOnce => "approved once"@,
        ApprovalStatus::Denied => "denied"@,
        ApprovalStatus::Trusted => "trusted"@,
    }
}

/// An approval: `approve [<state>]`, then `<category> (<tool>): <details>`.
pub open spec fn spec_approval_rows(
    category: Seq<char>,
    tool_name: Seq<char>,
    details: Seq<char>,
    status: ApprovalStatus,
) -> Seq<(Seq<char>, Seq<char>)> {
    spec_labeled_rows(
        "approve ["@ + approval_state(status) + "]"@,
        category + " ("@ + tool_name + "): "@ + details,
    )
}

/// The rows of an approval entry.
pub fn approval_rows(category: &str, tool_name: &str, details: &str, status: ApprovalStatus) -> (r: Vec<
    (String, String),
>)
    ensures
        row_views(r@) == spec_approval_rows(category@, tool_name@, details@, status),
{
    let state = match status {
        ApprovalStatus::Pending => "pending",
        ApprovalStatus::ApprovedOnce => "approved once",
        ApprovalStatus::Denied => "denied",
        ApprovalStatus::Trusted => "trusted",
    };
    let mut label = "approve [".to_owned();
    push_str(&mut label, state);
    push_str(&mut label, "]");
    let mut content = category.to_owned();
    push_str(&mut content, " (");
    push_str(&mut content, tool_name);
    push_str(&mut content, "): ");
    push_str(&mut content, details);
    labeled_rows(label.as_str(), content.as_str())
}

/// A debug message is shown, under `debug`, only with internals on.
pub fn diagnostic_rows(message: &str, show_internals: bool) -> (r: Vec<(String, String)>)
    ensures
        row_views(r@) == if show_internals {
            spec_labeled_rows("debug"@, message@)
        } else {
            Seq::empty()
        },
{
    if show_internals {
        labeled_rows("debug", message)
    } else {
        let r: Vec<(String, String)> = Vec::new();
        assert(row_views(r@) =~= Seq::<(Seq<char>, Seq<char>)>::empty());
        r
    }
}

/// A `/status` line naming a value: `Label:`, a space, the value.
pub open spec fn spec_property_spans(label: Seq<char>, value: Seq<char>) -> Seq<Seq<char>> {
    seq![label.push(':'), " "@, value]
}

/// A `/status` line counting what is on and off, with the command that changes it.
pub open spec fn spec_count_spans(label: Seq<char>, enabled: nat, disabled: nat, command: Seq<char>) -> Seq<
    Seq<char>,
> {
    seq![
        label.push(':'),
        " "@,
        decimal(enabled) + " enabled"@,
        ", "@,
        decimal(disabled) + " disabled"@,
        " \u{b7} "@ + command,
    ]
}

/// The spans of a `/status` property line.
pub fn status_property_spans(label: &str, value: &str) -> (r: Vec<String>)
    ensures
        string_views(r@) == spec_property_spans(label@, value@),
{
    let mut head = label.to_owned();
    push_char(&mut head, ':');
    let r = vec![head, " ".to_owned(), value.to_owned()];
    assert(string_views(r@) =~= spec_property_spans(label@, value@));
    r
}

/// The spans of a `/status` count line.
pub fn status_count_spans(label: &str, enabled: usize, disabled: usize, command: &str) -> (r: Vec<String>)
    ensures
        string_views(r@) == spec_count_spans(label@, enabled as nat, disabled as nat, command@),
{
    let mut head = label.to_owned();
    push_char(&mut head, ':');
    let mut on = String::new();
    push_decimal(&mut on, enabled as u64);
    push_str(&mut on, " enabled");
    let mut off = String::new();
    push_decimal(&mut off, disabled as u64);
    push_str(&mut off, " disabled");
    let mut tail = " \u{b7} ".to_owned();
    push_str(&mut tail, command);
    let r = vec![head, " ".to_owned(), on, ", ".to_owned(), off, tail];
    assert(string_views(r@) =~= spec_count_spans(label@, enabled as nat, disabled as nat, command@));
    r
}

/// What `/status` shows besides the version and working directory it is given.
pub struct StatusFacts {
    pub version: String,
    pub session_id: Option<String>,
    pub working_directory: String,
    pub model: Option<String>,
    pub enabled_tools: usize,
    pub tool_count: usize,
    pub enabled_skills: usize,
    pub skill_count: usize,
}

/// The `/status` block: version, session (`unknown` before one starts), working
/// directory, a blank line, the model (`auto` when unset), then the tool and skill
/// counts with how many are off.
pub open spec fn spec_status_detail(f: StatusFacts) -> Seq<Seq<Seq<char>>> {
    seq![
        spec_property_spans("Version"@, f.version@),
        spec_property_spans("Session ID"@, match f.session_id {
            Some(s) => s@,
            None => "unknown"@,
        }),
        spec_property_spans("cwd"@, f.working_directory@),
        Seq::empty(),
        spec_property_spans("Model"@, match f.model {
            Some(m) => m@,
            None => "auto"@,
        }),
        spec_count_spans(
            "Tools"@,
            f.enabled_tools as nat,
            if f.tool_count >= f.enabled_tools {
                (f.tool_count - f.enabled_tools) as nat
            } else {
                0
            },
            "/tools"@,
        ),
        spec_count_spans(
            "Skills"@,
            f.enabled_skills as nat,
            if f.skill_count >= f.enabled_skills {
                (f.skill_count - f.enabled_skills) as nat
            } else {
                0
            },
            "/skills"@,
        ),
    ]
}

pub open spec fn lines_view(v: Seq<Vec<String>>) -> Seq<Seq<Seq<char>>> {
    v.map_values(|l: Vec<String>| string_views(l@))
}

/// The lines of the `/status` block, each as its spans.
pub fn status_detail_lines(facts: &StatusFacts) -> (r: Vec<Vec<String>>)
    ensures
        lines_view(r@) == spec_status_detail(*facts),
{
    let session = match &facts.session_id {
        Some(s) => s.as_str(),
        None => "unknown",
    };
    let model = match &facts.model {
        Some(m) => m.as_str(),
        None => "auto",
    };
    let blank: Vec<String> = Vec::new();
    assert(string_views(blank@) =~= Seq::<Seq<char>>::empty());
    let r = vec![
        status_property_spans("Version", facts.version.as_str()),
        status_property_spans("Session ID", session),
        status_property_spans("cwd", facts.working_directory.as_str()),
        blank,
        status_property_spans("Model", model),
        status_count_spans(
            "Tools",
            facts.enabled_tools,
            facts.tool_count.saturating_sub(facts.enabled_tools),
            "/tools",
        ),
        status_count_spans(
            "Skills",
            facts.enabled_skills,
            facts.skill_count.saturating_sub(facts.enabled_skills),
            "/skills",
        ),
    ];
    assert(lines_view(r@) =~= spec_status_detail(*facts));
    r
}

/// The prefix of a speaker's first line: its symbol, then the agent speaking when
/// it is not the main one.
pub open spec fn spec_speaker_prefix(symbol: Seq<char>, agent_id: Option<Seq<char>>) -> Seq<char> {
    match agent_id {
        Some(id) => symbol + " "@ + id + " "@,
        None => symbol + " "@,
    }
}

/// The prefix of a speaker's first line (see `spec_speaker_prefix`).
pub fn speaker_prefix(symbol: &str, agent_id: Option<&str>) -> (r: String)
    ensures
        r@ == spec_speaker_prefix(
            symbol@,
            match agent_id {
                Some(id) => Some(id@),
                None => None,
            },
        ),
{
    let mut r = String::new();
    push_str(&mut r, symbol);
    push_str(&mut r, " ");
    if let Some(id) = agent_id {
        push_str(&mut r, id);
        push_str(&mut r, " ");
    }
    r
}

/// The gutter of local command output: a hook on the first line, blank cells after.
pub open spec fn local_output_gutter(index: int) -> Seq<char> {
    if index == 0 {
        "  \u{23bf}  "@
    } else {
        "     "@
    }
}

/// Local command output as (gutter, text) rows; output with no lines shows a
/// placeholder.
pub open spec fn spec_local_output_rows(lines: Seq<Seq<char>>) -> Seq<(Seq<char>, Seq<char>)> {
    if lines.len() == 0 {
        seq![(local_output_gutter(0), "(no content)"@)]
    } else {
        Seq::new(lines.len(), |k: int| (local_output_gutter(k), lines[k]))
    }
}

/// Local command output as (gutter, text) rows (see `spec_local_output_rows`).
pub fn local_output_rows(lines: &Vec<String>) -> (r: Vec<(String, String)>)
    ensures
        row_views(r@) == spec_local_output_rows(string_views(lines@)),
{
    let mut r: Vec<(String, String)> = Vec::new();
    if lines.len() == 0 {
        r.push(("  \u{23bf}  ".to_owned(), "(no content)".to_owned()));
        assert(row_views(r@) =~= spec_local_output_rows(string_views(lines@)));
        return r;
    }
    let mut i: usize = 0;
    while i < lines.len()
        invariant
            i <= lines@.len(),
            lines@.len() > 0,
            row_views(r@) == Seq::new(i as nat, |k: int| (local_output_gutter(k), lines@[k]@)),
        decreases lines.len() - i,
    {
        let gutter = if i == 0 {
            "  \u{23bf}  ".to_owned()
        } else {
            "     ".to_owned()
        };
        assert(gutter@ == local_output_gutter(i as int));
        let text = lines[i].clone();
        assert(text@ == lines@[i as int]@);
        let ghost before = row_views(r@);
        r.push((gutter, text));
        assert(row_views(r@) =~= before.push((local_output_gutter(i as int), lines@[i as int]@)));
        i += 1;
        assert(row_views(r@) =~= Seq::new(i as nat, |k: int| (local_output_gutter(k), lines@[k]@)));
    }
    assert(row_views(r@) =~= spec_local_output_rows(string_views(lines@)));
    r
}


/// What `/usage` reports of the session's spending. The amounts with fractions
/// arrive already written out; the counts are written here.
pub struct UsageFacts {
    /// The session cost, as the cost formatter wrote it.
    pub cost: String,
    /// The premium request cost, written with two decimals.
    pub premium_request_cost: String,
    pub requests: u64,
    pub api_duration_ms: u64,
}

/// One category of the context window, with its share already written out.
pub struct ContextCategoryFacts {
    pub label: String,
    pub tokens: i64,
    /// The category's percentage of the context, written with one decimal.
    pub share: String,
}

/// Where the tokens of the context window come from.
pub struct AttributionFacts {
    pub model_id: String,
    pub total_tokens: i64,
    pub prompt_token_limit: i64,
    pub categories: Vec<ContextCategoryFacts>,
    pub compactions: i64,
}

/// An integer written in decimal, with a minus sign when negative.
pub open spec fn signed_decimal(n: int) -> Seq<char> {
    if n < 0 {
        "-"@ + decimal((-n) as nat)
    } else {
        decimal(n as nat)
    }
}

fn push_signed_decimal(s: &mut String, n: i64)
    ensures
        final(s)@ == old(s)@ + signed_decimal(n as int),
{
    if n < 0 {
        let ghost start = old(s)@;
        push_str(s, "-");
        let magnitude: u64 = (0i128 - (n as i128)) as u64;
        push_decimal(s, magnitude);
        assert(s@ =~= start + signed_decimal(n as int));
    } else {
        push_decimal(s, n as u64);
    }
}

/// A category line: indented label, token count, share in brackets.
pub open spec fn spec_category_line(c: ContextCategoryFacts) -> Seq<char> {
    "  "@ + c.label@ + ": "@ + spec_format_count(c.tokens as int) + " ("@ + c.share@ + "%)"@
}

/// The attribution part of `/usage`: a heading with the totals and the model, a
/// line per category, then the compaction count; or a note that it is missing.
pub open spec fn spec_attribution_lines(a: Option<AttributionFacts>) -> Seq<Seq<char>> {
    match a {
        None => seq!["Context attribution unavailable."@],
        Some(a) => seq![
            "Attribution: "@ + spec_format_count(a.total_tokens as int) + " / "@ + spec_format_count(
                a.prompt_token_limit as int,
            ) + " tokens ("@ + a.model_id@ + ")"@,
        ] + a.categories@.map_values(|c: ContextCategoryFacts| spec_category_line(c)) + seq![
            "Compactions: "@ + signed_decimal(a.compactions as int),
        ],
    }
}

/// The `/usage` block, a line each: without metrics only a note; with them the
/// cost, premium cost, request count and API time, then the context window when
/// known, then the attribution part.
pub open spec fn spec_usage_detail(
    metrics: Option<UsageFacts>,
    usage: Option<UsageSnapshot>,
    attribution: Option<AttributionFacts>,
) -> Seq<Seq<char>> {
    match metrics {
        None => seq!["Usage metrics unavailable."@],
        Some(m) => seq![
            "Session cost: "@ + m.cost@,
            "Premium request cost: "@ + m.premium_request_cost@,
            "Requests: "@ + decimal(m.requests as nat),
            "API time: "@ + decimal(m.api_duration_ms as nat) + " ms"@,
        ] + match usage {
            Some(u) => seq![
                "Context window: "@ + spec_format_count(u.current_tokens as int) + " / "@
                    + spec_format_count(u.token_limit as int) + " tokens"@,
            ],
            None => Seq::empty(),
        } + spec_attribution_lines(attribution),
    }
}

fn category_line(c: &ContextCategoryFacts) -> (r: String)
    ensures
        r@ == spec_category_line(*c),
{
    let mut r = "  ".to_owned();
    push_str(&mut r, c.label.as_str());
    push_str(&mut r, ": ");
    let count = format_count(c.tokens);
    push_str(&mut r, count.as_str());
    push_str(&mut r, " (");
    push_str(&mut r, c.share.as_str());
    push_str(&mut r, "%)");
    r
}

fn attribution_lines(attribution: &Option<AttributionFacts>) -> (r: Vec<String>)
    ensures
        string_views(r@) == spec_attribution_lines(*attribution),
{
    match attribution {
        None => {
            let r = vec!["Context attribution unavailable.".to_owned()];
            assert(string_views(r@) =~= spec_attribution_lines(*attribution));
            r
        },
        Some(a) => {
            let mut head = "Attribution: ".to_owned();
            let total = format_count(a.total_tokens);
            push_str(&mut head, total.as_str());
            push_str(&mut head, " / ");
            let limit = format_count(a.prompt_token_limit);
            push_str(&mut head, limit.as_str());
            push_str(&mut head, " tokens (");
            push_str(&mut head, a.model_id.as_str());
            push_str(&mut head, ")");
            let ghost head_view = head@;
            let mut r = vec![head];
            let ghost cats = a.categories@.map_values(|c: ContextCategoryFacts| spec_category_line(c));
            let mut i: usize = 0;
            while i < a.categories.len()
                invariant
                    i <= a.categories@.len(),
                    cats == a.categories@.map_values(|c: ContextCategoryFacts| spec_category_line(c)),
                    r@.len() >= 1,
                    string_views(r@) == seq![head_view] + cats.take(i as int),
                decreases a.categories.len() - i,
            {
                let line = category_line(&a.categories[i]);
                let ghost before = string_views(r@);
                r.push(line);
                assert(cats.take(i + 1) =~= cats.take(i as int).push(cats[i as int]));
                assert(string_views(r@) =~= before.push(line@));
                i += 1;
            }
            let mut tail = "Compactions: ".to_owned();
            push_signed_decimal(&mut tail, a.compactions);
            let ghost before = string_views(r@);
            r.push(tail);
            assert(cats.take(cats.len() as int) =~= cats);
            assert(string_views(r@) =~= before.push(tail@));
            assert(string_views(r@) =~= spec_attribution_lines(*attribution));
            r
        },
    }
}

/// The lines of the `/usage` block (see `spec_usage_detail`).
pub fn usage_detail_lines(
    metrics: &Option<UsageFacts>,
    usage: &Option<UsageSnapshot>,
    attribution: &Option<AttributionFacts>,
) -> (r: Vec<String>)
    ensures
        string_views(r@) == spec_usage_detail(*metrics, *usage, *attribution),
{
    match metrics {
        None => {
            let r = vec!["Usage metrics unavailable.".to_owned()];
            assert(string_views(r@) =~= spec_usage_detail(*metrics, *usage, *attribution));
            r
        },
        Some(m) => {
            let mut cost = "Session cost: ".to_owned();
            push_str(&mut cost, m.cost.as_str());
            let mut premium = "Premium request cost: ".to_owned();
            push_str(&mut premium, m.premium_request_cost.as_str());
            let mut requests = "Requests: ".to_owned();
            push_decimal(&mut requests, m.requests);
            let mut api = "API time: ".to_owned();
            push_decimal(&mut api, m.api_duration_ms);
            push_str(&mut api, " ms");
            let mut r = vec![cost, premium, requests, api];
            let ghost head = string_views(r@);
            let ghost window: Seq<Seq<char>> = match *usage {
                Some(u) => seq![
                    "Context window: "@ + spec_format_count(u.current_tokens as int) + " / "@
                        + spec_format_count(u.token_limit as int) + " tokens"@,
                ],
                None => Seq::empty(),
            };
            if let Some(u) = usage {
                let mut line = "Context window: ".to_owned();
                let current = format_count(u.current_tokens);
                push_str(&mut line, current.as_str());
                push_str(&mut line, " / ");
                let limit = format_count(u.token_limit);
                push_str(&mut line, limit.as_str());
                push_str(&mut line, " tokens");
                r.push(line);
            }
            assert(string_views(r@) =~= head + window);
            let rest = attribution_lines(attribution);
            let ghost mid = string_views(r@);
            let mut rest_mut = rest;
            r.append(&mut rest_mut);
            assert(string_views(r@) =~= mid + spec_attribution_lines(*attribution));
            assert(string_views(r@) =~= spec_usage_detail(*metrics, *usage, *attribution));
            r
        },
    }
}

} // verus!
