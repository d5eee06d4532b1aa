//! The inline pickers below the transcript: the highlighted row and the five-row
//! window around it, and the approval picker's choices.

use vstd::prelude::*;

verus! {

/// Rows a picker shows at once.
pub const MAX_PICKER_ROWS: usize = 5;

/// The highlighted row and the first row shown.
#[derive(Debug, Clone, Copy, PartialEq, Eq, Default)]
pub struct PickerCursor {
    pub selected_item: usize,
    pub window_start: usize,
}

/// The first row shown once the highlight moved from `previous` to `selected`: the
/// window scrolls just enough to keep the highlight among `visible_rows` rows.
pub open spec fn spec_adjusted_window(
    selected: int,
    previous: int,
    window_start: int,
    visible_rows: int,
) -> int {
    let visible = if visible_rows < 1 {
        1
    } else {
        visible_rows
    };
    let start = if selected < window_start {
        selected
    } else if selected >= window_start + visible {
        selected + 1 - visible
    } else {
        window_start
    };
    if selected < previous && previous == 0 {
        0
    } else {
        start
    }
}

/// `index + delta` wrapped around `count` rows (Euclidean remainder).
pub fn wrapped_index(index: usize, delta: isize, count: usize) -> (r: usize)
    requires
        count > 0,
        index <= isize::MAX,
        count <= isize::MAX,
    ensures
        r as int == (index + delta) % (count as int),
{
    let position = index as i128 + delta as i128;
    let n128 = count as i128;
    let wrapped = if position >= 0 {
        position % n128
    } else {
        let back = (-position) % n128;
        if back == 0 {
            0
        } else {
            n128 - back
        }
    };
    proof {
        let p = index + delta;
        let n = count as int;
        if p < 0 {
            let back = (-p) % n;
            let q = (-p) / n;
            vstd::arithmetic::div_mod::lemma_fundamental_div_mod(-p, n);
            if back == 0 {
                assert(p == (-q) * n + 0) by (nonlinear_arith)
                    requires -p == n * q + back, back == 0;
                vstd::arithmetic::div_mod::lemma_fundamental_div_mod_converse(p, n, -q, 0);
            } else {
                assert(p == (-q - 1) * n + (n - back)) by (nonlinear_arith)
                    requires -p == n * q + back;
                vstd::arithmetic::div_mod::lemma_fundamental_div_mod_converse(p, n, -q - 1, n - back);
            }
        }
    }
    wrapped as usize
}

impl PickerCursor {
    /// Scrolls the window after the highlight moved away from `previous`.
    pub fn adjust_picker_window(&mut self, previous: usize, visible_rows: usize)
        ensures
            final(self).selected_item == old(self).selected_item,
            final(self).window_start as int == spec_adjusted_window(
                old(self).selected_item as int,
                previous as int,
                old(self).window_start as int,
                visible_rows as int,
            ),
    {
        let visible_rows = if visible_rows < 1 {
            1
        } else {
            visible_rows
        };
        if self.selected_item < self.window_start {
            self.window_start = self.selected_item;
        } else if self.selected_item - self.window_start >= visible_rows {
            self.window_start = self.selected_item - (visible_rows - 1);
        }
        if self.selected_item < previous && previous == 0 {
            self.window_start = 0;
        }
    }

    /// Moves the highlight by `delta` rows, wrapping around `item_count` rows, and
    /// keeps it inside the five-row window. Nothing moves in an empty picker.
    pub fn move_selection(&mut self, delta: isize, item_count: usize)
        requires
            old(self).selected_item <= isize::MAX,
            item_count <= isize::MAX,
        ensures
            item_count == 0 ==> *final(self) == *old(self),
            item_count > 0 ==> final(self).selected_item as int == (old(self).selected_item + delta)
                % (item_count as int),
            item_count > 0 ==> final(self).window_start as int == spec_adjusted_window(
                final(self).selected_item as int,
                old(self).selected_item as int,
                old(self).window_start as int,
                MAX_PICKER_ROWS as int,
            ),
    {
        if item_count == 0 {
            return;
        }
        let previous = self.selected_item;
        self.selected_item = wrapped_index(previous, delta, item_count);
        self.adjust_picker_window(previous, MAX_PICKER_ROWS);
    }
}

/// How a pending tool request was answered.
#[derive(Debug, Clone, Copy, PartialEq, Eq, Structural)]
pub enum ApprovalDecision {
    ApproveOnce,
    Deny,
    Trust,
}

/// Where an approval shown in the transcript stands.
#[derive(Debug, Clone, Copy, PartialEq, Eq, Structural)]
pub enum ApprovalStatus {
    Pending,
    ApprovedOnce,
    Denied,
    Trusted,
}

/// How many choices the approval picker offers: allow once and deny, plus "trust"
/// for request categories that support it; none without a pending request.
pub fn approval_choice_count(pending: bool, supports_trust: bool) -> (n: usize)
    ensures
        n == if !pending {
            0int
        } else if supports_trust {
            3
        } else {
            2
        },
{
    if pending && supports_trust {
        3
    } else if pending {
        2
    } else {
        0
    }
}

/// The decision an approval row stands for: allow once, deny, and trust where the
/// request supports it.
pub open spec fn spec_approval_decision(selected_item: int, supports_trust: bool) -> Option<
    ApprovalDecision,
> {
    if selected_item == 0 {
        Some(ApprovalDecision::ApproveOnce)
    } else if selected_item == 1 {
        Some(ApprovalDecision::Deny)
    } else if selected_item == 2 && supports_trust {
        Some(ApprovalDecision::Trust)
    } else {
        None
    }
}

/// The decision the highlighted approval row stands for.
pub fn approval_decision_for_selection(selected_item: usize, supports_trust: bool) -> (r: Option<
    ApprovalDecision,
>)
    ensures
        r == spec_approval_decision(selected_item as int, supports_trust),
{
    if selected_item == 0 {
        Some(ApprovalDecision::ApproveOnce)
    } else if selected_item == 1 {
        Some(ApprovalDecision::Deny)
    } else if selected_item == 2 && supports_trust {
        Some(ApprovalDecision::Trust)
    } else {
        None
    }
}

/// The transcript status an answered approval shows.
pub open spec fn decided_status(decision: ApprovalDecision) -> ApprovalStatus {
    match decision {
        ApprovalDecision::ApproveOnce => ApprovalStatus::ApprovedOnce,
        ApprovalDecision::Deny => ApprovalStatus::Denied,
        ApprovalDecision::Trust => ApprovalStatus::Trusted,
    }
}

/// The transcript status an answered approval shows.
pub fn approval_status_for(decision: ApprovalDecision) -> (s: ApprovalStatus)
    ensures
        s == decided_status(decision),
{
    match decision {
        ApprovalDecision::ApproveOnce => ApprovalStatus::ApprovedOnce,
        ApprovalDecision::Deny => ApprovalStatus::Denied,
        ApprovalDecision::Trust => ApprovalStatus::Trusted,
    }
}

/// After any move in a non-empty picker the highlight is a real row and sits inside
/// the window of rows shown.
pub proof fn law_highlight_stays_visible(
    selected: int,
    previous: int,
    window_start: int,
    delta: int,
    item_count: int,
)
    requires
        item_count > 0,
        selected == (previous + delta) % item_count,
    ensures
        0 <= selected < item_count,
        ({
            let start = spec_adjusted_window(selected, previous, window_start, MAX_PICKER_ROWS as int);
            start <= selected < start + MAX_PICKER_ROWS
        }),
{
}

/// Every choice the approval picker offers maps to a decision, and no row past them
/// does.
pub proof fn law_approval_rows_match_choices(selected_item: usize, supports_trust: bool)
    ensures
        ({
            let count = if supports_trust {
                3int
            } else {
                2
            };
            (selected_item < count) == (if selected_item == 0 {
                Some(ApprovalDecision::ApproveOnce)
            } else if selected_item == 1 {
                Some(ApprovalDecision::Deny)
            } else if selected_item == 2 && supports_trust {
                Some(ApprovalDecision::Trust)
            } else {
                None
            } is Some)
        }),
{
}

/// Which inline picker is open.
#[derive(Debug, Clone, Copy, PartialEq, Eq, Structural)]
pub enum PickerKind {
    Sessions,
    Models,
    Tools,
    Skills,
    Approval,
}

/// How many rows the open picker has, given the size of each list.
pub fn picker_item_count(
    kind: Option<PickerKind>,
    sessions: usize,
    models: usize,
    tools: usize,
    skills: usize,
    approval_choices: usize,
) -> (n: usize)
    ensures
        n == match kind {
            Some(PickerKind::Sessions) => sessions,
            Some(PickerKind::Models) => models,
            Some(PickerKind::Tools) => tools,
            Some(PickerKind::Skills) => skills,
            Some(PickerKind::Approval) => approval_choices,
            None => 0,
        },
{
    match kind {
        Some(PickerKind::Sessions) => sessions,
        Some(PickerKind::Models) => models,
        Some(PickerKind::Tools) => tools,
        Some(PickerKind::Skills) => skills,
        Some(PickerKind::Approval) => approval_choices,
        None => 0,
    }
}

/// What choosing the highlighted row of a picker asks for.
#[derive(Debug, Clone, Copy, PartialEq, Eq, Structural)]
pub enum PickerChoice {
    /// Resume the session of this row.
    Resume(usize),
    /// Switch to the model of this row, with the options chosen in the picker.
    SwitchModel(usize),
    /// Apply the tools ticked in the picker.
    ApplyTools,
    /// Apply the skills ticked in the picker.
    ApplySkills,
    /// Answer the pending approval.
    Approve(ApprovalDecision),
    Nothing,
}

/// Choosing the highlighted row `selected` of the open picker: a session or model
/// row that exists is resumed or switched to, the tool and skill pickers apply
/// their ticks, and the approval picker answers with the row's decision. Every
/// picker but the approval picker closes (that one closes once nothing waits).
pub fn picker_choice(
    kind: Option<PickerKind>,
    selected: usize,
    sessions: usize,
    models: usize,
    supports_trust: bool,
) -> (r: (PickerChoice, bool))
    ensures
        r == match kind {
            Some(PickerKind::Sessions) => (
                if selected < sessions {
                    PickerChoice::Resume(selected)
                } else {
                    PickerChoice::Nothing
                },
                true,
            ),
            Some(PickerKind::Models) => (
                if selected < models {
                    PickerChoice::SwitchModel(selected)
                } else {
                    PickerChoice::Nothing
                },
                true,
            ),
            Some(PickerKind::Tools) => (PickerChoice::ApplyTools, true),
            Some(PickerKind::Skills) => (PickerChoice::ApplySkills, true),
            Some(PickerKind::Approval) => (
                match spec_approval_decision(selected as int, supports_trust) {
                    Some(decision) => PickerChoice::Approve(decision),
                    None => PickerChoice::Nothing,
                },
                false,
            ),
            None => (PickerChoice::Nothing, true),
        },
{
    match kind {
        Some(PickerKind::Sessions) => (
            if selected < sessions {
                PickerChoice::Resume(selected)
            } else {
                PickerChoice::Nothing
            },
            true,
        ),
        Some(PickerKind::Models) => (
            if selected < models {
                PickerChoice::SwitchModel(selected)
            } else {
                PickerChoice::Nothing
            },
            true,
        ),
        Some(PickerKind::Tools) => (PickerChoice::ApplyTools, true),
        Some(PickerKind::Skills) => (PickerChoice::ApplySkills, true),
        Some(PickerKind::Approval) => (
            match approval_decision_for_selection(selected, supports_trust) {
                Some(decision) => PickerChoice::Approve(decision),
                None => PickerChoice::Nothing,
            },
            false,
        ),
        None => (PickerChoice::Nothing, true),
    }
}

/// The open picker and its cursor after asking to open `kind`: while an approval
/// waits only the approval picker opens; otherwise `kind` opens with its window at
/// the top and its first row highlighted, except the model picker, which keeps
/// the highlighted row (the active model's).
pub fn open_picker(
    current: Option<PickerKind>,
    cursor: PickerCursor,
    kind: PickerKind,
    approval_waiting: bool,
) -> (r: (Option<PickerKind>, PickerCursor))
    ensures
        r == if kind != PickerKind::Approval && approval_waiting {
            (current, cursor)
        } else {
            (
                Some(kind),
                PickerCursor {
                    selected_item: if kind == PickerKind::Models {
                        cursor.selected_item
                    } else {
                        0
                    },
                    window_start: 0,
                },
            )
        },
{
    let approval = match kind {
        PickerKind::Approval => true,
        _ => false,
    };
    if !approval && approval_waiting {
        return (current, cursor);
    }
    let models = match kind {
        PickerKind::Models => true,
        _ => false,
    };
    (
        Some(kind),
        PickerCursor {
            selected_item: if models {
                cursor.selected_item
            } else {
                0
            },
            window_start: 0,
        },
    )
}

} // verus!
