//! Values the terminal interface hands around: a model choice with its options, the
//! model picker's option cycling and row labels, and the states a sub-agent shows in
//! the transcript.

use vstd::prelude::*;
use crate::format::{format_count, spec_format_count};
use crate::picker::PickerKind;
use crate::text::{
    chars_equal, chars_of, decimal, pad_right, push_char, push_decimal, push_padded, push_str,
    string_views,
};

verus! {

/// The context tiers the SDK accepts.
#[derive(Debug, Clone, Copy, PartialEq, Eq, Structural)]
pub enum ContextTier {
    Default,
    LongContext,
}

/// The options sent along with a model switch.
#[derive(Debug, Clone, PartialEq, Eq)]
pub struct ModelOptions {
    pub reasoning_effort: Option<String>,
    pub context_tier: Option<ContextTier>,
}

/// A model picked in the model picker, with the options chosen for it.
#[derive(Debug, Clone, PartialEq, Eq)]
pub struct ModelSelection {
    pub model: String,
    pub reasoning_effort: Option<String>,
    pub context_tier: Option<String>,
}

pub open spec fn default_tier_name() -> Seq<char> {
    seq!['d', 'e', 'f', 'a', 'u', 'l', 't']
}

pub open spec fn long_context_tier_name() -> Seq<char> {
    seq!['l', 'o', 'n', 'g', '_', 'c', 'o', 'n', 't', 'e', 'x', 't']
}

/// The error for a context tier the SDK does not know.
pub open spec fn unsupported_tier_message(tier: Seq<char>) -> Seq<char> {
    "unsupported context tier '"@ + tier + seq!['\'']
}

/// What a selection asks of the SDK: nothing when no option is set; the reasoning
/// effort as given; the context tier when it is `default` or `long_context`, and an
/// error naming it otherwise.
pub open spec fn spec_sdk_options(
    reasoning_effort: Option<Seq<char>>,
    context_tier: Option<Seq<char>>,
) -> Result<Option<(Option<Seq<char>>, Option<ContextTier>)>, Seq<char>> {
    match context_tier {
        Some(t) => if t == default_tier_name() {
            Ok(Some((reasoning_effort, Some(ContextTier::Default))))
        } else if t == long_context_tier_name() {
            Ok(Some((reasoning_effort, Some(ContextTier::LongContext))))
        } else {
            Err(unsupported_tier_message(t))
        },
        None => if reasoning_effort is Some {
            Ok(Some((reasoning_effort, None)))
        } else {
            Ok(None)
        },
    }
}

pub open spec fn options_view(o: ModelOptions) -> (Option<Seq<char>>, Option<ContextTier>) {
    (o.reasoning_effort.deep_view(), o.context_tier)
}

fn copy_optional(value: &Option<String>) -> (r: Option<String>)
    ensures
        r.deep_view() == value.deep_view(),
{
    match value {
        Some(v) => Some(v.clone()),
        None => None,
    }
}

impl ModelSelection {
    /// The options to send with this selection, or why the SDK cannot take them.
    pub fn sdk_options(&self) -> (r: Result<Option<ModelOptions>, String>)
        ensures
            match (r, spec_sdk_options(self.reasoning_effort.deep_view(), self.context_tier.deep_view())) {
                (Ok(None), Ok(None)) => true,
                (Ok(Some(o)), Ok(Some(v))) => options_view(o) == v,
                (Err(e), Err(m)) => e@ == m,
                _ => false,
            },
    {
        let reasoning_effort = copy_optional(&self.reasoning_effort);
        match &self.context_tier {
            Some(tier) => {
                let cs = chars_of(tier.as_str());
                let default_name = vec!['d', 'e', 'f', 'a', 'u', 'l', 't'];
                let long_name = vec!['l', 'o', 'n', 'g', '_', 'c', 'o', 'n', 't', 'e', 'x', 't'];
                if chars_equal(cs.as_slice(), default_name.as_slice()) {
                    Ok(Some(ModelOptions { reasoning_effort, context_tier: Some(ContextTier::Default) }))
                } else if chars_equal(cs.as_slice(), long_name.as_slice()) {
                    Ok(
                        Some(
                            ModelOptions {
                                reasoning_effort,
                                context_tier: Some(ContextTier::LongContext),
                            },
                        ),
                    )
                } else {
                    let mut message = "unsupported context tier '".to_owned();
                    push_str(&mut message, tier.as_str());
                    push_char(&mut message, '\'');
                    Err(message)
                }
            },
            None => {
                if reasoning_effort.is_some() {
                    Ok(Some(ModelOptions { reasoning_effort, context_tier: None }))
                } else {
                    Ok(None)
                }
            },
        }
    }
}

/// Where a sub-agent started from a tool call stands.
#[derive(Debug, Clone, Copy, PartialEq, Eq, Structural)]
pub enum SubagentStatus {
    Running,
    Completed,
    Failed,
}

/// What the model picker reads of a model's metadata. The billing multiplier is
/// kept as the text it is shown as.
pub struct ModelInfo {
    pub id: String,
    pub name: String,
    pub default_reasoning_effort: Option<String>,
    pub supported_reasoning_efforts: Vec<String>,
    pub supported_context_tiers: Vec<String>,
    pub price_category: Option<String>,
    pub billing_multiplier: Option<String>,
    pub max_context_window_tokens: Option<i64>,
}

/// The context tiers the picker can offer: `default` and `long_context`, in the
/// model's order.
pub open spec fn spec_context_tier_options(tiers: Seq<Seq<char>>) -> Seq<Seq<char>>
    decreases tiers.len(),
{
    if tiers.len() == 0 {
        Seq::empty()
    } else {
        let earlier = spec_context_tier_options(tiers.drop_last());
        let t = tiers.last();
        if t == default_tier_name() || t == long_context_tier_name() {
            earlier.push(t)
        } else {
            earlier
        }
    }
}

/// Keeps the context tiers the picker can offer.
pub fn context_tier_options(tiers: &Vec<String>) -> (r: Vec<String>)
    ensures
        string_views(r@) == spec_context_tier_options(string_views(tiers@)),
{
    let ghost all = string_views(tiers@);
    let default_name = vec!['d', 'e', 'f', 'a', 'u', 'l', 't'];
    let long_name = vec!['l', 'o', 'n', 'g', '_', 'c', 'o', 'n', 't', 'e', 'x', 't'];
    let mut r: Vec<String> = Vec::new();
    let mut i: usize = 0;
    assert(all.take(0) == Seq::<Seq<char>>::empty());
    while i < tiers.len()
        invariant
            i <= tiers@.len(),
            all == string_views(tiers@),
            default_name@ == default_tier_name(),
            long_name@ == long_context_tier_name(),
            string_views(r@) == spec_context_tier_options(all.take(i as int)),
        decreases tiers@.len() - i,
    {
        assert(all.take(i + 1).drop_last() == all.take(i as int));
        assert(all.take(i + 1).last() == tiers@[i as int]@);
        let cs = chars_of(tiers[i].as_str());
        if chars_equal(cs.as_slice(), default_name.as_slice()) || chars_equal(
            cs.as_slice(),
            long_name.as_slice(),
        ) {
            let ghost before = r@;
            r.push(tiers[i].clone());
            assert(string_views(r@) == string_views(before).push(tiers@[i as int]@));
        }
        i += 1;
    }
    assert(all.take(tiers@.len() as int) == all);
    r
}

/// The values an option cycles through: unset, then each offered value.
pub open spec fn option_values(options: Seq<Seq<char>>) -> Seq<Option<Seq<char>>> {
    seq![None::<Seq<char>>] + options.map_values(|o: Seq<char>| Some(o))
}

/// Index of the first value equal to `current`, or the length.
pub open spec fn value_index(values: Seq<Option<Seq<char>>>, current: Option<Seq<char>>) -> int
    decreases values.len(),
{
    if values.len() == 0 {
        0
    } else if values[0] == current {
        0
    } else {
        1 + value_index(values.drop_first(), current)
    }
}

/// The value after `current` (the first one when `current` is not offered),
/// wrapping back to unset after the last.
pub open spec fn spec_next_option(options: Seq<Seq<char>>, current: Option<Seq<char>>) -> Option<
    Seq<char>,
> {
    let values = option_values(options);
    let found = value_index(values, current);
    let index = if found < values.len() {
        found
    } else {
        0
    };
    values[(index + 1) % (values.len() as int)]
}

proof fn lemma_value_index_bound(values: Seq<Option<Seq<char>>>, current: Option<Seq<char>>)
    ensures
        0 <= value_index(values, current) <= values.len(),
    decreases values.len(),
{
    if values.len() > 0 && values[0] != current {
        lemma_value_index_bound(values.drop_first(), current);
    }
}

/// Steps an option of the model picker to its next value.
pub fn next_picker_option(options: &Vec<String>, current: &Option<String>) -> (r: Option<String>)
    requires
        options@.len() < usize::MAX,
    ensures
        r.deep_view() == spec_next_option(string_views(options@), current.deep_view()),
{
    let ghost values = option_values(string_views(options@));
    let count = options.len() + 1;
    assert(values.len() == count);
    let mut index: usize = 0;
    proof {
        lemma_value_index_bound(values, current.deep_view());
    }
    let found = match current {
        None => {
            assert(values[0] == current.deep_view());
            0
        },
        Some(value) => {
            assert(values[0] != current.deep_view());
            assert(values.drop_first() == string_views(options@).map_values(
                |o: Seq<char>| Some(o),
            ));
            let mut j: usize = 0;
            let mut hit = false;
            assert(values.drop_first().skip(0) == values.drop_first());
            while !hit && j < options.len()
                invariant
                    j <= options@.len(),
                    values == option_values(string_views(options@)),
                    !hit ==> j + value_index(values.drop_first().skip(j as int), current.deep_view())
                        == value_index(values.drop_first(), current.deep_view()),
                    hit ==> j < options@.len() && j == value_index(
                        values.drop_first(),
                        current.deep_view(),
                    ),
                    current.deep_view() == Some(value@),
                decreases options@.len() - j + if hit {
                    0int
                } else {
                    1
                },
            {
                assert(values.drop_first().skip(j as int)[0] == Some(options@[j as int]@));
                if options[j] == *value {
                    hit = true;
                } else {
                    assert(values.drop_first().skip(j as int).drop_first() == values.drop_first().skip(
                        j + 1,
                    ));
                    j += 1;
                }
            }
            if hit {
                j + 1
            } else {
                assert(values.drop_first().skip(j as int).len() == 0);
                count
            }
        },
    };
    if found < count {
        index = found;
    }
    let next = (index + 1) % count;
    if next == 0 {
        None
    } else {
        assert(values[next as int] == Some(options@[next - 1]@));
        Some(options[next - 1].clone())
    }
}

/// The next value of the reasoning-effort option (`reasoning`) or of the
/// context-tier option for `model`.
pub fn cycle_picker_option(model: &ModelInfo, reasoning: bool, current: &Option<String>) -> (r:
    Option<String>)
    requires
        model.supported_reasoning_efforts@.len() < usize::MAX,
        model.supported_context_tiers@.len() < usize::MAX,
    ensures
        r.deep_view() == spec_next_option(
            if reasoning {
                string_views(model.supported_reasoning_efforts@)
            } else {
                spec_context_tier_options(string_views(model.supported_context_tiers@))
            },
            current.deep_view(),
        ),
{
    if reasoning {
        next_picker_option(&model.supported_reasoning_efforts, current)
    } else {
        let tiers = context_tier_options(&model.supported_context_tiers);
        proof {
            lemma_context_tier_options_len(string_views(model.supported_context_tiers@));
        }
        next_picker_option(&tiers, current)
    }
}

proof fn lemma_context_tier_options_len(tiers: Seq<Seq<char>>)
    ensures
        spec_context_tier_options(tiers).len() <= tiers.len(),
    decreases tiers.len(),
{
    if tiers.len() > 0 {
        lemma_context_tier_options_len(tiers.drop_last());
    }
}

/// Index of the first model with id `id`, or the number of models.
pub open spec fn first_model(models: Seq<ModelInfo>, id: Seq<char>) -> int
    decreases models.len(),
{
    if models.len() == 0 {
        0
    } else if models[0].id@ == id {
        0
    } else {
        1 + first_model(models.drop_first(), id)
    }
}

proof fn lemma_first_model_bound(models: Seq<ModelInfo>, id: Seq<char>)
    ensures
        0 <= first_model(models, id) <= models.len(),
    decreases models.len(),
{
    if models.len() > 0 && models[0].id@ != id {
        lemma_first_model_bound(models.drop_first(), id);
    }
}

/// The reasoning effort to show: the configured one, else the default of the active
/// model (the first listed with its id), if it has one.
pub open spec fn spec_displayed_reasoning_effort(
    models: Seq<ModelInfo>,
    model_id: Option<Seq<char>>,
    configured: Option<Seq<char>>,
) -> Option<Seq<char>> {
    match configured {
        Some(effort) => Some(effort),
        None => match model_id {
            None => None,
            Some(id) => {
                let k = first_model(models, id);
                if k < models.len() {
                    models[k].default_reasoning_effort.deep_view()
                } else {
                    None
                }
            },
        },
    }
}

/// The reasoning effort shown for the active model.
pub fn displayed_reasoning_effort(
    models: &Vec<ModelInfo>,
    model_id: Option<&str>,
    configured_effort: Option<&str>,
) -> (r: Option<String>)
    ensures
        r.deep_view() == spec_displayed_reasoning_effort(
            models@,
            match model_id {
                Some(id) => Some(id@),
                None => None,
            },
            match configured_effort {
                Some(e) => Some(e@),
                None => None,
            },
        ),
{
    if let Some(effort) = configured_effort {
        return Some(effort.to_owned());
    }
    let id = match model_id {
        Some(id) => id,
        None => {
            return None;
        },
    };
    let wanted = chars_of(id);
    let ghost all = models@;
    let mut i: usize = 0;
    assert(all.skip(0) == all);
    proof {
        lemma_first_model_bound(all, id@);
    }
    while i < models.len()
        invariant
            i <= all.len(),
            all == models@,
            wanted@ == id@,
            configured_effort is None,
            model_id == Some(id),
            i + first_model(all.skip(i as int), id@) == first_model(all, id@),
        decreases all.len() - i,
    {
        assert(all.skip(i as int)[0] == all[i as int]);
        let candidate = chars_of(models[i].id.as_str());
        if chars_equal(candidate.as_slice(), wanted.as_slice()) {
            assert(all.skip(i as int)[0].id@ == id@);
            assert(first_model(all, id@) == i);
            return copy_optional(&models[i].default_reasoning_effort);
        }
        assert(all.skip(i as int).drop_first() == all.skip(i + 1));
        i += 1;
    }
    assert(all.skip(i as int).len() == 0);
    None
}

/// The context-window column: the token limit with thousands separators, or
/// `unknown`.
pub open spec fn spec_model_context_label(tokens: Option<i64>) -> Seq<char> {
    match tokens {
        Some(t) => spec_format_count(t as int),
        None => "unknown"@,
    }
}

/// The context-window column of a model's picker row.
pub fn model_context_label(model: &ModelInfo) -> (r: String)
    ensures
        r@ == spec_model_context_label(model.max_context_window_tokens),
{
    match model.max_context_window_tokens {
        Some(tokens) => format_count(tokens),
        None => "unknown".to_owned(),
    }
}

/// The cost column: `local` for a local model; the price category (`very_high`
/// shown as `very high`); else the billing multiplier followed by `x`; else
/// `unknown`.
pub open spec fn spec_model_cost_label(
    is_local: bool,
    category: Option<Seq<char>>,
    multiplier: Option<Seq<char>>,
) -> Seq<char> {
    if is_local {
        "local"@
    } else {
        match category {
            Some(c) if c == "low"@ || c == "medium"@ || c == "high"@ => c,
            Some(c) if c == "very_high"@ => "very high"@,
            _ => match multiplier {
                Some(m) => m.push('x'),
                None => "unknown"@,
            },
        }
    }
}

fn same_text(s: &String, literal: &str) -> (b: bool)
    ensures
        b == (s@ == literal@),
{
    let a = chars_of(s.as_str());
    let b = chars_of(literal);
    chars_equal(a.as_slice(), b.as_slice())
}

/// The cost column of a model's picker row.
pub fn model_cost_label_for(model: &ModelInfo, is_local: bool) -> (r: String)
    ensures
        r@ == spec_model_cost_label(
            is_local,
            model.price_category.deep_view(),
            model.billing_multiplier.deep_view(),
        ),
{
    if is_local {
        return "local".to_owned();
    }
    if let Some(category) = &model.price_category {
        if same_text(category, "low") || same_text(category, "medium") || same_text(
            category,
            "high",
        ) {
            return category.clone();
        }
        if same_text(category, "very_high") {
            return "very high".to_owned();
        }
    }
    match &model.billing_multiplier {
        Some(multiplier) => {
            let mut label = multiplier.clone();
            push_char(&mut label, 'x');
            label
        },
        None => "unknown".to_owned(),
    }
}

/// One model picker row: the name in 28 columns, the cost in 9, then the context
/// window in tokens, two spaces apart.
pub open spec fn spec_model_picker_row(name: Seq<char>, cost: Seq<char>, context: Seq<char>) -> Seq<
    char,
> {
    pad_right(name, 28) + "  "@ + pad_right(cost, 9) + "  "@ + context + " tokens"@
}

/// The row shown for a model in the model picker.
pub fn model_picker_row_for(model: &ModelInfo, is_local: bool) -> (r: String)
    ensures
        r@ == spec_model_picker_row(
            model.name@,
            spec_model_cost_label(
                is_local,
                model.price_category.deep_view(),
                model.billing_multiplier.deep_view(),
            ),
            spec_model_context_label(model.max_context_window_tokens),
        ),
{
    let cost = model_cost_label_for(model, is_local);
    let context = model_context_label(model);
    let mut row = String::new();
    push_padded(&mut row, model.name.as_str(), 28);
    push_str(&mut row, "  ");
    push_padded(&mut row, cost.as_str(), 9);
    push_str(&mut row, "  ");
    push_str(&mut row, context.as_str());
    push_str(&mut row, " tokens");
    row
}

/// The model named in a picker note: the name of the active model when it is
/// listed, else its id, else `auto`.
pub open spec fn spec_kept_model_name(models: Seq<ModelInfo>, current: Option<Seq<char>>) -> Seq<char> {
    match current {
        None => "auto"@,
        Some(id) => if first_model(models, id) < models.len() {
            models[first_model(models, id)].name@
        } else {
            id
        },
    }
}

/// The note left in the transcript when a picker closes without a choice; none for
/// the approval picker.
pub open spec fn spec_cancel_outcome(
    kind: PickerKind,
    models: Seq<ModelInfo>,
    current_model: Option<Seq<char>>,
    enabled_tools: nat,
    tool_count: nat,
    enabled_skills: nat,
) -> Option<Seq<char>> {
    match kind {
        PickerKind::Sessions => Some("Kept current session"@),
        PickerKind::Models => Some("Kept model as "@ + spec_kept_model_name(models, current_model)),
        PickerKind::Tools => Some("Kept tools: "@ + decimal(enabled_tools) + "/"@ + decimal(tool_count)
            + " enabled"@),
        PickerKind::Skills => Some("Kept skills: "@ + decimal(enabled_skills) + " enabled"@),
        PickerKind::Approval => None,
    }
}

/// The note for a picker closed without a choice.
pub fn picker_cancel_outcome(
    kind: PickerKind,
    models: &Vec<ModelInfo>,
    current_model: Option<&str>,
    enabled_tools: usize,
    tool_count: usize,
    enabled_skills: usize,
) -> (r: Option<String>)
    ensures
        r.deep_view() == spec_cancel_outcome(
            kind,
            models@,
            match current_model {
                Some(m) => Some(m@),
                None => None,
            },
            enabled_tools as nat,
            tool_count as nat,
            enabled_skills as nat,
        ),
{
    match kind {
        PickerKind::Sessions => Some("Kept current session".to_owned()),
        PickerKind::Models => {
            let mut note = "Kept model as ".to_owned();
            match current_model {
                None => push_str(&mut note, "auto"),
                Some(id) => {
                    let wanted = chars_of(id);
                    let ghost all = models@;
                    proof {
                        lemma_first_model_bound(all, id@);
                    }
                    let mut i: usize = 0;
                    assert(all.skip(0) == all);
                    while i < models.len() && !chars_equal(
                        chars_of(models[i].id.as_str()).as_slice(),
                        wanted.as_slice(),
                    )
                        invariant
                            i <= all.len(),
                            all == models@,
                            wanted@ == id@,
                            i + first_model(all.skip(i as int), id@) == first_model(all, id@),
                        decreases all.len() - i,
                    {
                        assert(all.skip(i as int)[0] == all[i as int]);
                        assert(all.skip(i as int).drop_first() == all.skip(i + 1));
                        i += 1;
                    }
                    if i < models.len() {
                        assert(all.skip(i as int)[0] == all[i as int]);
                        assert(first_model(all, id@) == i);
                        push_str(&mut note, models[i].name.as_str());
                    } else {
                        assert(all.skip(i as int).len() == 0);
                        push_str(&mut note, id);
                    }
                },
            }
            Some(note)
        },
        PickerKind::Tools => {
            let mut note = "Kept tools: ".to_owned();
            push_decimal(&mut note, enabled_tools as u64);
            push_str(&mut note, "/");
            push_decimal(&mut note, tool_count as u64);
            push_str(&mut note, " enabled");
            Some(note)
        },
        PickerKind::Skills => {
            let mut note = "Kept skills: ".to_owned();
            push_decimal(&mut note, enabled_skills as u64);
            push_str(&mut note, " enabled");
            Some(note)
        },
        PickerKind::Approval => None,
    }
}

/// Index of the first model with the id `id`, or the number of models.
pub open spec fn first_model_with(models: Seq<ModelInfo>, id: Seq<char>) -> int
    decreases models.len(),
{
    if models.len() == 0 {
        0
    } else if models[0].id@ == id {
        0
    } else {
        1 + first_model_with(models.drop_first(), id)
    }
}

proof fn lemma_first_model_with_bound(models: Seq<ModelInfo>, id: Seq<char>)
    ensures
        0 <= first_model_with(models, id) <= models.len(),
    decreases models.len(),
{
    if models.len() > 0 && models[0].id@ != id {
        lemma_first_model_with_bound(models.drop_first(), id);
    }
}

/// The row of the model picker that shows the model `active`: the first model
/// with that id, or the top row when there is none.
pub open spec fn spec_active_model_row(models: Seq<ModelInfo>, active: Option<Seq<char>>) -> int {
    match active {
        None => 0,
        Some(id) => if first_model_with(models, id) < models.len() {
            first_model_with(models, id)
        } else {
            0
        },
    }
}

/// The row the model picker opens on (see `spec_active_model_row`).
pub fn active_model_row(models: &Vec<ModelInfo>, active: Option<&str>) -> (row: usize)
    ensures
        row == spec_active_model_row(
            models@,
            match active {
                Some(a) => Some(a@),
                None => None,
            },
        ),
{
    match active {
        None => 0,
        Some(id) => model_row_with(models, id),
    }
}

/// The row of the first model with the id `id`, or the top row.
fn model_row_with(models: &Vec<ModelInfo>, id: &str) -> (row: usize)
    ensures
        row == spec_active_model_row(models@, Some(id@)),
{
    let wanted = chars_of(id);
    let ghost all = models@;
    proof {
        lemma_first_model_with_bound(all, id@);
    }
    assert(all.skip(0) =~= all);
    let mut i: usize = 0;
    while i < models.len()
        invariant
            i <= all.len(),
            all == models@,
            wanted@ == id@,
            i + first_model_with(all.skip(i as int), id@) == first_model_with(all, id@),
        decreases all.len() - i,
    {
        assert(all.skip(i as int)[0] == all[i as int]);
        if chars_equal(chars_of(models[i].id.as_str()).as_slice(), wanted.as_slice()) {
            assert(first_model_with(all.skip(i as int), id@) == 0);
            return i;
        }
        assert(all.skip(i as int).drop_first() =~= all.skip(i + 1));
        i += 1;
    }
    assert(all.skip(i as int).len() == 0);
    0
}

} // verus!
