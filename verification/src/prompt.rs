//! Prompts that plugins show: layout and content nodes, forms and their
//! fields, and the answers the front end sends back.
//!
//! Sizes that the front end reads as floating-point numbers (gaps, widths,
//! slider bounds) are held here as their IEEE-754 bit patterns: the library
//! only carries them.

use vstd::prelude::*;

use crate::text::owned;

verus! {

/// A key that the user may press while a prompt is open.
#[derive(Debug, PartialEq, Eq)]
pub struct Hotkey {
    pub key: String,
    pub label: String,
}

/// Text styles.
#[derive(Debug, Clone, Copy, PartialEq, Eq, Structural)]
pub enum TextVariant {
    Muted,
    Caption,
    Code,
    Emphasis,
    Heading,
}

/// A free-text input.
#[derive(Debug, PartialEq, Eq)]
pub struct TextField {
    pub name: String,
    pub label: Option<String>,
    pub placeholder: Option<String>,
    pub max_length: Option<u32>,
}

/// One choice of a select field.
#[derive(Debug, PartialEq, Eq)]
pub struct OptionKV {
    pub label: String,
    pub value: serde_json::Value,
}

/// A drop-down choice.
#[derive(Debug, PartialEq, Eq)]
pub struct SelectField {
    pub name: String,
    pub label: Option<String>,
    pub options: Vec<OptionKV>,
}

/// A slider; `min`, `max`, `step` and `value` are the bit patterns of `f64`s.
#[derive(Debug, PartialEq, Eq)]
pub struct SliderField {
    pub name: String,
    pub label: Option<String>,
    pub min: u64,
    pub max: u64,
    pub step: u64,
    pub value: Option<u64>,
    pub show_value: bool,
}

/// An input field of a form.
#[derive(Debug, PartialEq, Eq)]
pub enum Field {
    Text(TextField),
    Select(SelectField),
    Slider(SliderField),
}

/// A form with a single submit.
#[derive(Debug, PartialEq, Eq)]
pub struct Form {
    pub name: Option<String>,
    pub fields: Vec<Field>,
}

/// Layout and content of a prompt; gaps are the bit patterns of `f32`s.
#[derive(Debug, PartialEq, Eq)]
pub enum Node {
    VStack { gap: Option<u32>, children: Vec<Node> },
    HStack { gap: Option<u32>, children: Vec<Node> },
    Grid { cols: u16, gap: Option<u32>, children: Vec<Node> },
    Markdown { md: String },
    Html { html: String },
    Text { text: String, variant: Option<TextVariant> },
    Image { src: String, alt: Option<String>, w: Option<u32>, h: Option<u32> },
    Form(Form),
}

/// A prompt; `width` and `height` (percentages) are the bit patterns of `f32`s.
#[derive(Debug, PartialEq, Eq)]
pub struct Prompt {
    pub title: Option<String>,
    pub width: Option<u32>,
    pub height: Option<u32>,
    pub content: Vec<Node>,
    pub ui_schema_version: Option<u32>,
    pub hotkeys: Option<Vec<Hotkey>>,
}

/// A prompt together with the id of the request that shows it.
#[derive(Debug, PartialEq, Eq)]
pub struct PromptRequest {
    pub id: String,
    pub prompt: Prompt,
}

/// The front end's answer to a request.
#[derive(Debug, PartialEq, Eq)]
pub struct FrontendResult {
    pub id: String,
    pub response: serde_json::Value,
}

/// What the front end reports about an open prompt.
#[derive(Debug, PartialEq, Eq)]
pub enum PromptResponse {
    Submit { values: serde_json::Value },
    State { values: serde_json::Value },
    Cancel,
}

/// Whether a node holds an input field: a form with at least one field,
/// or a stack or grid with such a node among its children, at any depth.
pub open spec fn node_has_inputs(n: Node) -> bool
    decreases n,
{
    match n {
        Node::Form(f) => f.fields@.len() > 0,
        Node::VStack { children, .. } => exists|i: int|
            0 <= i < children@.len() && node_has_inputs(#[trigger] children@[i]),
        Node::HStack { children, .. } => exists|i: int|
            0 <= i < children@.len() && node_has_inputs(#[trigger] children@[i]),
        Node::Grid { children, .. } => exists|i: int|
            0 <= i < children@.len() && node_has_inputs(#[trigger] children@[i]),
        _ => false,
    }
}

/// Whether one of the nodes holds an input field.
pub open spec fn nodes_have_inputs(ns: Seq<Node>) -> bool {
    exists|i: int| 0 <= i < ns.len() && node_has_inputs(#[trigger] ns[i])
}

fn any_has_inputs(ns: &Vec<Node>) -> (r: bool)
    ensures
        r == nodes_have_inputs(ns@),
    decreases ns@, 1nat,
{
    let mut i: usize = 0;
    while i < ns.len()
        invariant
            i <= ns@.len(),
            forall|k: int| 0 <= k < i ==> !node_has_inputs(#[trigger] ns@[k]),
        decreases ns@.len() - i,
    {
        if node_contains_input_fields(&ns[i]) {
            return true;
        }
        i = i + 1;
    }
    false
}

/// Whether the node holds an input field, at any depth.
pub fn node_contains_input_fields(node: &Node) -> (r: bool)
    ensures
        r == node_has_inputs(*node),
    decreases *node, 0nat,
{
    match node {
        Node::Form(form) => form.fields.len() > 0,
        Node::VStack { children, .. } => any_has_inputs(children),
        Node::HStack { children, .. } => any_has_inputs(children),
        Node::Grid { children, .. } => any_has_inputs(children),
        _ => false,
    }
}

impl Prompt {
    /// Whether the prompt holds an input field anywhere in its content.
    pub fn contains_input_fields(&self) -> (r: bool)
        ensures
            r == nodes_have_inputs(self.content@),
    {
        any_has_inputs(&self.content)
    }
}

/* --------------------------- a plugin's prompt handle --------------------------- */

/// What a plugin gets back when it asks an open prompt for its state or its
/// submission.
#[derive(Debug, PartialEq, Eq)]
pub enum PromptAnswer {
    /// The form's values.
    Values(serde_json::Value),
    /// Nothing yet: the prompt has been submitted, and the submission is kept
    /// for the next request of it.
    Nothing,
    /// The user cancelled the prompt.
    Cancelled,
    /// The form is still open: ask the front end again, until the user
    /// submits or cancels.
    AskAgain,
    /// The answer could not be had; the text says why.
    Failed(String),
}

/// The handle a plugin holds on a prompt it opened.
#[derive(Debug, PartialEq, Eq)]
pub struct PromptHandle {
    pub prompt_id: String,
    pub result: Option<PromptResponse>,
    /// When the state was last asked for, in milliseconds on the caller's
    /// clock.
    pub last_poll_ms: Option<u64>,
}

/// The shortest time between two state requests, in milliseconds.
pub open spec fn poll_interval() -> nat {
    100
}

/// How long a state request made at `now_ms` must wait: nothing for the
/// first, else what is left of 100 ms since the last one (a clock that went
/// back counts as no time passed).
pub open spec fn poll_wait(last_ms: Option<u64>, now_ms: u64) -> nat {
    match last_ms {
        None => 0,
        Some(t) => {
            let elapsed: nat = if now_ms >= t { (now_ms - t) as nat } else { 0 };
            if elapsed >= poll_interval() { 0 } else { (poll_interval() - elapsed) as nat }
        },
    }
}

impl PromptAnswer {
    /// Whether the prompt is to be cancelled before the answer is handed on:
    /// after any error.
    pub fn cancels(&self) -> (r: bool)
        ensures
            r == (*self is Cancelled || *self is Failed),
    {
        match self {
            PromptAnswer::Cancelled => true,
            PromptAnswer::Failed(_) => true,
            _ => false,
        }
    }

    /// The error the plugin sees, for an answer that is one.
    pub fn error_message(&self) -> (r: Option<String>)
        ensures
            match *self {
                PromptAnswer::Cancelled => r matches Some(m) && m@ == "Prompt was cancelled by user"@,
                PromptAnswer::Failed(why) => r matches Some(m) && m@ == why@,
                _ => r is None,
            },
    {
        match self {
            PromptAnswer::Cancelled => Some(owned("Prompt was cancelled by user")),
            PromptAnswer::Failed(why) => Some(why.clone()),
            _ => None,
        }
    }
}

/// `prefix` followed by the reason.
fn because(prefix: &str, reason: String) -> (r: String)
    ensures
        r@ == prefix@ + reason@,
{
    let mut m = owned(prefix);
    m.append(reason.as_str());
    m
}

impl PromptHandle {
    /// A handle on the prompt opened by request `prompt_id`, with nothing kept.
    pub fn new(prompt_id: String) -> (r: PromptHandle)
        ensures
            r.prompt_id == prompt_id,
            r.result is None,
    {
        PromptHandle { prompt_id, result: None, last_poll_ms: None }
    }

    /// How long to wait before asking for the state at `now_ms`, so that
    /// state requests come at most once per 100 ms.
    pub fn poll_delay(&self, now_ms: u64) -> (r: u64)
        ensures
            r == poll_wait(self.last_poll_ms, now_ms),
            forall|t: u64| self.last_poll_ms == Some(t) && now_ms >= t ==> now_ms + r >= t + poll_interval(),
    {
        match self.last_poll_ms {
            None => 0,
            Some(t) => {
                let elapsed: u64 = if now_ms >= t { now_ms - t } else { 0 };
                if elapsed >= 100 { 0 } else { 100 - elapsed }
            },
        }
    }

    /// Notes that the state was asked for at `at_ms`.
    pub fn record_poll(&mut self, at_ms: u64)
        ensures
            final(self).last_poll_ms == Some(at_ms),
            final(self).prompt_id == old(self).prompt_id,
            final(self).result == old(self).result,
    {
        self.last_poll_ms = Some(at_ms);
    }

    /// The submitted values kept from an earlier state request, if any: a
    /// submission request answers with them without asking again.
    pub fn kept_submission(&self) -> (r: Option<&serde_json::Value>)
        ensures
            match self.result {
                Some(PromptResponse::Submit { values }) => r == Some(&values),
                _ => r is None,
            },
    {
        match &self.result {
            Some(PromptResponse::Submit { values }) => Some(values),
            _ => None,
        }
    }

    /// Takes the front end's answer to a state request (`Err` with the
    /// reason where it could not be had): the state's values; or, for a
    /// submission, nothing, keeping the submission; or the cancellation; or
    /// the failure.
    pub fn on_state(&mut self, reply: Result<PromptResponse, String>) -> (r: PromptAnswer)
        ensures
            final(self).prompt_id == old(self).prompt_id,
            final(self).last_poll_ms == old(self).last_poll_ms,
            match reply {
                Ok(PromptResponse::State { values }) => r == PromptAnswer::Values(values) && final(self).result
                    == old(self).result,
                Ok(PromptResponse::Submit { values }) => r == PromptAnswer::Nothing && final(self).result == Some(
                    PromptResponse::Submit { values },
                ),
                Ok(PromptResponse::Cancel) => r == PromptAnswer::Cancelled && final(self).result == old(self).result,
                Err(why) => r matches PromptAnswer::Failed(m) && m@ == "Failed to receive prompt state: "@ + why@
                    && final(self).result == old(self).result,
            },
    {
        match reply {
            Ok(PromptResponse::State { values }) => PromptAnswer::Values(values),
            Ok(PromptResponse::Submit { values }) => {
                self.result = Some(PromptResponse::Submit { values });
                PromptAnswer::Nothing
            },
            Ok(PromptResponse::Cancel) => PromptAnswer::Cancelled,
            Err(why) => PromptAnswer::Failed(because("Failed to receive prompt state: ", why)),
        }
    }

    /// Takes the front end's answer to a submission request (`Err` with the
    /// reason where it could not be had): the submitted values, the
    /// cancellation, or the failure. A state means that the user has not
    /// pressed Enter yet: the front end is asked again.
    pub fn on_submission(&self, reply: Result<PromptResponse, String>) -> (r: PromptAnswer)
        ensures
            match reply {
                Ok(PromptResponse::Submit { values }) => r == PromptAnswer::Values(values),
                Ok(PromptResponse::Cancel) => r == PromptAnswer::Cancelled,
                Err(why) => r matches PromptAnswer::Failed(m) && m@ == "Failed to receive prompt submission: "@
                    + why@,
                Ok(PromptResponse::State { .. }) => r == PromptAnswer::AskAgain,
            },
    {
        match reply {
            Ok(PromptResponse::Submit { values }) => PromptAnswer::Values(values),
            Ok(PromptResponse::Cancel) => PromptAnswer::Cancelled,
            Err(why) => PromptAnswer::Failed(because("Failed to receive prompt submission: ", why)),
            Ok(PromptResponse::State { .. }) => PromptAnswer::AskAgain,
        }
    }
}

} // verus!
