//! Choosing the model of a new session (`session/set_config_option`).

use vstd::prelude::*;
use vstd::string::*;
use crate::text::{chars_of, same_chars};

verus! {

broadcast use vstd::string::group_string_axioms;

/// What the daemon reads of a session configuration option.
#[derive(Debug)]
pub struct ConfigOption {
    /// The option's id.
    pub id: String,
    /// Whether the option's category is `model`.
    pub is_model: bool,
    /// The current value, when the option is a select.
    pub select_value: Option<String>,
}

/// Whether and how to set the model.
#[derive(Debug)]
pub enum ModelDecision {
    /// The agent returned no configuration options.
    NoOptions,
    /// No option has the model category.
    NoModelOption,
    /// The model option is not a select.
    NotSelect,
    /// The model is already the desired one.
    AlreadySet,
    /// Set option `option_id` from the model `from` to the desired one.
    Change { option_id: String, from: String },
}

/// The mathematical value of a [`ModelDecision`].
pub enum ModelDecisionView {
    NoOptions,
    NoModelOption,
    NotSelect,
    AlreadySet,
    Change { option_id: Seq<char>, from: Seq<char> },
}

impl View for ModelDecision {
    type V = ModelDecisionView;

    open spec fn view(&self) -> ModelDecisionView {
        match self {
            ModelDecision::NoOptions => ModelDecisionView::NoOptions,
            ModelDecision::NoModelOption => ModelDecisionView::NoModelOption,
            ModelDecision::NotSelect => ModelDecisionView::NotSelect,
            ModelDecision::AlreadySet => ModelDecisionView::AlreadySet,
            ModelDecision::Change { option_id, from } => ModelDecisionView::Change { option_id: option_id@, from: from@ },
        }
    }
}

/// The index of the first model option among `options` from `i` on.
pub open spec fn first_model_from(options: Seq<ConfigOption>, i: int) -> Option<int>
    decreases options.len() - i,
{
    if i < 0 || i >= options.len() {
        None
    } else if options[i].is_model {
        Some(i)
    } else {
        first_model_from(options, i + 1)
    }
}

/// The decision for the options an agent returned and the desired model:
/// the first option of the model category decides; a select whose current
/// value differs from `desired` is changed.
pub open spec fn model_decision_spec(options: Option<Seq<ConfigOption>>, desired: Seq<char>) -> ModelDecisionView {
    match options {
        None => ModelDecisionView::NoOptions,
        Some(opts) => match first_model_from(opts, 0) {
            None => ModelDecisionView::NoModelOption,
            Some(i) => match opts[i].select_value {
                None => ModelDecisionView::NotSelect,
                Some(cur) => if cur@ == desired {
                    ModelDecisionView::AlreadySet
                } else {
                    ModelDecisionView::Change { option_id: opts[i].id@, from: cur@ }
                },
            },
        },
    }
}

/// Decide whether and how to set the model to `desired`.
pub fn model_decision(options: Option<&Vec<ConfigOption>>, desired: &str) -> (d: ModelDecision)
    ensures
        d@ == model_decision_spec(
            match options {
                Some(o) => Some(o@),
                None => None,
            },
            desired@,
        ),
{
    let opts = match options {
        None => return ModelDecision::NoOptions,
        Some(o) => o,
    };
    let mut i: usize = 0;
    while i < opts.len()
        invariant
            i <= opts@.len(),
            options == Some(opts),
            first_model_from(opts@, 0) == first_model_from(opts@, i as int),
        decreases opts@.len() - i,
    {
        if opts[i].is_model {
            assert(first_model_from(opts@, i as int) == Some(i as int));
            let want = chars_of(desired);
            return match &opts[i].select_value {
                None => ModelDecision::NotSelect,
                Some(cur) => {
                    let c = chars_of(cur.as_str());
                    if same_chars(c.as_slice(), want.as_slice()) {
                        ModelDecision::AlreadySet
                    } else {
                        ModelDecision::Change { option_id: opts[i].id.clone(), from: cur.clone() }
                    }
                },
            };
        }
        i = i + 1;
    }
    ModelDecision::NoModelOption
}

} // verus!
