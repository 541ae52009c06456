//! Telling one prompt from a list of prompts.

use vstd::prelude::*;
use crate::error::CompletionError;
use crate::json::{Json, JsonView, views, lemma_array_view};

verus! {

/// A prompt argument brought into one form: the prompts in order, and whether
/// the argument was one prompt rather than a list.
#[derive(Clone, Debug, PartialEq, Eq)]
pub struct PromptSet {
    pub prompts: Vec<Json>,
    pub single: bool,
}

/// Text and objects are one prompt each.
pub open spec fn is_single(prompt: JsonView) -> bool {
    prompt is Text || prompt is Object
}

/// A prompt argument is one prompt or an array of prompts.
pub open spec fn is_prompt_shape(prompt: JsonView) -> bool {
    is_single(prompt) || prompt is Array
}

/// The prompts that an argument of the right shape stands for.
pub open spec fn prompts_of(prompt: JsonView) -> Seq<JsonView> {
    match prompt {
        JsonView::Array(items) => items,
        _ => seq![prompt],
    }
}

/// Whether the argument is one prompt: text, or an object.
pub fn is_single_prompt(prompt: &Json) -> (single: bool)
    ensures
        single == is_single(prompt@),
{
    match prompt {
        Json::Text(_) => true,
        Json::Object(_) => true,
        _ => false,
    }
}

/// Brings a prompt argument into one form. Text or an object is one prompt;
/// an array is a list of prompts, taken in order; anything else is refused.
pub fn normalize_prompt(prompt: Json) -> (res: Result<PromptSet, CompletionError>)
    ensures
        res is Ok <==> is_prompt_shape(prompt@),
        res matches Err(e) ==> e == CompletionError::InvalidPromptShape,
        res matches Ok(set) ==> set.single == is_single(prompt@) && views(set.prompts@)
            == prompts_of(prompt@),
{
    if is_single_prompt(&prompt) {
        let ghost whole = prompt@;
        let prompts = vec![prompt];
        assert(views(prompts@) =~= seq![whole]);
        Ok(PromptSet { prompts, single: true })
    } else {
        match prompt {
            Json::Array(prompts) => {
                proof {
                    lemma_array_view(prompts);
                }
                Ok(PromptSet { prompts, single: false })
            },
            _ => Err(CompletionError::InvalidPromptShape),
        }
    }
}

} // verus!
