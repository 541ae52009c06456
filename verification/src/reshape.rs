//! Shaping the flat list of choices into what the caller asked for.

use vstd::prelude::*;
use crate::batch::{batch_count, chunk, chunks, contents, split_into_chunks};
use crate::json::{Json, JsonView, views, lemma_array_view};

verus! {

/// The text of every choice: what it holds under `"text"`.
pub open spec fn texts_only(choices: Seq<JsonView>) -> Seq<JsonView> {
    Seq::new(choices.len(), |i: int| choices[i].member("text"@))
}

/// With more than one completion per prompt, every `n` consecutive items
/// become one array, the last array holding what is left over; with one
/// completion per prompt the items stay as they are.
pub open spec fn grouped(items: Seq<JsonView>, n: nat) -> Seq<JsonView> {
    if n > 1 {
        Seq::new(batch_count(items.len(), n), |i: int| JsonView::Array(chunk(items, n, i)))
    } else {
        items
    }
}

/// For a call with a single prompt only the first item is kept.
pub open spec fn collapsed(items: Seq<JsonView>, single: bool) -> Seq<JsonView> {
    if single {
        items.take(1)
    } else {
        items
    }
}

/// What a call returns for the choices that the service gave, in order.
pub open spec fn reshaped(choices: Seq<JsonView>, n: nat, return_text: bool, single: bool) -> Seq<
    JsonView,
> {
    collapsed(
        grouped(
            if return_text {
                texts_only(choices)
            } else {
                choices
            },
            n,
        ),
        single,
    )
}

/// With one completion per prompt, a call with a single prompt returns one
/// item: the first choice that the service gave, or the text of that choice
/// where only texts are asked for.
pub proof fn lemma_single_prompt_result(choices: Seq<JsonView>, return_text: bool)
    requires
        choices.len() > 0,
    ensures
        reshaped(choices, 1, return_text, true) == seq![
            if return_text {
                choices[0].member("text"@)
            } else {
                choices[0]
            },
        ],
{
    let items = if return_text {
        texts_only(choices)
    } else {
        choices
    };
    assert(items.take(1) =~= seq![items[0]]);
}

/// Where the service gave `n` choices for every one of `prompts` prompts,
/// prompt after prompt, the result has one array per prompt, in the order of
/// the prompts, and the array of a prompt holds its `n` choices in order.
pub proof fn lemma_groups_per_prompt(choices: Seq<JsonView>, n: nat, prompts: nat)
    requires
        n > 1,
        choices.len() == prompts * n,
    ensures
        reshaped(choices, n, false, false).len() == prompts,
        forall|p: int|
            0 <= p < prompts ==> #[trigger] reshaped(choices, n, false, false)[p]
                == JsonView::Array(choices.subrange(p * n, (p + 1) * n)),
{
    crate::batch::lemma_batch_count(prompts, 0, n);
    assert forall|p: int| 0 <= p < prompts implies #[trigger] reshaped(choices, n, false, false)[p]
        == JsonView::Array(choices.subrange(p * n, (p + 1) * n)) by {
        crate::batch::lemma_chunk_bounds(choices.len(), n, p);
        assert((p + 1) * n <= prompts * n) by (nonlinear_arith)
            requires
                p + 1 <= prompts,
                n > 0,
        ;
        assert(p * n + n == (p + 1) * n) by (nonlinear_arith);
    }
}

/// Replaces every choice by its text.
pub fn extract_texts(choices: Vec<Json>) -> (texts: Vec<Json>)
    ensures
        views(texts@) == texts_only(views(choices@)),
{
    let mut texts: Vec<Json> = Vec::new();
    for choice in it: choices
        invariant
            it.seq() == choices@,
            texts@.len() == it.index(),
            forall|j: int| 0 <= j < it.index() ==> (#[trigger] texts@[j])@ == choices@[j]@.member("text"@),
    {
        texts.push(choice.into_member("text"));
    }
    assert(views(texts@) =~= texts_only(views(choices@)));
    texts
}

/// Makes one array of every `n` consecutive items.
pub fn group_completions(items: Vec<Json>, n: usize) -> (groups: Vec<Json>)
    requires
        n > 1,
    ensures
        views(groups@) == grouped(views(items@), n as nat),
{
    let parts = split_into_chunks(items, n);
    let mut groups: Vec<Json> = Vec::new();
    for part in it: parts
        invariant
            it.seq() == parts@,
            groups@.len() == it.index(),
            forall|j: int| 0 <= j < it.index() ==> (#[trigger] groups@[j])@ == JsonView::Array(views(parts@[j]@)),
    {
        proof {
            lemma_array_view(part);
        }
        groups.push(Json::Array(part));
    }
    proof {
        let want = grouped(views(items@), n as nat);
        assert(views(groups@).len() == want.len());
        assert forall|i: int| 0 <= i < want.len() implies views(groups@)[i] == want[i] by {
            assert(contents(parts@)[i] == chunks(items@, n as nat)[i]);
            crate::batch::lemma_chunk_bounds(items@.len(), n as nat, i);
            assert(views(parts@[i]@) =~= chunk(views(items@), n as nat, i));
        }
        assert(views(groups@) =~= want);
    }
    groups
}

/// Shapes the choices that the service gave, in the order it gave them, into
/// the result of the call: only the texts where `return_text` is set, one
/// array per prompt where more than one completion per prompt was asked for,
/// and only the first item where the call had a single prompt.
pub fn reshape_completions(choices: Vec<Json>, n: usize, return_text: bool, single: bool) -> (out:
    Vec<Json>)
    requires
        single ==> choices@.len() > 0,
    ensures
        views(out@) == reshaped(views(choices@), n as nat, return_text, single),
{
    let items = if return_text {
        extract_texts(choices)
    } else {
        choices
    };
    let mut out = if n > 1 {
        group_completions(items, n)
    } else {
        items
    };
    if single {
        let ghost whole = views(out@);
        proof {
            if n > 1 {
                crate::batch::lemma_batch_count_zero(choices@.len(), n as nat);
            }
            assert(whole.len() > 0);
        }
        out.truncate(1);
        assert(views(out@) =~= whole.take(1));
    }
    out
}

} // verus!
