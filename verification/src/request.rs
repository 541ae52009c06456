//! What goes into one request, and what is read out of its answer.

use vstd::prelude::*;
use crate::decoding::{DecodingView, OpenAIDecodingArguments};
use crate::error::CompletionError;
use crate::json::{
    member_views, last_value, lemma_array_view, lemma_last_value_absent, lemma_last_value_at,
    lemma_last_value_joined, lemma_last_value_single, views, Json, JsonView,
};
use crate::text::{decimal, decimal_text};

verus! {

/// A truth value as it is sent.
pub open spec fn bool_text(b: bool) -> Seq<char> {
    if b {
        "true"@
    } else {
        "false"@
    }
}

/// A list of texts as a list of JSON values.
pub open spec fn text_values(texts: Seq<Seq<char>>) -> Seq<JsonView> {
    Seq::new(texts.len(), |i: int| JsonView::Text(texts[i]))
}

/// The fields that every request has: the model, the batch of prompts as JSON
/// text, and the generation parameters that always have a value. Each value
/// is sent as text.
pub open spec fn required_fields(prompt: Seq<char>, args: DecodingView) -> Seq<
    (Seq<char>, JsonView),
> {
    seq![
        ("model"@, JsonView::Text("text-davinci-003"@)),
        ("prompt"@, JsonView::Text(prompt)),
        ("max_tokens"@, JsonView::Text(decimal(args.max_tokens as nat))),
        ("temperature"@, JsonView::Text(args.temperature)),
        ("top_p"@, JsonView::Text(args.top_p)),
        ("n"@, JsonView::Text(decimal(args.n as nat))),
        ("stream"@, JsonView::Text(bool_text(args.stream))),
        ("presence_penalty"@, JsonView::Text(args.presence_penalty)),
        ("frequency_penalty"@, JsonView::Text(args.frequency_penalty)),
        ("echo"@, JsonView::Text(bool_text(args.echo))),
    ]
}

/// The field for the stop sequences, where the caller gave any: the list of
/// them.
pub open spec fn stop_field(stop: Option<Seq<Seq<char>>>) -> Seq<(Seq<char>, JsonView)> {
    match stop {
        Some(sequences) => seq![("stop"@, JsonView::Array(text_values(sequences)))],
        None => Seq::empty(),
    }
}

/// The field for the suffix, where the caller gave one.
pub open spec fn suffix_field(suffix: Option<Seq<char>>) -> Seq<(Seq<char>, JsonView)> {
    match suffix {
        Some(text) => seq![("suffix"@, JsonView::Text(text))],
        None => Seq::empty(),
    }
}

/// The field for the count of log probabilities, where the caller gave one.
pub open spec fn logprobs_field(logprobs: Option<usize>) -> Seq<(Seq<char>, JsonView)> {
    match logprobs {
        Some(count) => seq![("logprobs"@, JsonView::Text(decimal(count as nat)))],
        None => Seq::empty(),
    }
}

/// The fields that the generation parameters and the batch make: those that
/// every request has, and then one each for the stop sequences, the suffix
/// and the count of log probabilities, as far as the caller gave them.
pub open spec fn typed_fields(prompt: Seq<char>, args: DecodingView) -> Seq<(Seq<char>, JsonView)> {
    required_fields(prompt, args) + stop_field(args.stop) + suffix_field(args.suffix)
        + logprobs_field(args.logprobs)
}

/// The members of the request, in the order they are written: the typed
/// fields, then the extra ones. Where a key occurs more than once the last
/// one counts.
pub open spec fn payload(
    prompt: Seq<char>,
    args: DecodingView,
    extra: Seq<(Seq<char>, JsonView)>,
) -> Seq<(Seq<char>, JsonView)> {
    typed_fields(prompt, args) + extra
}

/// An extra field overrides the typed field of the same key, and a key that
/// no extra field has keeps its typed value.
pub proof fn lemma_extra_fields_override(
    prompt: Seq<char>,
    args: DecodingView,
    extra: Seq<(Seq<char>, JsonView)>,
    key: Seq<char>,
)
    ensures
        last_value(payload(prompt, args, extra), key) == match last_value(extra, key) {
            Some(value) => Some(value),
            None => last_value(typed_fields(prompt, args), key),
        },
{
    lemma_last_value_joined(typed_fields(prompt, args), extra, key);
}

/// The keys of the typed fields, no two of them alike.
proof fn lemma_keys_differ()
    ensures
        "model"@.len() == 5,
        "prompt"@.len() == 6,
        "max_tokens"@.len() == 10,
        "temperature"@.len() == 11,
        "top_p"@.len() == 5,
        "n"@.len() == 1,
        "stream"@.len() == 6,
        "presence_penalty"@.len() == 16,
        "frequency_penalty"@.len() == 17,
        "echo"@.len() == 4,
        "stop"@.len() == 4,
        "suffix"@.len() == 6,
        "logprobs"@.len() == 8,
        "model"@ != "top_p"@,
        "prompt"@ != "stream"@,
        "prompt"@ != "suffix"@,
        "stream"@ != "suffix"@,
        "echo"@ != "stop"@,
{
    reveal_strlit("model");
    reveal_strlit("prompt");
    reveal_strlit("max_tokens");
    reveal_strlit("temperature");
    reveal_strlit("top_p");
    reveal_strlit("n");
    reveal_strlit("stream");
    reveal_strlit("presence_penalty");
    reveal_strlit("frequency_penalty");
    reveal_strlit("echo");
    reveal_strlit("stop");
    reveal_strlit("suffix");
    reveal_strlit("logprobs");
    assert("model"@[0] != "top_p"@[0]);
    assert("prompt"@[0] != "stream"@[0]);
    assert("prompt"@[0] != "suffix"@[0]);
    assert("stream"@[1] != "suffix"@[1]);
    assert("echo"@[0] != "stop"@[0]);
}

/// What a key stands for in the typed fields: the value of its optional
/// field where the key is that of one that is there, and otherwise what it
/// stands for in the fields that every request has.
proof fn lemma_typed_lookup(prompt: Seq<char>, args: DecodingView, key: Seq<char>)
    ensures
        last_value(typed_fields(prompt, args), key) == (if key == "logprobs"@
            && args.logprobs is Some {
            Some(logprobs_field(args.logprobs)[0].1)
        } else if key == "suffix"@ && args.suffix is Some {
            Some(suffix_field(args.suffix)[0].1)
        } else if key == "stop"@ && args.stop is Some {
            Some(stop_field(args.stop)[0].1)
        } else {
            last_value(required_fields(prompt, args), key)
        }),
{
    let required = required_fields(prompt, args);
    let stop = stop_field(args.stop);
    let suffix = suffix_field(args.suffix);
    let logprobs = logprobs_field(args.logprobs);
    lemma_last_value_joined(required + stop + suffix, logprobs, key);
    lemma_last_value_joined(required + stop, suffix, key);
    lemma_last_value_joined(required, stop, key);
    lemma_last_value_single(stop, key);
    lemma_last_value_single(suffix, key);
    lemma_last_value_single(logprobs, key);
}

/// The request carries every generation parameter with the caller's value,
/// beside the model and the batch: in the typed fields each key stands for
/// what the arguments hold, and the three parameters that the caller may
/// leave out have a field exactly where a value is given.
pub proof fn lemma_typed_fields_carry_arguments(prompt: Seq<char>, args: DecodingView)
    ensures
        ({
            let typed = typed_fields(prompt, args);
            &&& last_value(typed, "model"@) == Some(JsonView::Text("text-davinci-003"@))
            &&& last_value(typed, "prompt"@) == Some(JsonView::Text(prompt))
            &&& last_value(typed, "max_tokens"@) == Some(
                JsonView::Text(decimal(args.max_tokens as nat)),
            )
            &&& last_value(typed, "temperature"@) == Some(JsonView::Text(args.temperature))
            &&& last_value(typed, "top_p"@) == Some(JsonView::Text(args.top_p))
            &&& last_value(typed, "n"@) == Some(JsonView::Text(decimal(args.n as nat)))
            &&& last_value(typed, "stream"@) == Some(JsonView::Text(bool_text(args.stream)))
            &&& last_value(typed, "presence_penalty"@) == Some(
                JsonView::Text(args.presence_penalty),
            )
            &&& last_value(typed, "frequency_penalty"@) == Some(
                JsonView::Text(args.frequency_penalty),
            )
            &&& last_value(typed, "echo"@) == Some(JsonView::Text(bool_text(args.echo)))
            &&& last_value(typed, "stop"@) == match args.stop {
                Some(sequences) => Some(JsonView::Array(text_values(sequences))),
                None => None,
            }
            &&& last_value(typed, "suffix"@) == match args.suffix {
                Some(text) => Some(JsonView::Text(text)),
                None => None,
            }
            &&& last_value(typed, "logprobs"@) == match args.logprobs {
                Some(count) => Some(JsonView::Text(decimal(count as nat))),
                None => None,
            }
        }),
{
    lemma_keys_differ();
    let required = required_fields(prompt, args);
    lemma_typed_lookup(prompt, args, "model"@);
    lemma_typed_lookup(prompt, args, "prompt"@);
    lemma_typed_lookup(prompt, args, "max_tokens"@);
    lemma_typed_lookup(prompt, args, "temperature"@);
    lemma_typed_lookup(prompt, args, "top_p"@);
    lemma_typed_lookup(prompt, args, "n"@);
    lemma_typed_lookup(prompt, args, "stream"@);
    lemma_typed_lookup(prompt, args, "presence_penalty"@);
    lemma_typed_lookup(prompt, args, "frequency_penalty"@);
    lemma_typed_lookup(prompt, args, "echo"@);
    lemma_typed_lookup(prompt, args, "stop"@);
    lemma_typed_lookup(prompt, args, "suffix"@);
    lemma_typed_lookup(prompt, args, "logprobs"@);
    lemma_last_value_at(required, "model"@, 0);
    lemma_last_value_at(required, "prompt"@, 1);
    lemma_last_value_at(required, "max_tokens"@, 2);
    lemma_last_value_at(required, "temperature"@, 3);
    lemma_last_value_at(required, "top_p"@, 4);
    lemma_last_value_at(required, "n"@, 5);
    lemma_last_value_at(required, "stream"@, 6);
    lemma_last_value_at(required, "presence_penalty"@, 7);
    lemma_last_value_at(required, "frequency_penalty"@, 8);
    lemma_last_value_at(required, "echo"@, 9);
    lemma_last_value_absent(required, "stop"@);
    lemma_last_value_absent(required, "suffix"@);
    lemma_last_value_absent(required, "logprobs"@);
}

/// A truth value as it is sent.
fn bool_field(b: bool) -> (value: Json)
    ensures
        value@ == JsonView::Text(bool_text(b)),
{
    if b {
        Json::Text("true".to_owned())
    } else {
        Json::Text("false".to_owned())
    }
}

/// A list of texts as a JSON array.
fn text_array(texts: &Vec<String>) -> (value: Json)
    ensures
        value@ == JsonView::Array(text_values(crate::decoding::texts(texts@))),
{
    let mut items: Vec<Json> = Vec::new();
    let mut i: usize = 0;
    while i < texts.len()
        invariant
            i <= texts@.len(),
            items@.len() == i,
            forall|j: int| 0 <= j < i ==> (#[trigger] items@[j])@ == JsonView::Text(texts@[j]@),
        decreases texts@.len() - i,
    {
        items.push(Json::Text(texts[i].clone()));
        i = i + 1;
    }
    proof {
        lemma_array_view(items);
        assert(views(items@) =~= text_values(crate::decoding::texts(texts@)));
    }
    Json::Array(items)
}

/// Lists the members of the request for one batch: the typed fields, made
/// from the batch as JSON text and the generation parameters, followed by
/// the caller's extra fields.
pub fn request_fields(
    prompt: String,
    args: &OpenAIDecodingArguments,
    extra: Vec<(String, Json)>,
) -> (fields: Vec<(String, Json)>)
    ensures
        member_views(fields@) == payload(prompt@, args@, member_views(extra@)),
{
    let mut fields: Vec<(String, Json)> = Vec::new();
    fields.push(("model".to_owned(), Json::Text("text-davinci-003".to_owned())));
    fields.push(("prompt".to_owned(), Json::Text(prompt)));
    fields.push(("max_tokens".to_owned(), Json::Text(decimal_text(args.max_tokens as u128))));
    fields.push(("temperature".to_owned(), Json::Text(args.temperature.clone())));
    fields.push(("top_p".to_owned(), Json::Text(args.top_p.clone())));
    fields.push(("n".to_owned(), Json::Text(decimal_text(args.n as u128))));
    fields.push(("stream".to_owned(), bool_field(args.stream)));
    fields.push(("presence_penalty".to_owned(), Json::Text(args.presence_penalty.clone())));
    fields.push(("frequency_penalty".to_owned(), Json::Text(args.frequency_penalty.clone())));
    fields.push(("echo".to_owned(), bool_field(args.echo)));
    assert(member_views(fields@) =~= required_fields(prompt@, args@));
    let ghost required = fields@;
    match &args.stop {
        Some(sequences) => {
            fields.push(("stop".to_owned(), text_array(sequences)));
        },
        None => {},
    }
    assert(member_views(fields@) =~= member_views(required) + stop_field(args@.stop));
    let ghost with_stop = fields@;
    match &args.suffix {
        Some(text) => {
            fields.push(("suffix".to_owned(), Json::Text(text.clone())));
        },
        None => {},
    }
    assert(member_views(fields@) =~= member_views(with_stop) + suffix_field(args@.suffix));
    let ghost with_suffix = fields@;
    match args.logprobs {
        Some(count) => {
            fields.push(("logprobs".to_owned(), Json::Text(decimal_text(count as u128))));
        },
        None => {},
    }
    assert(member_views(fields@) =~= member_views(with_suffix) + logprobs_field(
        args@.logprobs,
    ));
    let ghost typed = fields@;
    let mut extra = extra;
    let ghost added = extra@;
    fields.append(&mut extra);
    assert(member_views(fields@) =~= member_views(typed) + member_views(added));
    fields
}

/// The address of the completion endpoint of a model.
pub open spec fn endpoint(model_name: Seq<char>) -> Seq<char> {
    "https://api.openai.com/v1/engines/"@ + model_name + "/completions"@
}

/// The address to which the requests for `model_name` go.
pub fn completion_url(model_name: &str) -> (url: String)
    ensures
        url@ == endpoint(model_name@),
{
    let mut url = "https://api.openai.com/v1/engines/".to_owned();
    url.append(model_name);
    url.append("/completions");
    url
}

/// The choices in the body of an answer: the array under `"choices"`, where
/// the body is an object that has one.
pub open spec fn choices_of(body: JsonView) -> Option<Seq<JsonView>> {
    match body.member("choices"@) {
        JsonView::Array(items) => Some(items),
        _ => None,
    }
}

/// Takes the choices out of the body of an answer, in the order the service
/// gave them. A body without an array under `"choices"` is a transport error.
pub fn extract_choices(body: Json) -> (res: Result<Vec<Json>, CompletionError>)
    ensures
        match choices_of(body@) {
            Some(items) => res matches Ok(choices) && views(choices@) == items,
            None => res == Err::<Vec<Json>, CompletionError>(CompletionError::TransportError),
        },
{
    match body.into_member("choices") {
        Json::Array(choices) => {
            proof {
                lemma_array_view(choices);
            }
            Ok(choices)
        },
        _ => Err(CompletionError::TransportError),
    }
}

} // verus!
