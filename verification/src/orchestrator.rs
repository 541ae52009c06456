//! One completion call as a run that the caller drives: the run says which
//! batch to send with which arguments, the caller sends it and reports what
//! came back, and the run decides what happens next.

use vstd::prelude::*;
use crate::batch::{batch_count, chunk, chunks, contents, prepare_prompt_batches, truncated};
use crate::decoding::{reduce_max_tokens, reduced, DecodingView, OpenAIDecodingArguments};
use crate::error::CompletionError;
use crate::json::{Json, JsonView, views};
use crate::prompt::{is_prompt_shape, is_single, normalize_prompt, prompts_of};
use crate::request::{choices_of, extract_choices};
use crate::reshape::{reshape_completions, reshaped};
use crate::text::{contains, contains_text, decimal, decimal_text};

verus! {

/// What came back from one attempt to have a batch completed.
#[derive(Clone, Debug, PartialEq, Eq)]
pub enum Attempt {
    /// The service accepted the request; this is the body of its answer.
    Answered(Json),
    /// The request failed; this is the message of the failure.
    Failed(String),
    /// The service accepted the request, but what it sent back could not be
    /// read as JSON; this is the message of the reader.
    Malformed(String),
}

/// The mathematical value of an [`Attempt`].
pub enum AttemptView {
    Answered(JsonView),
    Failed(Seq<char>),
    Malformed(Seq<char>),
}

impl View for Attempt {
    type V = AttemptView;

    open spec fn view(&self) -> AttemptView {
        match self {
            Attempt::Answered(body) => AttemptView::Answered(body@),
            Attempt::Failed(message) => AttemptView::Failed(message@),
            Attempt::Malformed(message) => AttemptView::Malformed(message@),
        }
    }
}

/// The status with which the service accepts a request.
pub const STATUS_OK: u16 = 200;

/// The message of a request that the service refused: the status, and what
/// the service wrote.
pub open spec fn refusal(status: u16, detail: Seq<char>) -> Seq<char> {
    "OpenAIError: "@ + decimal(status as nat) + " "@ + detail
}

/// What an exchange with the service comes to. Only the status 200 with a
/// body that is JSON is an answer. With that status and a body that could
/// not be read as JSON the response is malformed. With any other status the
/// request has failed, and the message names the status and holds what the
/// service wrote.
pub open spec fn attempt_of(
    status: u16,
    detail: Seq<char>,
    body: Result<JsonView, Seq<char>>,
) -> AttemptView {
    if status == STATUS_OK {
        match body {
            Ok(json) => AttemptView::Answered(json),
            Err(message) => AttemptView::Malformed(message),
        }
    } else {
        AttemptView::Failed(refusal(status, detail))
    }
}

/// The value of a body that was read, or of the message that tells why it
/// could not be.
pub open spec fn body_view(body: Result<Json, String>) -> Result<JsonView, Seq<char>> {
    match body {
        Ok(json) => Ok(json@),
        Err(message) => Err(message@),
    }
}

/// Tells what an exchange with the service came to, from the status of the
/// response, its text, and its body as JSON where it could be read as such.
pub fn interpret_response(status: u16, detail: &str, body: Result<Json, String>) -> (attempt:
    Attempt)
    ensures
        attempt@ == attempt_of(status, detail@, body_view(body)),
{
    if status == STATUS_OK {
        match body {
            Ok(json) => Attempt::Answered(json),
            Err(message) => Attempt::Malformed(message),
        }
    } else {
        let mut message = "OpenAIError: ".to_owned();
        message.append(decimal_text(status as u128).as_str());
        message.append(" ");
        message.append(detail);
        Attempt::Failed(message)
    }
}

/// The two kinds of failure that a request can meet.
#[derive(Clone, Copy, Debug, PartialEq, Eq, Structural)]
pub enum FailureClass {
    /// Prompt and completion together exceed what the model can hold.
    ContextLength,
    /// Anything else: a rate limit, or a fault that will pass.
    Transient,
}

/// What the caller does after reporting an attempt.
#[derive(Clone, Copy, Debug, PartialEq, Eq, Structural)]
pub enum Next {
    /// The batch is answered: go on with the next one, or finish.
    Proceed,
    /// Send the same batch again at once, with the token budget given.
    RetryNow { max_tokens: u32 },
    /// Wait for the seconds given, then send the same batch again.
    RetryAfter { seconds: u64 },
    /// Give up with this error.
    Abort(CompletionError),
}

/// The kind of a failure, told by its message: a message that holds
/// `reduce your prompt` reports an exceeded context length.
pub open spec fn failure_class(message: Seq<char>) -> FailureClass {
    if contains(message, "reduce your prompt"@) {
        FailureClass::ContextLength
    } else {
        FailureClass::Transient
    }
}

/// Tells the kind of a failure by its message.
pub fn classify_failure(message: &str) -> (class: FailureClass)
    ensures
        class == failure_class(message@),
{
    if contains_text(message, "reduce your prompt") {
        FailureClass::ContextLength
    } else {
        FailureClass::Transient
    }
}

/// The state of a run.
pub struct RunView {
    /// All batches of the call, in order.
    pub batches: Seq<Seq<JsonView>>,
    /// How many batches are answered; the batch at this index is the one to
    /// send.
    pub position: nat,
    /// The arguments of the caller.
    pub args: DecodingView,
    /// The token budget with which the current batch is sent.
    pub max_tokens: u32,
    /// The choices of the answered batches, in order.
    pub gathered: Seq<JsonView>,
    /// Whether the call had one prompt rather than a list.
    pub single: bool,
    pub return_text: bool,
    /// The seconds to wait after a transient failure.
    pub sleep_time: u64,
}

impl RunView {
    /// The run at the start of a call.
    pub open spec fn initial(
        prompt: JsonView,
        args: DecodingView,
        sleep_time: u64,
        batch_size: nat,
        max_instances: nat,
        return_text: bool,
    ) -> RunView {
        RunView {
            batches: chunks(truncated(prompts_of(prompt), max_instances), batch_size),
            position: 0,
            args,
            max_tokens: args.max_tokens,
            gathered: Seq::empty(),
            single: is_single(prompt),
            return_text,
            sleep_time,
        }
    }

    /// Every batch is answered.
    pub open spec fn finished(self) -> bool {
        self.position >= self.batches.len()
    }

    /// The batch to send.
    pub open spec fn current_batch(self) -> Seq<JsonView> {
        self.batches[self.position as int]
    }

    /// The arguments with which the current batch is sent: those of the
    /// caller, but for the token budget.
    pub open spec fn current_args(self) -> DecodingView {
        self.args.with_max_tokens(self.max_tokens)
    }

    /// The run after the choices of the current batch have come in: they are
    /// added to those gathered, and the next batch starts with the caller's
    /// token budget.
    pub open spec fn answered(self, choices: Seq<JsonView>) -> RunView {
        RunView {
            position: self.position + 1,
            max_tokens: self.args.max_tokens,
            gathered: self.gathered + choices,
            ..self
        }
    }

    /// The run after the service found the request too long: the token
    /// budget of the current batch is cut to four fifths.
    pub open spec fn shortened(self) -> RunView {
        RunView { max_tokens: reduced(self.max_tokens), ..self }
    }

    /// The run after an attempt, and what the caller does next.
    pub open spec fn step(self, attempt: AttemptView) -> (RunView, Next) {
        match attempt {
            AttemptView::Answered(body) => match choices_of(body) {
                Some(choices) => (self.answered(choices), Next::Proceed),
                None => (self, Next::Abort(CompletionError::TransportError)),
            },
            AttemptView::Failed(message) => match failure_class(message) {
                FailureClass::ContextLength => (
                    self.shortened(),
                    Next::RetryNow { max_tokens: reduced(self.max_tokens) },
                ),
                FailureClass::Transient => (self, Next::RetryAfter { seconds: self.sleep_time }),
            },
            AttemptView::Malformed(_) => (self, Next::Abort(CompletionError::TransportError)),
        }
    }

    /// What the call returns once every batch is answered.
    pub open spec fn result(self) -> Seq<JsonView> {
        reshaped(self.gathered, self.args.n as nat, self.return_text, self.single)
    }
}

/// A failure whose message does not speak of the context length leaves the
/// run as it was, arguments and token budget included, and asks for the
/// configured wait before the same batch is sent again.
pub proof fn lemma_transient_failure(run: RunView, message: Seq<char>)
    requires
        !contains(message, "reduce your prompt"@),
    ensures
        run.step(AttemptView::Failed(message)) == (
            run,
            Next::RetryAfter { seconds: run.sleep_time },
        ),
{
}

/// A failure whose message speaks of the context length asks for another
/// attempt at once, without a wait. The token budget becomes four fifths of
/// what it was, rounded down, and nothing else changes: the same batch is
/// sent again, and the caller's arguments stay as they are.
pub proof fn lemma_context_length_failure(run: RunView, message: Seq<char>)
    requires
        contains(message, "reduce your prompt"@),
    ensures
        run.step(AttemptView::Failed(message)).1 == (Next::RetryNow {
            max_tokens: reduced(run.max_tokens),
        }),
        run.step(AttemptView::Failed(message)).0 == (RunView {
            max_tokens: reduced(run.max_tokens),
            ..run
        }),
        reduced(run.max_tokens) == run.max_tokens * 4 / 5,
        run.step(AttemptView::Failed(message)).0.current_args() == run.args.with_max_tokens(
            reduced(run.max_tokens),
        ),
{
}

/// A response that is malformed ends the call with a transport error and
/// leaves the run as it was; it is never answered with another attempt. This
/// holds of a body that is no JSON as of a JSON body without an array of
/// choices.
pub proof fn lemma_malformed_response_aborts(run: RunView, message: Seq<char>, body: JsonView)
    requires
        choices_of(body) is None,
    ensures
        run.step(AttemptView::Malformed(message)) == (
            run,
            Next::Abort(CompletionError::TransportError),
        ),
        run.step(AttemptView::Answered(body)) == (
            run,
            Next::Abort(CompletionError::TransportError),
        ),
        forall|detail: Seq<char>|
            run.step(#[trigger] attempt_of(STATUS_OK, detail, Err(message))) == (
                run,
                Next::Abort(CompletionError::TransportError),
            ),
{
}

/// Two failures that do not speak of the context length, and then an answer
/// with choices: the caller is asked to wait twice, for the configured time,
/// every attempt is made with the same arguments, and after the third the
/// choices of the answer are gathered and the run has moved on.
pub proof fn lemma_two_waits_then_answer(
    run: RunView,
    first: Seq<char>,
    second: Seq<char>,
    body: JsonView,
)
    requires
        !contains(first, "reduce your prompt"@),
        !contains(second, "reduce your prompt"@),
        choices_of(body) is Some,
    ensures
        ({
            let (run1, next1) = run.step(AttemptView::Failed(first));
            let (run2, next2) = run1.step(AttemptView::Failed(second));
            let (run3, next3) = run2.step(AttemptView::Answered(body));
            &&& next1 == Next::RetryAfter { seconds: run.sleep_time }
            &&& next2 == Next::RetryAfter { seconds: run.sleep_time }
            &&& next3 == Next::Proceed
            &&& run1.current_args() == run.current_args()
            &&& run2.current_args() == run.current_args()
            &&& run3 == run.answered(choices_of(body)->0)
            &&& run3.gathered == run.gathered + choices_of(body)->0
            &&& run3.position == run.position + 1
        }),
{
}

/// Whatever comes back from an attempt, the call stays the same call: its
/// batches, the caller's arguments and the options do not change. The run
/// never goes back: the position stays or moves to the next batch, never
/// past the last, and what was gathered stays at the front of what is
/// gathered afterwards.
pub proof fn lemma_step_keeps_call(run: RunView, attempt: AttemptView)
    requires
        !run.finished(),
    ensures
        ({
            let (after, next) = run.step(attempt);
            &&& after.batches == run.batches
            &&& after.args == run.args
            &&& after.single == run.single
            &&& after.return_text == run.return_text
            &&& after.sleep_time == run.sleep_time
            &&& run.position <= after.position <= run.batches.len()
            &&& after.position == run.position + 1 <==> next == Next::Proceed
            &&& run.gathered.is_prefix_of(after.gathered)
            &&& next != Next::Proceed ==> after.gathered == run.gathered
        }),
{
    let (after, next) = run.step(attempt);
    assert(run.gathered.is_prefix_of(after.gathered)) by {
        assert(after.gathered.subrange(0, run.gathered.len() as int) =~= run.gathered);
    }
}

/// A call with a single prompt and one completion per prompt has one batch,
/// which holds that prompt. Once it is answered with at least one choice the
/// call is finished, and its result is one item: the first choice, or the
/// text of that choice where only texts are asked for.
pub proof fn lemma_single_prompt_call(
    prompt: JsonView,
    args: DecodingView,
    sleep_time: u64,
    batch_size: nat,
    max_instances: nat,
    return_text: bool,
    body: JsonView,
)
    requires
        is_single(prompt),
        batch_size > 0,
        max_instances > 0,
        args.n == 1,
        choices_of(body) matches Some(choices) && choices.len() > 0,
    ensures
        ({
            let run = RunView::initial(
                prompt,
                args,
                sleep_time,
                batch_size,
                max_instances,
                return_text,
            );
            let (after, next) = run.step(AttemptView::Answered(body));
            let first = choices_of(body)->0[0];
            &&& run.batches == seq![seq![prompt]]
            &&& run.current_args() == args
            &&& next == Next::Proceed
            &&& after.finished()
            &&& after.result() == seq![
                if return_text {
                    first.member("text"@)
                } else {
                    first
                },
            ]
        }),
{
    let run = RunView::initial(prompt, args, sleep_time, batch_size, max_instances, return_text);
    let kept = truncated(prompts_of(prompt), max_instances);
    assert(kept == seq![prompt]);
    crate::batch::lemma_batch_count(0, 1, batch_size);
    assert(0 * batch_size + 1 == 1) by (nonlinear_arith);
    crate::batch::lemma_chunk_bounds(1, batch_size, 0);
    assert(chunk(kept, batch_size, 0) =~= seq![prompt]);
    assert(run.batches =~= seq![seq![prompt]]);
    let choices = choices_of(body)->0;
    assert(Seq::<JsonView>::empty() + choices =~= choices);
    crate::reshape::lemma_single_prompt_result(choices, return_text);
}

/// What each batch of a list of batches holds, as values.
pub open spec fn batch_views(batches: Seq<Vec<Json>>) -> Seq<Seq<JsonView>> {
    Seq::new(batches.len(), |i: int| views(batches[i]@))
}

/// Cutting a list into groups and then taking the value of every item gives
/// the groups of the list of values.
proof fn lemma_batch_views(batches: Seq<Vec<Json>>, items: Seq<Json>, size: nat)
    requires
        size > 0,
        contents(batches) == chunks(items, size),
    ensures
        batch_views(batches) == chunks(views(items), size),
{
    let want = chunks(views(items), size);
    assert(batches.len() == contents(batches).len());
    assert(chunks(items, size).len() == batch_count(items.len(), size));
    assert forall|i: int| 0 <= i < want.len() implies batch_views(batches)[i] == want[i] by {
        crate::batch::lemma_chunk_bounds(items.len(), size, i);
        assert(contents(batches)[i] == chunks(items, size)[i]);
        assert(views(batches[i]@) =~= chunk(views(items), size, i));
    }
    assert(batch_views(batches) =~= want);
}

/// A run of one completion call.
pub struct Completion {
    batches: Vec<Vec<Json>>,
    position: usize,
    args: OpenAIDecodingArguments,
    working: OpenAIDecodingArguments,
    gathered: Vec<Json>,
    single: bool,
    return_text: bool,
    sleep_time: u64,
}

impl View for Completion {
    type V = RunView;

    closed spec fn view(&self) -> RunView {
        RunView {
            batches: batch_views(self.batches@),
            position: self.position as nat,
            args: self.args@,
            max_tokens: self.working.max_tokens,
            gathered: views(self.gathered@),
            single: self.single,
            return_text: self.return_text,
            sleep_time: self.sleep_time,
        }
    }
}

/// Begins a completion call. The prompt is brought into one form, cut down to
/// `max_instances` prompts and split into batches of `batch_size`. A prompt
/// that is neither text, nor an object, nor an array is refused, and then a
/// batch size of zero; in both cases nothing has been sent.
pub fn openai_completion(
    prompt: Json,
    decoding_args: OpenAIDecodingArguments,
    sleep_time: u64,
    batch_size: usize,
    max_instances: usize,
    return_text: bool,
) -> (res: Result<Completion, CompletionError>)
    ensures
        res is Ok <==> is_prompt_shape(prompt@) && batch_size > 0,
        res matches Err(e) ==> e == if is_prompt_shape(prompt@) {
            CompletionError::InvalidBatchSize
        } else {
            CompletionError::InvalidPromptShape
        },
        res matches Ok(run) ==> run@ == RunView::initial(
            prompt@,
            decoding_args@,
            sleep_time,
            batch_size as nat,
            max_instances as nat,
            return_text,
        ),
{
    let set = match normalize_prompt(prompt) {
        Ok(set) => set,
        Err(e) => {
            return Err(e);
        },
    };
    let single = set.single;
    let ghost prompts = set.prompts@;
    let batches = match prepare_prompt_batches(set.prompts, batch_size, max_instances) {
        Ok(batches) => batches,
        Err(e) => {
            return Err(e);
        },
    };
    proof {
        let kept = truncated(prompts, max_instances as nat);
        lemma_batch_views(batches@, kept, batch_size as nat);
        assert(views(kept) =~= truncated(views(prompts), max_instances as nat));
    }
    let working = decoding_args.clone();
    let gathered: Vec<Json> = Vec::new();
    assert(views(gathered@) =~= Seq::<JsonView>::empty());
    Ok(
        Completion {
            batches,
            position: 0,
            args: decoding_args,
            working,
            gathered,
            single,
            return_text,
            sleep_time,
        },
    )
}

impl Completion {
    #[verifier::type_invariant]
    spec fn inv(&self) -> bool {
        &&& self.position <= self.batches@.len()
        &&& self.working@ == self.args@.with_max_tokens(self.working.max_tokens)
    }

    /// Whether every batch is answered.
    pub fn is_finished(&self) -> (finished: bool)
        ensures
            finished == self@.finished(),
    {
        proof {
            use_type_invariant(self);
        }
        self.position >= self.batches.len()
    }

    /// How many batches are answered: never more than there are.
    pub fn position(&self) -> (position: usize)
        ensures
            position == self@.position,
            position <= self@.batches.len(),
    {
        proof {
            use_type_invariant(self);
        }
        self.position
    }

    /// How many batches the call has.
    pub fn batch_total(&self) -> (total: usize)
        ensures
            total == self@.batches.len(),
    {
        self.batches.len()
    }

    /// The batch to send.
    pub fn current_batch(&self) -> (batch: &Vec<Json>)
        requires
            !self@.finished(),
        ensures
            views(batch@) == self@.current_batch(),
    {
        proof {
            use_type_invariant(self);
        }
        &self.batches[self.position]
    }

    /// The arguments with which the current batch is sent.
    pub fn current_arguments(&self) -> (args: &OpenAIDecodingArguments)
        ensures
            args@ == self@.current_args(),
    {
        proof {
            use_type_invariant(self);
        }
        &self.working
    }

    /// Takes in what came back from sending the current batch, and says what
    /// the caller does next. Choices are added to those gathered and the run
    /// moves to the next batch. A malformed response, be it a body that is
    /// no JSON or one without choices, ends the call with a transport error.
    /// After a failure the same batch stays current: one for the context
    /// length cuts the token budget to four fifths and asks for another
    /// attempt at once, any other asks for one after the configured wait.
    pub fn record(self, attempt: Attempt) -> (out: (Completion, Next))
        requires
            !self@.finished(),
        ensures
            (out.0@, out.1) == self@.step(attempt@),
    {
        proof {
            use_type_invariant(&self);
        }
        match attempt {
            Attempt::Answered(body) => {
                match extract_choices(body) {
                    Ok(mut choices) => {
                        let ghost added = choices@;
                        let ghost before = self.gathered@;
                        let Completion {
                            batches,
                            position,
                            args,
                            working: _,
                            mut gathered,
                            single,
                            return_text,
                            sleep_time,
                        } = self;
                        gathered.append(&mut choices);
                        assert(views(gathered@) =~= views(before) + views(added));
                        assert(position < batches.len());
                        let working = args.clone();
                        let run = Completion {
                            batches,
                            position: position + 1,
                            args,
                            working,
                            gathered,
                            single,
                            return_text,
                            sleep_time,
                        };
                        (run, Next::Proceed)
                    },
                    Err(e) => (self, Next::Abort(e)),
                }
            },
            Attempt::Failed(message) => {
                match classify_failure(message.as_str()) {
                    FailureClass::ContextLength => {
                        let max_tokens: u32 = reduce_max_tokens(self.working.max_tokens);
                        let working = self.args.with_max_tokens(max_tokens);
                        let Completion {
                            batches,
                            position,
                            args,
                            working: _,
                            gathered,
                            single,
                            return_text,
                            sleep_time,
                        } = self;
                        let run = Completion {
                            batches,
                            position,
                            args,
                            working,
                            gathered,
                            single,
                            return_text,
                            sleep_time,
                        };
                        (run, Next::RetryNow { max_tokens })
                    },
                    FailureClass::Transient => {
                        let seconds: u64 = self.sleep_time;
                        (self, Next::RetryAfter { seconds })
                    },
                }
            },
            Attempt::Malformed(_) => (self, Next::Abort(CompletionError::TransportError)),
        }
    }

    /// Whether the run can be turned into the result of the call: every
    /// batch is answered, and a call with a single prompt has a choice to
    /// give.
    pub fn has_result(&self) -> (ready: bool)
        ensures
            ready == (self@.finished() && (self@.single ==> self@.gathered.len() > 0)),
    {
        self.is_finished() && (!self.single || self.gathered.len() > 0)
    }

    /// The result of the call: the choices gathered, shaped as the caller
    /// asked.
    pub fn finish(self) -> (out: Vec<Json>)
        requires
            self@.finished(),
            self@.single ==> self@.gathered.len() > 0,
        ensures
            views(out@) == self@.result(),
    {
        reshape_completions(self.gathered, self.args.n, self.return_text, self.single)
    }
}

} // verus!
