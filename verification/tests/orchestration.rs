use kakashi::decoding::{reduce_max_tokens, OpenAIDecodingArguments};
use kakashi::error::CompletionError;
use kakashi::json::Json;
use kakashi::orchestrator::{
    classify_failure, interpret_response, Attempt, Completion, FailureClass, Next,
};
use kakashi::utils::openai_completion;

fn text(s: &str) -> Json {
    Json::Text(s.to_string())
}

fn choice(s: &str) -> Json {
    Json::Object(vec![("text".to_string(), text(s))])
}

fn answer(choices: Vec<Json>) -> Attempt {
    Attempt::Answered(Json::Object(vec![
        ("id".to_string(), text("cmpl-1")),
        ("choices".to_string(), Json::Array(choices)),
    ]))
}

fn failure(message: &str) -> Attempt {
    Attempt::Failed(message.to_string())
}

/// What a scripted exchange with the service came to.
struct Trace {
    result: Result<Vec<Json>, CompletionError>,
    /// The batch and the token budget of every attempt.
    sent: Vec<(Vec<Json>, u32)>,
    /// The seconds of every wait.
    waits: Vec<u64>,
}

/// Drives a run with the attempts of `script`, in order, as a caller with a
/// transport would.
fn drive(run: Completion, script: Vec<Attempt>) -> Trace {
    let mut run = run;
    let mut script = script.into_iter();
    let mut sent = Vec::new();
    let mut waits = Vec::new();
    while !run.is_finished() {
        sent.push((run.current_batch().clone(), run.current_arguments().max_tokens));
        let attempt = script.next().expect("the script ran out");
        let (after, next) = run.record(attempt);
        run = after;
        match next {
            Next::Proceed => {}
            Next::RetryNow { max_tokens } => {
                assert_eq!(max_tokens, run.current_arguments().max_tokens);
            }
            Next::RetryAfter { seconds } => waits.push(seconds),
            Next::Abort(e) => {
                return Trace { result: Err(e), sent, waits };
            }
        }
    }
    assert!(script.next().is_none());
    assert!(run.has_result());
    Trace { result: Ok(run.finish()), sent, waits }
}

#[test]
fn rate_limit_twice_then_success_waits_twice() {
    let args = OpenAIDecodingArguments::default();
    let run = openai_completion(text("Say hello."), args, 7, 1, 10, false).unwrap();
    let trace = drive(
        run,
        vec![
            failure("OpenAIError: 429 Too Many Requests"),
            failure("OpenAIError: 429 Too Many Requests"),
            answer(vec![choice("hello")]),
        ],
    );
    assert_eq!(trace.waits, vec![7, 7]);
    assert_eq!(trace.sent.len(), 3);
    for (batch, max_tokens) in &trace.sent {
        assert_eq!(batch, &vec![text("Say hello.")]);
        assert_eq!(*max_tokens, 1800);
    }
    assert_eq!(trace.result, Ok(vec![choice("hello")]));
}

#[test]
fn context_length_failure_shrinks_budget_without_waiting() {
    let args = OpenAIDecodingArguments::default();
    let run = openai_completion(text("A long prompt."), args, 7, 1, 10, true).unwrap();
    let trace = drive(
        run,
        vec![
            failure("This model's maximum context length is 4097 tokens. Please reduce your prompt; or completion length."),
            answer(vec![choice("short")]),
        ],
    );
    assert!(trace.waits.is_empty());
    let budgets: Vec<u32> = trace.sent.iter().map(|(_, max_tokens)| *max_tokens).collect();
    assert_eq!(budgets, vec![1800, 1440]);
    assert_eq!(trace.result, Ok(vec![text("short")]));
}

#[test]
fn record_reports_the_new_budget() {
    let args = OpenAIDecodingArguments::default();
    let run = openai_completion(text("p"), args, 3, 1, 1, true).unwrap();
    let (run, next) = run.record(failure("please reduce your prompt"));
    assert_eq!(next, Next::RetryNow { max_tokens: 1440 });
    assert_eq!(run.current_arguments().max_tokens, 1440);
    assert_eq!(run.position(), 0);
    let (run, next) = run.record(failure("reduce your prompt"));
    assert_eq!(next, Next::RetryNow { max_tokens: 1152 });
    let (run, next) = run.record(failure("connection reset"));
    assert_eq!(next, Next::RetryAfter { seconds: 3 });
    assert_eq!(run.current_arguments().max_tokens, 1152);
    assert!(!run.is_finished());
}

#[test]
fn budget_starts_afresh_for_every_batch() {
    let mut args = OpenAIDecodingArguments::default();
    args.max_tokens = 1000;
    let prompts = Json::Array(vec![text("a"), text("b"), text("c")]);
    let run = openai_completion(prompts, args, 1, 2, 10, true).unwrap();
    assert_eq!(run.batch_total(), 2);
    let trace = drive(
        run,
        vec![
            failure("Please reduce your prompt"),
            failure("Please reduce your prompt"),
            answer(vec![choice("A"), choice("B")]),
            failure("rate limit"),
            answer(vec![choice("C")]),
        ],
    );
    let sent: Vec<(Vec<Json>, u32)> = vec![
        (vec![text("a"), text("b")], 1000),
        (vec![text("a"), text("b")], 800),
        (vec![text("a"), text("b")], 640),
        (vec![text("c")], 1000),
        (vec![text("c")], 1000),
    ];
    assert_eq!(trace.sent, sent);
    assert_eq!(trace.waits, vec![1]);
    assert_eq!(trace.result, Ok(vec![text("A"), text("B"), text("C")]));
}

#[test]
fn budget_of_zero_stays_zero() {
    let mut args = OpenAIDecodingArguments::default();
    args.max_tokens = 1;
    let run = openai_completion(text("p"), args, 3, 1, 1, true).unwrap();
    let (run, next) = run.record(failure("reduce your prompt"));
    assert_eq!(next, Next::RetryNow { max_tokens: 0 });
    let (run, next) = run.record(failure("reduce your prompt"));
    assert_eq!(next, Next::RetryNow { max_tokens: 0 });
    assert!(!run.is_finished());
}

#[test]
fn malformed_prompt_is_refused_before_anything_is_sent() {
    let args = OpenAIDecodingArguments::default();
    let refused = openai_completion(Json::Number("5".to_string()), args, 1, 1, 1, true);
    assert_eq!(refused.err(), Some(CompletionError::InvalidPromptShape));
}

#[test]
fn malformed_prompt_is_reported_before_batch_size() {
    let args = OpenAIDecodingArguments::default();
    let refused = openai_completion(Json::Null, args, 1, 0, 1, true);
    assert_eq!(refused.err(), Some(CompletionError::InvalidPromptShape));
}

#[test]
fn batch_size_zero_is_refused_at_the_start() {
    let args = OpenAIDecodingArguments::default();
    let refused = openai_completion(text("p"), args, 1, 0, 1, true);
    assert_eq!(refused.err(), Some(CompletionError::InvalidBatchSize));
}

#[test]
fn end_to_end_single_prompt() {
    let args = OpenAIDecodingArguments::default();
    let run = openai_completion(text("Find the square root of 144."), args, 2, 1, 1, true).unwrap();
    let trace = drive(run, vec![answer(vec![choice("12")])]);
    assert_eq!(trace.result, Ok(vec![text("12")]));
    assert_eq!(trace.sent.len(), 1);
    assert!(trace.waits.is_empty());
}

#[test]
fn several_completions_per_prompt_are_grouped() {
    let mut args = OpenAIDecodingArguments::default();
    args.n = 3;
    let prompts = Json::Array(vec![text("a"), text("b")]);
    let run = openai_completion(prompts, args, 2, 1, 10, true).unwrap();
    let trace = drive(
        run,
        vec![
            answer(vec![choice("a0"), choice("a1"), choice("a2")]),
            answer(vec![choice("b0"), choice("b1"), choice("b2")]),
        ],
    );
    assert_eq!(
        trace.result,
        Ok(vec![
            Json::Array(vec![text("a0"), text("a1"), text("a2")]),
            Json::Array(vec![text("b0"), text("b1"), text("b2")]),
        ])
    );
}

#[test]
fn body_without_choices_ends_the_call() {
    let args = OpenAIDecodingArguments::default();
    let run = openai_completion(text("p"), args, 2, 1, 1, true).unwrap();
    let trace = drive(
        run,
        vec![Attempt::Answered(Json::Object(vec![("error".to_string(), text("no"))]))],
    );
    assert_eq!(trace.result, Err(CompletionError::TransportError));
}

#[test]
fn empty_list_of_prompts_is_finished_at_once() {
    let args = OpenAIDecodingArguments::default();
    let run = openai_completion(Json::Array(Vec::new()), args, 2, 4, 10, true).unwrap();
    assert!(run.is_finished());
    assert!(run.has_result());
    assert_eq!(run.batch_total(), 0);
    assert!(run.finish().is_empty());
}

#[test]
fn single_prompt_cut_away_has_no_result() {
    let args = OpenAIDecodingArguments::default();
    let run = openai_completion(text("p"), args, 2, 4, 0, true).unwrap();
    assert!(run.is_finished());
    assert!(!run.has_result());
}

#[test]
fn failures_are_told_apart_by_their_message() {
    assert_eq!(
        classify_failure("Please reduce your prompt; or completion length."),
        FailureClass::ContextLength
    );
    assert_eq!(classify_failure("reduce your prompt"), FailureClass::ContextLength);
    assert_eq!(classify_failure("OpenAIError: 429"), FailureClass::Transient);
    assert_eq!(classify_failure("Reduce your prompt"), FailureClass::Transient);
    assert_eq!(classify_failure("reduce your promp"), FailureClass::Transient);
    assert_eq!(classify_failure(""), FailureClass::Transient);
}

#[test]
fn reduced_budget_is_four_fifths_rounded_down() {
    assert_eq!(reduce_max_tokens(1800), 1440);
    assert_eq!(reduce_max_tokens(1440), 1152);
    assert_eq!(reduce_max_tokens(9), 7);
    assert_eq!(reduce_max_tokens(4), 3);
    assert_eq!(reduce_max_tokens(1), 0);
    assert_eq!(reduce_max_tokens(0), 0);
    assert_eq!(reduce_max_tokens(u32::MAX), 3435973836);
}

#[test]
fn reduced_budget_agrees_with_floating_point() {
    let mut samples: Vec<u32> = (0..5000).collect();
    samples.extend((0..5000).map(|i| u32::MAX - i));
    samples.extend((0..5000).map(|i| i * 858_993 + 3));
    for max_tokens in samples {
        assert_eq!(reduce_max_tokens(max_tokens), (max_tokens as f64 * 0.8) as u32);
    }
}

#[test]
fn only_status_200_with_a_body_is_an_answer() {
    let body = Json::Object(vec![("choices".to_string(), Json::Array(Vec::new()))]);
    assert_eq!(
        interpret_response(200, "{\"choices\":[]}", Ok(body.clone())),
        Attempt::Answered(body.clone())
    );
    assert_eq!(
        interpret_response(200, "<html>", Err("expected value at line 1 column 1".to_string())),
        Attempt::Malformed("expected value at line 1 column 1".to_string())
    );
    assert_eq!(
        interpret_response(429, "Rate limit reached", Ok(body.clone())),
        failure("OpenAIError: 429 Rate limit reached")
    );
    assert_eq!(
        interpret_response(201, "", Ok(body)),
        failure("OpenAIError: 201 ")
    );
    assert_eq!(
        interpret_response(400, "Please reduce your prompt", Err("no JSON".to_string())),
        failure("OpenAIError: 400 Please reduce your prompt")
    );
}

#[test]
fn refusal_for_the_context_length_is_recognised() {
    let attempt = interpret_response(400, "{\"error\":\"Please reduce your prompt\"}", Err(String::new()));
    let args = OpenAIDecodingArguments::default();
    let run = openai_completion(text("p"), args, 3, 1, 1, true).unwrap();
    let (_, next) = run.record(attempt);
    assert_eq!(next, Next::RetryNow { max_tokens: 1440 });
}

#[test]
fn body_that_is_no_json_ends_the_call() {
    let args = OpenAIDecodingArguments::default();
    let run = openai_completion(text("p"), args, 2, 1, 1, true).unwrap();
    let attempt = interpret_response(200, "<html>", Err("expected value".to_string()));
    let (run, next) = run.record(attempt);
    assert_eq!(next, Next::Abort(CompletionError::TransportError));
    assert!(!run.is_finished());
    assert_eq!(run.position(), 0);
    assert_eq!(run.current_arguments().max_tokens, 1800);
}

#[test]
fn malformed_response_is_not_retried_whatever_its_message() {
    let args = OpenAIDecodingArguments::default();
    let run = openai_completion(text("p"), args, 2, 1, 1, true).unwrap();
    let trace = drive(
        run,
        vec![
            failure("rate limit"),
            Attempt::Malformed("Please reduce your prompt".to_string()),
        ],
    );
    assert_eq!(trace.result, Err(CompletionError::TransportError));
    assert_eq!(trace.waits, vec![2]);
    assert_eq!(trace.sent.len(), 2);
}
