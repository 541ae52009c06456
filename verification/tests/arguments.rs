use kakashi::decoding::{OpenAIDecodingArguments, DEFAULT_MAX_TOKENS};
use kakashi::utils;

#[test]
fn defaults() {
    let args = OpenAIDecodingArguments::default();
    assert_eq!(args.max_tokens, 1800);
    assert_eq!(args.max_tokens, DEFAULT_MAX_TOKENS);
    assert_eq!(args.temperature, "0.2");
    assert_eq!(args.top_p, "1");
    assert_eq!(args.n, 1);
    assert!(!args.stream);
    assert_eq!(args.stop, None);
    assert_eq!(args.presence_penalty, "0");
    assert_eq!(args.frequency_penalty, "0");
    assert_eq!(args.suffix, None);
    assert_eq!(args.logprobs, None);
    assert!(!args.echo);
}

#[test]
fn defaults_are_the_literals_of_the_real_values() {
    let args = OpenAIDecodingArguments::default();
    assert_eq!(args.temperature, 0.2f32.to_string());
    assert_eq!(args.top_p, 1.0f32.to_string());
    assert_eq!(args.presence_penalty, 0.0f32.to_string());
    assert_eq!(args.frequency_penalty, 0.0f32.to_string());
}

#[test]
fn copy_equals_what_was_copied() {
    let mut args = utils::OpenAIDecodingArguments::default();
    args.stop = Some(vec!["\n20".to_string(), "20.".to_string()]);
    args.suffix = Some("end".to_string());
    args.logprobs = Some(3);
    let copy = args.clone();
    assert_eq!(copy, args);
}

#[test]
fn another_budget_changes_nothing_else() {
    let mut args = OpenAIDecodingArguments::default();
    args.stop = Some(vec!["###".to_string()]);
    let shorter = args.with_max_tokens(10);
    assert_eq!(args.max_tokens, 1800);
    assert_eq!(shorter.max_tokens, 10);
    let mut expected = args.clone();
    expected.max_tokens = 10;
    assert_eq!(shorter, expected);
}
