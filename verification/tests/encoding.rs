use kakashi::generate_instruction::{
    assemble_prompt, collapse_whitespace, encode_prompt, replace_matches, replacement_outcome,
    PromptError,
};
use kakashi::text::{
    chars_of, contains_text, decimal_text, is_white_space, string_of_range, trim_and_strip,
};
use kakashi::utils::{indentation, write_mode, WriteMode};

#[test]
fn prompt_for_two_examples() {
    let examples = vec![
        (
            "Translate the following sentence into French:",
            "The weather is nice today.",
            "Il fait beau aujourd'hui.",
        ),
        ("Find the square root of the following number:", "144", "12"),
    ];
    let prompt = encode_prompt("Come up with tasks.", &examples).unwrap();
    assert_eq!(
        prompt,
        "Come up with tasks.\n\
         ###\n\
         1. Instruction: Translate the following sentence into French\n\
         1. Input:\n\
         The weather is nice today.\n\
         1. Output:\n\
         Il fait beau aujourd'hui.\n\
         ###\n\
         2. Instruction: Find the square root of the following number\n\
         2. Input:\n\
         144\n\
         2. Output:\n\
         12\n\
         ###\n\
         3. Instruction:"
    );
}

#[test]
fn prompt_without_examples() {
    let prompt = encode_prompt("Preamble", &Vec::new()).unwrap();
    assert_eq!(prompt, "Preamble\n###\n1. Instruction:");
}

#[test]
fn empty_input_is_shown_as_noinput() {
    let prompt = encode_prompt("", &vec![("Tell a joke", "", "Why?")]).unwrap();
    assert_eq!(
        prompt,
        "\n###\n1. Instruction: Tell a joke\n1. Input:\n<noinput>\n1. Output:\nWhy?\n###\n2. Instruction:"
    );
}

#[test]
fn instruction_is_collapsed_trimmed_and_stripped() {
    let prompt = encode_prompt("P", &vec![("  Sum \t the\n\nnumbers ::: ", " 1 2 ", "3")]).unwrap();
    assert_eq!(
        prompt,
        "P\n###\n1. Instruction: Sum the numbers \n1. Input:\n 1 2 \n1. Output:\n3\n###\n2. Instruction:"
    );
    let prompt = encode_prompt("P", &vec![("Sum the numbers::", "x", "y")]).unwrap();
    assert_eq!(
        prompt,
        "P\n###\n1. Instruction: Sum the numbers\n1. Input:\nx\n1. Output:\ny\n###\n2. Instruction:"
    );
}

#[test]
fn tenth_example_has_two_digits() {
    let examples: Vec<(&str, &str, &str)> = (0..10).map(|_| ("i", "x", "y")).collect();
    let prompt = encode_prompt("", &examples).unwrap();
    assert!(prompt.contains("###\n10. Instruction: i\n10. Input:\nx\n10. Output:\ny\n"));
    assert!(prompt.ends_with("###\n11. Instruction:"));
}

#[test]
fn runs_of_white_space_become_one_space() {
    assert_eq!(collapse_whitespace("a  b\t\n c").unwrap(), "a b c");
    assert_eq!(collapse_whitespace("  lead and trail \n").unwrap(), " lead and trail ");
    assert_eq!(collapse_whitespace("none").unwrap(), "none");
    assert_eq!(collapse_whitespace("").unwrap(), "");
    assert_eq!(collapse_whitespace("a\u{2003}\u{a0}b").unwrap(), "a b");
}

#[test]
fn assembling_uses_the_collapsed_instructions() {
    let collapsed = vec![" First: ".to_string(), "Second".to_string()];
    let examples = vec![("ignored", "in", "out"), ("ignored too", "", "done")];
    let prompt = assemble_prompt("T", &collapsed, &examples);
    assert_eq!(
        prompt,
        "T\n###\n1. Instruction: First\n1. Input:\nin\n1. Output:\nout\n\
         ###\n2. Instruction: Second\n2. Input:\n<noinput>\n2. Output:\ndone\n\
         ###\n3. Instruction:"
    );
}

#[test]
fn trimming_and_stripping() {
    assert_eq!(trim_and_strip("  hello:  ", ':'), "hello");
    assert_eq!(trim_and_strip("hello :", ':'), "hello ");
    assert_eq!(trim_and_strip("a:b::", ':'), "a:b");
    assert_eq!(trim_and_strip(":::", ':'), "");
    assert_eq!(trim_and_strip(" \t\n ", ':'), "");
    assert_eq!(trim_and_strip("", ':'), "");
    assert_eq!(trim_and_strip(": x", ':'), ": x");
    assert_eq!(trim_and_strip("\u{3000}wide\u{3000}", ':'), "wide");
}

#[test]
fn decimal_digits() {
    assert_eq!(decimal_text(0), "0");
    assert_eq!(decimal_text(7), "7");
    assert_eq!(decimal_text(10), "10");
    assert_eq!(decimal_text(1800), "1800");
    assert_eq!(decimal_text(1234567890), "1234567890");
    assert_eq!(decimal_text(u128::MAX), u128::MAX.to_string());
}

#[test]
fn characters_round_trip() {
    let text = "naïve ☃ text";
    let chars = chars_of(text);
    assert_eq!(chars, text.chars().collect::<Vec<char>>());
    assert_eq!(string_of_range(&chars, 0, chars.len()), text);
    assert_eq!(string_of_range(&chars, 6, 7), "☃");
    assert_eq!(string_of_range(&chars, 3, 3), "");
}

#[test]
fn substring_search() {
    assert!(contains_text("abcabd", "abd"));
    assert!(contains_text("abc", "abc"));
    assert!(contains_text("abc", ""));
    assert!(contains_text("", ""));
    assert!(contains_text("xxab", "ab"));
    assert!(!contains_text("abc", "abcd"));
    assert!(!contains_text("", "a"));
    assert!(!contains_text("aab", "aba"));
}

#[test]
fn mode_words() {
    assert_eq!(write_mode("write"), Some(WriteMode::Write));
    assert_eq!(write_mode("append"), Some(WriteMode::Append));
    assert_eq!(write_mode("read"), None);
    assert_eq!(write_mode("Write"), None);
    assert_eq!(write_mode(""), None);
}

#[test]
fn indentation_width() {
    assert_eq!(indentation(None), "    ");
    assert_eq!(indentation(Some(2)), "  ");
    assert_eq!(indentation(Some(0)), "");
}

#[test]
fn matches_are_replaced() {
    assert_eq!(replace_matches("[0-9]+", "a1b22c333", "#").unwrap(), "a#b#c#");
    assert_eq!(replace_matches("x", "abc", "y").unwrap(), "abc");
}

#[test]
fn pattern_that_does_not_compile_is_refused() {
    assert_eq!(replace_matches("foo(bar", "text", " "), Err(PromptError::PatternRefused));
}

#[test]
fn outcome_keeps_the_text_and_replaces_the_error() {
    assert_eq!(replacement_outcome(Ok("a b".to_string())), Ok("a b".to_string()));
    assert_eq!(replacement_outcome(Ok(String::new())), Ok(String::new()));
    let refused = regex::Regex::new("foo(bar").map(|_| String::new());
    assert!(refused.is_err());
    assert_eq!(replacement_outcome(refused), Err(PromptError::PatternRefused));
}

#[test]
fn white_space_is_what_the_standard_library_calls_so() {
    for code in 0..=0x10FFFFu32 {
        if let Some(c) = char::from_u32(code) {
            assert_eq!(is_white_space(c), c.is_whitespace(), "U+{:04X}", code);
        }
    }
}

#[test]
fn trimming_agrees_with_the_standard_library() {
    for text in [
        "",
        " ",
        "\u{85}x\u{a0}",
        "\u{1680}a b\u{2000}\u{200a}",
        "\u{2028}\u{2029}y\u{202f}\u{205f}\u{3000}",
        "\u{200b}z\u{200b}",
        "\u{180e}w\u{180e}",
        "\t\n\u{b}\u{c}\r v \r\u{c}\u{b}\n\t",
        "\u{1c}q\u{1f}",
    ] {
        assert_eq!(trim_and_strip(text, ':'), text.trim().trim_end_matches(':'));
    }
}

#[test]
fn encoding_never_fails() {
    let examples = vec![("(unbalanced [brackets \\ and $1", "a", "b"), ("", "", "")];
    let prompt = encode_prompt("T", &examples).unwrap();
    assert_eq!(
        prompt,
        "T\n###\n1. Instruction: (unbalanced [brackets \\ and $1\n1. Input:\na\n1. Output:\nb\n\
         ###\n2. Instruction: \n2. Input:\n<noinput>\n2. Output:\n\n###\n3. Instruction:"
    );
}
