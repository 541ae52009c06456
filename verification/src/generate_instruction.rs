//! Writing the prompt that asks the model for a new instruction: a fixed
//! preamble, the example instructions as numbered blocks, and the heading of
//! the block that the model is to write.

use vstd::prelude::*;
use crate::text::{decimal, decimal_text, trim_and_strip, trimmed, without_trailing};

verus! {

/// The error type of the `regex` crate, carried as it is.
#[verifier::external_type_specification]
#[verifier::external_body]
pub struct ExRegexError(regex::Error);

/// Why a prompt could not be written.
#[derive(Clone, Copy, Debug, PartialEq, Eq, Structural)]
pub enum PromptError {
    /// A regular expression did not compile.
    PatternRefused,
}

/// What `regex::Regex::replace_all` gives for the regular expression written
/// as `pattern`, applied to `haystack` with `replacement`.
pub uninterp spec fn regex_replaced(
    pattern: Seq<char>,
    haystack: Seq<char>,
    replacement: Seq<char>,
) -> Seq<char>;

/// The regular expression for a run of white space.
pub open spec fn white_space_runs() -> Seq<char> {
    "\\s+"@
}

/// Compiles `pattern` with `regex::Regex::new` and replaces every match in
/// `haystack` with `Regex::replace_all`. The error is that of the compiler.
/// Of the patterns only the one for runs of white space is claimed to
/// compile: the crate documents the class and the repetition, its own
/// examples compile them, and the program for it is far below the size
/// limit on any machine. A result depends on the three texts alone.
#[verifier::external_body]
fn replace_all(pattern: &str, haystack: &str, replacement: &str) -> (out: Result<
    String,
    regex::Error,
>)
    ensures
        out matches Ok(text) ==> text@ == regex_replaced(pattern@, haystack@, replacement@),
        pattern@ == white_space_runs() ==> out is Ok,
{
    match regex::Regex::new(pattern) {
        Ok(re) => Ok(re.replace_all(haystack, replacement).into_owned()),
        Err(e) => Err(e),
    }
}

/// Replaces every match of the regular expression `pattern` in `text` by
/// `replacement`. A pattern that does not compile is refused; the pattern
/// for runs of white space is never refused.
pub fn replace_matches(pattern: &str, text: &str, replacement: &str) -> (res: Result<
    String,
    PromptError,
>)
    ensures
        res matches Ok(out) ==> out@ == regex_replaced(pattern@, text@, replacement@),
        res matches Err(e) ==> e == PromptError::PatternRefused,
        pattern@ == white_space_runs() ==> res is Ok,
{
    // Whether the pattern compiles is for the call to say; what is returned
    // for either outcome is the matter of `replacement_outcome`.
    let outcome: Result<String, regex::Error> = replace_all(pattern, text, replacement);
    replacement_outcome(outcome)
}

/// `text` with every run of white space replaced by one space.
pub open spec fn collapsed_text(text: Seq<char>) -> Seq<char> {
    regex_replaced(white_space_runs(), text, " "@)
}

/// Replaces every run of white space in `text` by one space. This always
/// succeeds.
pub fn collapse_whitespace(text: &str) -> (res: Result<String, PromptError>)
    ensures
        res matches Ok(out) && out@ == collapsed_text(text@),
{
    replace_matches("\\s+", text, " ")
}

/// What a replacement returns for what came back from the `regex` crate: the
/// text where there is one, and `PatternRefused` in place of the crate's own
/// error.
pub fn replacement_outcome(outcome: Result<String, regex::Error>) -> (res: Result<
    String,
    PromptError,
>)
    ensures
        res is Ok <==> outcome is Ok,
        outcome matches Ok(text) ==> res == Ok::<String, PromptError>(text),
        res matches Err(e) ==> e == PromptError::PatternRefused,
{
    match outcome {
        Ok(text) => Ok(text),
        Err(_) => Err(PromptError::PatternRefused),
    }
}

/// An instruction as it is shown, given the instruction with its white space
/// collapsed: without white space at either end and without colons at the
/// end.
pub open spec fn heading(collapsed: Seq<char>) -> Seq<char> {
    without_trailing(trimmed(collapsed), ':')
}

/// A text that neither begins nor ends with white space, and does not end
/// with a colon, is shown as it is.
pub proof fn lemma_heading_of_plain_text(collapsed: Seq<char>)
    requires
        collapsed.len() > 0,
        !crate::text::white_space(collapsed.first()),
        !crate::text::white_space(collapsed.last()),
        collapsed.last() != ':',
    ensures
        heading(collapsed) == collapsed,
{
}

/// An input as it is shown: `<noinput>` stands for an empty one.
pub open spec fn shown_input(input: Seq<char>) -> Seq<char> {
    if input.len() == 0 {
        "<noinput>"@
    } else {
        input
    }
}

/// The block of the example with the given number.
pub open spec fn block(
    number: nat,
    collapsed: Seq<char>,
    input: Seq<char>,
    output: Seq<char>,
) -> Seq<char> {
    "###\n"@ + decimal(number) + ". Instruction: "@ + heading(collapsed) + "\n"@ + decimal(number)
        + ". Input:\n"@ + shown_input(input) + "\n"@ + decimal(number) + ". Output:\n"@ + output
        + "\n"@
}

/// The blocks of the first `upto` examples, numbered from one.
pub open spec fn blocks(
    collapsed: Seq<Seq<char>>,
    examples: Seq<(Seq<char>, Seq<char>, Seq<char>)>,
    upto: nat,
) -> Seq<char>
    decreases upto,
{
    if upto == 0 {
        Seq::empty()
    } else {
        blocks(collapsed, examples, (upto - 1) as nat) + block(
            upto,
            collapsed[upto - 1],
            examples[upto - 1].1,
            examples[upto - 1].2,
        )
    }
}

/// The whole prompt: the preamble and a line break, the blocks of the
/// examples, and the heading of the block that is to be written.
pub open spec fn assembled(
    template: Seq<char>,
    collapsed: Seq<Seq<char>>,
    examples: Seq<(Seq<char>, Seq<char>, Seq<char>)>,
) -> Seq<char> {
    template + "\n"@ + blocks(collapsed, examples, examples.len()) + "###\n"@ + decimal(
        examples.len() + 1,
    ) + ". Instruction:"@
}

/// The three texts of every example.
pub open spec fn example_views(examples: Seq<(&str, &str, &str)>) -> Seq<
    (Seq<char>, Seq<char>, Seq<char>),
> {
    Seq::new(examples.len(), |i: int| (examples[i].0@, examples[i].1@, examples[i].2@))
}

/// The instructions of the examples with their white space collapsed.
pub open spec fn collapsed_instructions(examples: Seq<(Seq<char>, Seq<char>, Seq<char>)>) -> Seq<
    Seq<char>,
> {
    Seq::new(examples.len(), |i: int| collapsed_text(examples[i].0))
}

/// The prompt for the given examples.
pub open spec fn encoded(template: Seq<char>, examples: Seq<(Seq<char>, Seq<char>, Seq<char>)>) -> Seq<
    char,
> {
    assembled(template, collapsed_instructions(examples), examples)
}

/// The texts of a list of strings, one for one.
pub open spec fn string_views(strings: Seq<String>) -> Seq<Seq<char>> {
    Seq::new(strings.len(), |i: int| strings[i]@)
}

/// Adds the block of one example to `prompt`.
fn push_block(prompt: &mut String, number: usize, collapsed: &str, input: &str, output: &str)
    ensures
        final(prompt)@ == old(prompt)@ + block(number as nat, collapsed@, input@, output@),
{
    let ghost start = prompt@;
    let label = decimal_text(number as u128);
    let shown = trim_and_strip(collapsed, ':');
    prompt.append("###\n");
    prompt.append(label.as_str());
    prompt.append(". Instruction: ");
    prompt.append(shown.as_str());
    prompt.append("\n");
    prompt.append(label.as_str());
    prompt.append(". Input:\n");
    if input.is_empty() {
        prompt.append("<noinput>");
    } else {
        prompt.append(input);
    }
    prompt.append("\n");
    prompt.append(label.as_str());
    prompt.append(". Output:\n");
    prompt.append(output);
    prompt.append("\n");
    assert(prompt@ =~= start + block(number as nat, collapsed@, input@, output@));
}

/// Writes the prompt from the preamble, the examples, and the instructions
/// of the examples with their white space already collapsed.
pub fn assemble_prompt(
    template: &str,
    collapsed: &Vec<String>,
    prompt_instructions: &Vec<(&str, &str, &str)>,
) -> (prompt: String)
    requires
        collapsed@.len() == prompt_instructions@.len(),
    ensures
        prompt@ == assembled(
            template@,
            string_views(collapsed@),
            example_views(prompt_instructions@),
        ),
{
    let ghost shown = string_views(collapsed@);
    let ghost examples = example_views(prompt_instructions@);
    let mut prompt = template.to_owned();
    prompt.append("\n");
    let mut i: usize = 0;
    while i < prompt_instructions.len()
        invariant
            i <= prompt_instructions@.len(),
            collapsed@.len() == prompt_instructions@.len(),
            shown == string_views(collapsed@),
            examples == example_views(prompt_instructions@),
            prompt@ == template@ + "\n"@ + blocks(shown, examples, i as nat),
        decreases prompt_instructions@.len() - i,
    {
        let ghost before = prompt@;
        push_block(
            &mut prompt,
            i + 1,
            collapsed[i].as_str(),
            prompt_instructions[i].1,
            prompt_instructions[i].2,
        );
        assert(prompt@ =~= template@ + "\n"@ + blocks(shown, examples, (i + 1) as nat));
        i = i + 1;
    }
    prompt.append("###\n");
    prompt.append(decimal_text(prompt_instructions.len() as u128 + 1).as_str());
    prompt.append(". Instruction:");
    prompt
}

/// Writes the prompt for the given examples, each an instruction, an input
/// and an output, after the preamble `template`. This always succeeds.
pub fn encode_prompt(template: &str, prompt_instructions: &Vec<(&str, &str, &str)>) -> (res: Result<
    String,
    PromptError,
>)
    ensures
        res matches Ok(prompt) && prompt@ == encoded(
            template@,
            example_views(prompt_instructions@),
        ),
{
    let mut collapsed: Vec<String> = Vec::new();
    let mut i: usize = 0;
    while i < prompt_instructions.len()
        invariant
            i <= prompt_instructions@.len(),
            collapsed@.len() == i,
            forall|j: int|
                0 <= j < i ==> (#[trigger] collapsed@[j])@ == collapsed_text(
                    prompt_instructions@[j].0@,
                ),
        decreases prompt_instructions@.len() - i,
    {
        match collapse_whitespace(prompt_instructions[i].0) {
            Ok(text) => {
                collapsed.push(text);
            },
            Err(e) => {
                return Err(e);
            },
        }
        i = i + 1;
    }
    assert(string_views(collapsed@) =~= collapsed_instructions(
        example_views(prompt_instructions@),
    ));
    Ok(assemble_prompt(template, &collapsed, prompt_instructions))
}

} // verus!
