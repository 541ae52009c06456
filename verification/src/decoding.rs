//! The generation parameters that accompany every request.

use vstd::prelude::*;

verus! {

/// Token budget of a request unless the caller sets another.
pub const DEFAULT_MAX_TOKENS: u32 = 1800;

/// How a completion is to be generated. The four real-valued parameters are
/// held as decimal literals, the form in which they are sent; nothing here
/// computes with them.
#[derive(Debug, PartialEq, Eq)]
pub struct OpenAIDecodingArguments {
    /// The most tokens a completion may have.
    pub max_tokens: u32,
    /// Sampling temperature, as a decimal literal.
    pub temperature: String,
    /// Nucleus sampling mass, as a decimal literal.
    pub top_p: String,
    /// Completions asked for per prompt; at least one.
    pub n: usize,
    pub stream: bool,
    /// Sequences at which generation stops.
    pub stop: Option<Vec<String>>,
    /// Presence penalty, as a decimal literal.
    pub presence_penalty: String,
    /// Frequency penalty, as a decimal literal.
    pub frequency_penalty: String,
    /// Text that follows the completion.
    pub suffix: Option<String>,
    pub logprobs: Option<usize>,
    /// Whether the prompt is repeated in front of the completion.
    pub echo: bool,
}

/// The mathematical value of [`OpenAIDecodingArguments`].
pub struct DecodingView {
    pub max_tokens: u32,
    pub temperature: Seq<char>,
    pub top_p: Seq<char>,
    pub n: usize,
    pub stream: bool,
    pub stop: Option<Seq<Seq<char>>>,
    pub presence_penalty: Seq<char>,
    pub frequency_penalty: Seq<char>,
    pub suffix: Option<Seq<char>>,
    pub logprobs: Option<usize>,
    pub echo: bool,
}

/// The texts of a list of strings, one for one.
pub open spec fn texts(strings: Seq<String>) -> Seq<Seq<char>> {
    Seq::new(strings.len(), |i: int| strings[i]@)
}

impl View for OpenAIDecodingArguments {
    type V = DecodingView;

    open spec fn view(&self) -> DecodingView {
        DecodingView {
            max_tokens: self.max_tokens,
            temperature: self.temperature@,
            top_p: self.top_p@,
            n: self.n,
            stream: self.stream,
            stop: match self.stop {
                Some(sequences) => Some(texts(sequences@)),
                None => None,
            },
            presence_penalty: self.presence_penalty@,
            frequency_penalty: self.frequency_penalty@,
            suffix: match self.suffix {
                Some(text) => Some(text@),
                None => None,
            },
            logprobs: self.logprobs,
            echo: self.echo,
        }
    }
}

impl DecodingView {
    /// The parameters every field of which has its default.
    pub open spec fn initial() -> DecodingView {
        DecodingView {
            max_tokens: DEFAULT_MAX_TOKENS,
            temperature: "0.2"@,
            top_p: "1"@,
            n: 1,
            stream: false,
            stop: None,
            presence_penalty: "0"@,
            frequency_penalty: "0"@,
            suffix: None,
            logprobs: None,
            echo: false,
        }
    }

    /// The same parameters with another token budget.
    pub open spec fn with_max_tokens(self, max_tokens: u32) -> DecodingView {
        DecodingView { max_tokens, ..self }
    }

    /// At least one completion is asked for per prompt.
    pub open spec fn wf(self) -> bool {
        self.n >= 1
    }
}

/// Four fifths of a token budget, rounded down.
pub open spec fn reduced(max_tokens: u32) -> u32 {
    (max_tokens * 4 / 5) as u32
}

/// The token budget to try next after the service found a request too long:
/// four fifths of the last one, rounded down.
pub fn reduce_max_tokens(max_tokens: u32) -> (next: u32)
    ensures
        next == reduced(max_tokens),
        next == max_tokens * 4 / 5,
        next <= max_tokens,
        max_tokens > 0 ==> next < max_tokens,
{
    let wide: u64 = max_tokens as u64 * 4 / 5;
    wide as u32
}

impl Default for OpenAIDecodingArguments {
    fn default() -> (args: Self)
        ensures
            args@ == DecodingView::initial(),
            args@.wf(),
    {
        OpenAIDecodingArguments {
            max_tokens: DEFAULT_MAX_TOKENS,
            temperature: "0.2".to_owned(),
            top_p: "1".to_owned(),
            n: 1,
            stream: false,
            stop: None,
            presence_penalty: "0".to_owned(),
            frequency_penalty: "0".to_owned(),
            suffix: None,
            logprobs: None,
            echo: false,
        }
    }
}

/// A copy of a list of strings.
fn copy_strings(strings: &Vec<String>) -> (copy: Vec<String>)
    ensures
        texts(copy@) == texts(strings@),
{
    let mut copy: Vec<String> = Vec::new();
    let mut i: usize = 0;
    while i < strings.len()
        invariant
            i <= strings@.len(),
            copy@.len() == i,
            forall|j: int| 0 <= j < i ==> (#[trigger] copy@[j])@ == strings@[j]@,
        decreases strings@.len() - i,
    {
        copy.push(strings[i].clone());
        i = i + 1;
    }
    assert(texts(copy@) =~= texts(strings@));
    copy
}

impl Clone for OpenAIDecodingArguments {
    fn clone(&self) -> (copy: Self)
        ensures
            copy@ == self@,
    {
        OpenAIDecodingArguments {
            max_tokens: self.max_tokens,
            temperature: self.temperature.clone(),
            top_p: self.top_p.clone(),
            n: self.n,
            stream: self.stream,
            stop: match &self.stop {
                Some(sequences) => Some(copy_strings(sequences)),
                None => None,
            },
            presence_penalty: self.presence_penalty.clone(),
            frequency_penalty: self.frequency_penalty.clone(),
            suffix: match &self.suffix {
                Some(text) => Some(text.clone()),
                None => None,
            },
            logprobs: self.logprobs,
            echo: self.echo,
        }
    }
}

impl OpenAIDecodingArguments {
    /// A copy with another token budget; `self` stays as it is.
    pub fn with_max_tokens(&self, max_tokens: u32) -> (copy: Self)
        ensures
            copy@ == self@.with_max_tokens(max_tokens),
    {
        let mut copy = self.clone();
        copy.max_tokens = max_tokens;
        copy
    }
}

} // verus!
