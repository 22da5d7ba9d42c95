//! The parser contract: the capability every provider-specific translator
//! exposes, and the error taxonomy of the whole crate.

use vstd::prelude::*;

use crate::json::string_eq_str;
use crate::normalized::ContentFrame;
use crate::normalized::FrameVal;

verus! {

/// A classified parsing failure. Every failure of this crate is returned as
/// a value of this type, never thrown, so callers can branch on it.
#[derive(Debug)]
pub enum ParseError {
    /// The raw response is not syntactically valid JSON; carries the error
    /// of the JSON text parser.
    InvalidJson(serde_json::Error),
    /// A required field is absent or of the wrong type; carries the field
    /// name.
    MissingField(String),
    /// No registered translator claims the extracted model identifier;
    /// carries the identifier.
    UnsupportedModel(String),
    /// A translator-defined failure not covered by the other kinds; carries
    /// a free-form message.
    Other(String),
}

/// The model of a [`ParseError`]: the kind together with what it carries.
/// The payload of an invalid-JSON error is the text parser's own value and
/// is not modelled.
pub enum ErrorVal {
    InvalidJson,
    MissingField(Seq<char>),
    UnsupportedModel(Seq<char>),
    Other(Seq<char>),
}

impl ParseError {
    /// The model this error denotes.
    pub open spec fn view(&self) -> ErrorVal {
        match self {
            ParseError::InvalidJson(_) => ErrorVal::InvalidJson,
            ParseError::MissingField(f) => ErrorVal::MissingField(f@),
            ParseError::UnsupportedModel(m) => ErrorVal::UnsupportedModel(m@),
            ParseError::Other(m) => ErrorVal::Other(m@),
        }
    }
}

/// The model of a parse outcome: the frame's or the error's own model.
pub open spec fn frame_result_view(r: Result<ContentFrame, ParseError>) -> Result<
    FrameVal,
    ErrorVal,
> {
    match r {
        Ok(f) => Ok(f@),
        Err(e) => Err(e@),
    }
}

/// The capability every provider-specific translator must expose.
///
/// A translator is a pure value: both what it claims to handle and what it
/// parses a raw response to are functions of the translator and its input
/// alone, stated by the `spec_` functions that every implementation
/// provides. The registry dispatches on [`ModelResponseParser::can_handle`]
/// and delegates the entire raw response to
/// [`ModelResponseParser::parse`].
pub trait ModelResponseParser: Sized {
    /// The model identifiers this translator claims, in order. A
    /// translator that does not say otherwise claims none.
    open spec fn spec_supported_models(&self) -> Seq<Seq<char>> {
        Seq::empty()
    }

    /// Which model identifiers this translator handles. By default exact,
    /// case-sensitive membership in the supported list; an implementation
    /// may choose a broader match (a prefix, a pattern) instead.
    open spec fn spec_can_handle(&self, model: Seq<char>) -> bool {
        self.spec_supported_models().contains(model)
    }

    /// The outcome of this translator on a raw response. A translator that
    /// does not say otherwise leaves its outcome unspecified.
    open spec fn spec_parse(&self, raw: Seq<char>) -> Result<FrameVal, ErrorVal> {
        arbitrary()
    }

    /// The model identifier strings this translator claims to handle.
    /// Cheap and deterministic: no I/O.
    fn supported_models(&self) -> (r: Vec<String>)
        ensures
            r.deep_view() == self.spec_supported_models(),
    ;

    /// Parses a full raw response into a normalized frame, or fails with a
    /// classified error. A pure function of its input.
    fn parse(&self, raw_response: &str) -> (r: Result<ContentFrame, ParseError>)
        ensures
            frame_result_view(r) == self.spec_parse(raw_response@),
    ;

    /// Whether this translator handles the given model identifier. The
    /// expected implementation is [`models_contain`] over
    /// [`ModelResponseParser::supported_models`]: exact, case-sensitive
    /// membership; an implementation may match more broadly instead, as
    /// long as its own `spec_can_handle` says so.
    fn can_handle(&self, model: &str) -> (r: bool)
        ensures
            r == self.spec_can_handle(model@),
    ;
}

/// Whether `model` appears among `models`: the exact, case-sensitive
/// membership test that `can_handle` performs unless a translator chooses
/// a broader match.
pub fn models_contain(models: &Vec<String>, model: &str) -> (r: bool)
    ensures
        r == models.deep_view().contains(model@),
{
    let mut i: usize = 0;
    while i < models.len()
        invariant
            0 <= i <= models.len(),
            forall|j: int| 0 <= j < i ==> models.deep_view()[j] != model@,
        decreases models.len() - i,
    {
        if string_eq_str(&models[i], model) {
            assert(models.deep_view()[i as int] == model@);
            return true;
        }
        i += 1;
    }
    assert(forall|j: int| 0 <= j < models.deep_view().len() ==> models.deep_view()[j] != model@);
    false
}

} // verus!
