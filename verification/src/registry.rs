//! Registry of model translators.
//!
//! The registry holds an ordered, append-only collection of translators
//! and parses a raw response by handing it to the first registered
//! translator that claims the response's model identifier. What a call to
//! [`ParserRegistry::parse`] yields is pinned down, for every outcome, by
//! [`registry_parse_spec`].

use vstd::prelude::*;
use vstd::string::StringExecFns;

use crate::json::JsonVal;
use crate::json::JsonValue;
use crate::json::json_get;
use crate::normalized::ContentFrame;
use crate::normalized::FrameVal;
use crate::parser::ErrorVal;
use crate::parser::ModelResponseParser;
use crate::parser::ParseError;
use crate::parser::frame_result_view;
use crate::raw::json_doc;
use crate::raw::parse_json;

verus! {

/// The model identifier a document carries: the string under its top-level
/// `model` member, when the document is an object with such a member.
pub open spec fn spec_model_of(d: JsonVal) -> Option<Seq<char>> {
    match json_get(d, "model"@) {
        Some(JsonVal::Str(m)) => Some(m),
        _ => None,
    }
}

/// The position of the first translator claiming `m`, scanning from
/// position `i` on in registration order.
pub open spec fn first_match_from<P: ModelResponseParser>(
    ps: Seq<P>,
    m: Seq<char>,
    i: int,
) -> Option<int>
    decreases ps.len() - i,
{
    if i < 0 || ps.len() <= i {
        None
    } else if ps[i].spec_can_handle(m) {
        Some(i)
    } else {
        first_match_from(ps, m, i + 1)
    }
}

/// The position of the first registered translator claiming `m`.
pub open spec fn first_match<P: ModelResponseParser>(ps: Seq<P>, m: Seq<char>) -> Option<int> {
    first_match_from(ps, m, 0)
}

/// What parsing a raw response against the translators `ps` yields:
/// an invalid-input error when the response is not well-formed JSON, a
/// missing-field error naming `model` when its document carries no model
/// identifier, the outcome of the first translator claiming the identifier
/// otherwise, and an unsupported-model error carrying the identifier when
/// no translator claims it.
pub open spec fn registry_parse_spec<P: ModelResponseParser>(ps: Seq<P>, raw: Seq<char>) -> Result<
    FrameVal,
    ErrorVal,
> {
    match json_doc(raw) {
        None => Err(ErrorVal::InvalidJson),
        Some(d) => match spec_model_of(d) {
            None => Err(ErrorVal::MissingField("model"@)),
            Some(m) => match first_match(ps, m) {
                Some(i) => ps[i].spec_parse(raw),
                None => Err(ErrorVal::UnsupportedModel(m)),
            },
        },
    }
}

/// Scanning past translators that do not claim `m` does not change which
/// translator is found.
pub proof fn lemma_first_match_skip<P: ModelResponseParser>(ps: Seq<P>, m: Seq<char>, i: int)
    requires
        0 <= i <= ps.len(),
        forall|j: int| 0 <= j < i ==> !ps[j].spec_can_handle(m),
    ensures
        first_match(ps, m) == first_match_from(ps, m, i),
    decreases i,
{
    if i > 0 {
        lemma_first_match_skip(ps, m, i - 1);
    }
}

/// What the scan from position `i` finds: the first claimant at or past
/// `i`, or nothing when no translator at or past `i` claims `m`.
pub proof fn lemma_first_match_from_spec<P: ModelResponseParser>(ps: Seq<P>, m: Seq<char>, i: int)
    requires
        0 <= i <= ps.len(),
    ensures
        match first_match_from(ps, m, i) {
            Some(k) => i <= k < ps.len() && ps[k].spec_can_handle(m) && (forall|l: int|
                i <= l < k ==> !ps[l].spec_can_handle(m)),
            None => forall|l: int| i <= l < ps.len() ==> !ps[l].spec_can_handle(m),
        },
    decreases ps.len() - i,
{
    if i < ps.len() && !ps[i].spec_can_handle(m) {
        lemma_first_match_from_spec(ps, m, i + 1);
    }
}

/// First-match priority: when two translators both claim `m`, dispatch
/// always picks the one registered first. The chosen position is no later
/// than either claimant — in particular never the later of the two — and
/// everything registered before it does not claim `m`.
pub proof fn lemma_first_match_priority<P: ModelResponseParser>(
    ps: Seq<P>,
    m: Seq<char>,
    i: int,
    j: int,
)
    requires
        0 <= i < j < ps.len(),
        ps[i].spec_can_handle(m),
        ps[j].spec_can_handle(m),
    ensures
        first_match(ps, m) matches Some(k) && 0 <= k <= i && ps[k].spec_can_handle(m) && (forall|
            l: int,
        |
            0 <= l < k ==> !ps[l].spec_can_handle(m)),
{
    lemma_first_match_from_spec(ps, m, 0);
}

/// Missing-model detection: a raw response whose document carries no
/// top-level `model` string always yields a missing-field error naming
/// `model`, no matter which or how many translators are registered.
pub proof fn lemma_missing_model<P: ModelResponseParser>(ps: Seq<P>, raw: Seq<char>)
    requires
        json_doc(raw) matches Some(d) && spec_model_of(d) is None,
    ensures
        registry_parse_spec(ps, raw) == Err::<FrameVal, ErrorVal>(ErrorVal::MissingField("model"@)),
{
}

/// Unsupported-model passthrough: when no registered translator claims the
/// model identifier a raw response carries, the outcome is an
/// unsupported-model error carrying exactly that identifier.
pub proof fn lemma_unsupported_model<P: ModelResponseParser>(
    ps: Seq<P>,
    raw: Seq<char>,
    m: Seq<char>,
)
    requires
        json_doc(raw) matches Some(d) && spec_model_of(d) == Some(m),
        forall|i: int| 0 <= i < ps.len() ==> !ps[i].spec_can_handle(m),
    ensures
        registry_parse_spec(ps, raw) == Err::<FrameVal, ErrorVal>(ErrorVal::UnsupportedModel(m)),
{
    lemma_first_match_skip(ps, m, ps.len() as int);
}

/// Dispatch determinism: the outcome of `parse` is a function of the
/// registered translators and the raw response alone, so any two outcomes
/// of the same registry on the same raw response are equal.
pub proof fn lemma_dispatch_deterministic<P: ModelResponseParser>(
    ps: Seq<P>,
    raw: Seq<char>,
    r1: Result<FrameVal, ErrorVal>,
    r2: Result<FrameVal, ErrorVal>,
)
    requires
        r1 == registry_parse_spec(ps, raw),
        r2 == registry_parse_spec(ps, raw),
    ensures
        r1 == r2,
{
}

/// Registry of model translators.
///
/// The registry maintains an ordered collection of translators and parses
/// a raw response by selecting the first translator, in registration
/// order, that claims the response's model identifier. It is stateless
/// across calls beyond that collection.
pub struct ParserRegistry<P: ModelResponseParser> {
    parsers: Vec<P>,
}

impl<P: ModelResponseParser> ParserRegistry<P> {
    /// The registered translators, in registration order.
    pub closed spec fn view(&self) -> Seq<P> {
        self.parsers@
    }

    /// Creates a new registry with no registered translators.
    pub fn new() -> (r: Self)
        ensures
            r@ == Seq::<P>::empty(),
    {
        ParserRegistry { parsers: Vec::new() }
    }

    /// The number of registered translators.
    pub fn parser_count(&self) -> (n: usize)
        ensures
            n == self@.len(),
    {
        self.parsers.len()
    }

    /// Appends a translator. There is no uniqueness check: several
    /// translators may claim the same model identifier, and registration
    /// order becomes the tie-break priority.
    pub fn register_parser(&mut self, parser: P)
        ensures
            final(self)@ == old(self)@.push(parser),
    {
        self.parsers.push(parser);
    }

    /// Extracts the model identifier from a raw response: parses it as
    /// JSON and reads the top-level `model` member. Fails with an
    /// invalid-input error exactly when the response is not well-formed
    /// JSON, and with a missing-field error naming `model` exactly when
    /// its document carries no top-level `model` string.
    pub fn extract_model(raw_response: &str) -> (r: Result<String, ParseError>)
        ensures
            match r {
                Ok(m) => json_doc(raw_response@) matches Some(d) && spec_model_of(d) == Some(m@),
                Err(e) => match e@ {
                    ErrorVal::InvalidJson => json_doc(raw_response@) is None,
                    ErrorVal::MissingField(f) => f == "model"@ && (json_doc(
                        raw_response@,
                    ) matches Some(d) && spec_model_of(d) is None),
                    _ => false,
                },
            },
    {
        let v = match parse_json(raw_response) {
            Ok(v) => v,
            Err(e) => return Err(e),
        };
        match v.get("model") {
            Some(JsonValue::Str(m)) => Ok(m.clone()),
            _ => Err(ParseError::MissingField(String::from_str("model"))),
        }
    }

    /// Parses a raw LLM response: extracts the model identifier, scans the
    /// registered translators in registration order, and delegates the
    /// entire original raw response to the first translator claiming the
    /// identifier, returning its outcome — success or failure — unchanged.
    /// The outcome is exactly [`registry_parse_spec`] of the registered
    /// translators and the response.
    #[verifier::loop_isolation(false)]
    pub fn parse(&self, raw_response: &str) -> (r: Result<ContentFrame, ParseError>)
        ensures
            frame_result_view(r) == registry_parse_spec(self@, raw_response@),
    {
        let model = match Self::extract_model(raw_response) {
            Ok(m) => m,
            Err(e) => return Err(e),
        };
        let mut i: usize = 0;
        while i < self.parsers.len()
            invariant
                0 <= i <= self.parsers.len(),
                forall|j: int| 0 <= j < i ==> !self.parsers@[j].spec_can_handle(model@),
            decreases self.parsers.len() - i,
        {
            if self.parsers[i].can_handle(model.as_str()) {
                proof {
                    lemma_first_match_skip(self.parsers@, model@, i as int);
                }
                return self.parsers[i].parse(raw_response);
            }
            i += 1;
        }
        proof {
            lemma_first_match_skip(self.parsers@, model@, self.parsers@.len() as int);
        }
        Err(ParseError::UnsupportedModel(model))
    }
}

impl<P: ModelResponseParser> Default for ParserRegistry<P> {
    /// A registry with no registered translators.
    fn default() -> (r: Self)
        ensures
            r@ == Seq::<P>::empty(),
    {
        ParserRegistry::new()
    }
}

} // verus!
