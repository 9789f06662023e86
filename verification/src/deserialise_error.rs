//! The closed error taxonomy.  Every layer of the deserializer returns the
//! first error it encounters; there is no partial result.

use vstd::prelude::*;

verus! {

/// The reason an enumerated token could not be resolved: the token itself.
#[derive(Debug, Clone, PartialEq)]
pub struct ParseEnumError {
    pub enum_string: String,
}

/// Spec-level mirror of [`ParseEnumError`]: the offending token.
pub type ParseEnumErrorV = Seq<char>;

impl View for ParseEnumError {
    type V = ParseEnumErrorV;

    open spec fn view(&self) -> ParseEnumErrorV {
        self.enum_string@
    }
}

impl ParseEnumError {
    pub fn enum_not_found(enum_string: &str) -> (r: ParseEnumError)
        ensures
            r@ == enum_string@,
    {
        ParseEnumError { enum_string: enum_string.to_owned() }
    }
}

/// A failure of the deserializer.  All variants are fatal to the enclosing
/// parse; callers are expected to reject the whole document.
#[derive(Debug, Clone, PartialEq)]
pub enum DeserialiseError {
    /// The underlying XML tokenizer failed (malformed document or an
    /// unresolvable text reference).
    QuickXMLError(String),
    /// Invalid byte sequence in text content.
    Utf8Error(String),
    /// An integer field held non-numeric text.
    ParseIntError(String),
    /// A floating-point field held non-numeric text.
    ParseFloatError(String),
    /// A timestamp field was not in the expected offset-aware format.
    ParseDateError(String),
    /// A reference group did not have the expected shape.
    ParseReference(String),
    /// A general structural contradiction, with a message.
    Error(String),
    /// Text content was required but missing.
    TextNotFound(String),
    /// An unknown child element where only a fixed vocabulary is allowed.
    TagNotRecognised(String),
    /// A required tag was missing.
    TagNotFound(String),
    /// A child element appeared where it is not permitted.
    TagNotExpected(String),
    /// A structural enumerated token could not be resolved.
    ParseEnumError(ParseEnumError),
    /// The document ended before a required closing tag.
    EofReached,
    /// An event kind the dispatcher has no case for.
    UnknownEvent(String),
    /// The document contains none of the recognized CAP namespace URNs.
    NameSpaceNotFound,
}

/// Spec-level mirror of [`DeserialiseError`].
pub enum DeserialiseErrorV {
    QuickXMLError(Seq<char>),
    Utf8Error(Seq<char>),
    ParseIntError(Seq<char>),
    ParseFloatError(Seq<char>),
    ParseDateError(Seq<char>),
    ParseReference(Seq<char>),
    Error(Seq<char>),
    TextNotFound(Seq<char>),
    TagNotRecognised(Seq<char>),
    TagNotFound(Seq<char>),
    TagNotExpected(Seq<char>),
    ParseEnumError(ParseEnumErrorV),
    EofReached,
    UnknownEvent(Seq<char>),
    NameSpaceNotFound,
}

impl View for DeserialiseError {
    type V = DeserialiseErrorV;

    open spec fn view(&self) -> DeserialiseErrorV {
        match self {
            DeserialiseError::QuickXMLError(m) => DeserialiseErrorV::QuickXMLError(m@),
            DeserialiseError::Utf8Error(m) => DeserialiseErrorV::Utf8Error(m@),
            DeserialiseError::ParseIntError(m) => DeserialiseErrorV::ParseIntError(m@),
            DeserialiseError::ParseFloatError(m) => DeserialiseErrorV::ParseFloatError(m@),
            DeserialiseError::ParseDateError(m) => DeserialiseErrorV::ParseDateError(m@),
            DeserialiseError::ParseReference(m) => DeserialiseErrorV::ParseReference(m@),
            DeserialiseError::Error(m) => DeserialiseErrorV::Error(m@),
            DeserialiseError::TextNotFound(m) => DeserialiseErrorV::TextNotFound(m@),
            DeserialiseError::TagNotRecognised(m) => DeserialiseErrorV::TagNotRecognised(m@),
            DeserialiseError::TagNotFound(m) => DeserialiseErrorV::TagNotFound(m@),
            DeserialiseError::TagNotExpected(m) => DeserialiseErrorV::TagNotExpected(m@),
            DeserialiseError::ParseEnumError(e) => DeserialiseErrorV::ParseEnumError(e@),
            DeserialiseError::EofReached => DeserialiseErrorV::EofReached,
            DeserialiseError::UnknownEvent(m) => DeserialiseErrorV::UnknownEvent(m@),
            DeserialiseError::NameSpaceNotFound => DeserialiseErrorV::NameSpaceNotFound,
        }
    }
}

/// The message carried by [`DeserialiseError::Error`] built from a raw text.
pub open spec fn sp_error_msg(m: Seq<char>) -> Seq<char> {
    m
}

/// The message carried by [`DeserialiseError::TextNotFound`].
pub open spec fn sp_text_not_found_msg(m: Seq<char>) -> Seq<char> {
    "Text not found: "@ + m
}

/// The message carried by [`DeserialiseError::TagNotRecognised`].
pub open spec fn sp_tag_not_recognised_msg(tag: Seq<char>) -> Seq<char> {
    "Tag not recognised: "@ + tag
}

/// The message carried by [`DeserialiseError::TagNotFound`].
pub open spec fn sp_tag_not_found_msg(tag: Seq<char>) -> Seq<char> {
    "Tag not found: "@ + tag
}

/// The message carried by [`DeserialiseError::TagNotExpected`].
pub open spec fn sp_tag_not_expected_msg(tag: Seq<char>) -> Seq<char> {
    "Tag not expected: "@ + tag
}

impl DeserialiseError {
    pub fn error(error_message: &str) -> (r: Self)
        ensures
            r@ == DeserialiseErrorV::Error(sp_error_msg(error_message@)),
    {
        DeserialiseError::Error(error_message.to_owned())
    }

    pub fn text_not_found(error_message: &str) -> (r: Self)
        ensures
            r@ == DeserialiseErrorV::TextNotFound(sp_text_not_found_msg(error_message@)),
    {
        DeserialiseError::TextNotFound("Text not found: ".to_owned().concat(error_message))
    }

    pub fn tag_not_recognised(tag_name: &str) -> (r: Self)
        ensures
            r@ == DeserialiseErrorV::TagNotRecognised(sp_tag_not_recognised_msg(tag_name@)),
    {
        DeserialiseError::TagNotRecognised("Tag not recognised: ".to_owned().concat(tag_name))
    }

    pub fn tag_not_found(tag_name: &str) -> (r: Self)
        ensures
            r@ == DeserialiseErrorV::TagNotFound(sp_tag_not_found_msg(tag_name@)),
    {
        DeserialiseError::TagNotFound("Tag not found: ".to_owned().concat(tag_name))
    }

    pub fn tag_not_expected(tag_name: &str) -> (r: Self)
        ensures
            r@ == DeserialiseErrorV::TagNotExpected(sp_tag_not_expected_msg(tag_name@)),
    {
        DeserialiseError::TagNotExpected("Tag not expected: ".to_owned().concat(tag_name))
    }

    pub fn enum_not_found(expected_enum: &str) -> (r: Self)
        ensures
            r@ == DeserialiseErrorV::ParseEnumError(expected_enum@),
    {
        DeserialiseError::ParseEnumError(ParseEnumError::enum_not_found(expected_enum))
    }

    pub fn unknown_event(event: &str) -> (r: Self)
        ensures
            r@ == DeserialiseErrorV::UnknownEvent(event@),
    {
        DeserialiseError::UnknownEvent(event.to_owned())
    }
}

} // verus!
