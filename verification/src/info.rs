//! The `info` element: one language/audience-specific rendition of an
//! alert's content and affected areas, with its closed enumerated fields.

use vstd::prelude::*;
use crate::area::{lemma_area_progress, sp_area, sp_area_init, Area, AreaV, AREA_TAG};
use crate::deserialise_error::{
    sp_tag_not_expected_msg, DeserialiseError, DeserialiseErrorV, ParseEnumError,
};
use crate::event_code::{
    lemma_event_code_progress, sp_event_code, EventCode, EventCodeV, EVENT_CODE_TAG,
};
use crate::parameter::{lemma_parameter_progress, sp_parameter, Parameter, ParameterV, PARAMETER_TAG};
use crate::resource::{
    lemma_resource_progress, sp_resource, sp_resource_init, Resource, ResourceV, RESOURCE_TAG,
};
use crate::text::str_eq;
use crate::timestamp::{sp_timestamp, Timestamp, TimestampV};
use crate::utilities::{lemma_read_string_progress, read_string, sp_read_string, sp_step};
use crate::xml_events::{EventV, XmlEvent};

verus! {

pub const INFO_TAG: &'static str = "info";

pub const DEFAULT_LANGUAGE: &'static str = "en-US";

/// The category of the subject event of an info block.
#[derive(PartialEq, Eq, Structural, Debug, Clone, Copy)]
pub enum Category {
    Geological,
    Meteorological,
    Safety,
    Security,
    Rescue,
    Fire,
    Health,
    Environmental,
    Transport,
    Infrastructure,
    CBRNE,
    Other,
}

impl View for Category {
    type V = Category;

    open spec fn view(&self) -> Category {
        *self
    }
}

impl DeepView for Category {
    type V = Category;

    open spec fn deep_view(&self) -> Category {
        *self
    }
}

pub open spec fn sp_category_from(s: Seq<char>) -> Option<Category> {
    if s == "Geo"@ {
        Some(Category::Geological)
    } else if s == "Met"@ {
        Some(Category::Meteorological)
    } else if s == "Safety"@ {
        Some(Category::Safety)
    } else if s == "Security"@ {
        Some(Category::Security)
    } else if s == "Rescue"@ {
        Some(Category::Rescue)
    } else if s == "Fire"@ {
        Some(Category::Fire)
    } else if s == "Health"@ {
        Some(Category::Health)
    } else if s == "Env"@ {
        Some(Category::Environmental)
    } else if s == "Transport"@ {
        Some(Category::Transport)
    } else if s == "Infra"@ {
        Some(Category::Infrastructure)
    } else if s == "CBRNE"@ {
        Some(Category::CBRNE)
    } else if s == "Other"@ {
        Some(Category::Other)
    } else {
        None
    }
}

impl Category {
    /// Lenient resolution at call sites: the caller drops the field when
    /// the token is unrecognized.
    pub fn from_str(enum_string: &str) -> (r: Result<Category, ParseEnumError>)
        ensures
            match r {
                Ok(v) => sp_category_from(enum_string@) == Some(v),
                Err(e) => sp_category_from(enum_string@) is None && e@ == enum_string@,
            },
    {
        if crate::text::str_eq(enum_string, "Geo") {
            Ok(Category::Geological)
        } else if crate::text::str_eq(enum_string, "Met") {
            Ok(Category::Meteorological)
        } else if crate::text::str_eq(enum_string, "Safety") {
            Ok(Category::Safety)
        } else if crate::text::str_eq(enum_string, "Security") {
            Ok(Category::Security)
        } else if crate::text::str_eq(enum_string, "Rescue") {
            Ok(Category::Rescue)
        } else if crate::text::str_eq(enum_string, "Fire") {
            Ok(Category::Fire)
        } else if crate::text::str_eq(enum_string, "Health") {
            Ok(Category::Health)
        } else if crate::text::str_eq(enum_string, "Env") {
            Ok(Category::Environmental)
        } else if crate::text::str_eq(enum_string, "Transport") {
            Ok(Category::Transport)
        } else if crate::text::str_eq(enum_string, "Infra") {
            Ok(Category::Infrastructure)
        } else if crate::text::str_eq(enum_string, "CBRNE") {
            Ok(Category::CBRNE)
        } else if crate::text::str_eq(enum_string, "Other") {
            Ok(Category::Other)
        } else {
            Err(ParseEnumError::enum_not_found(enum_string))
        }
    }

    /// The protocol token of this value.
    pub fn as_str(&self) -> (r: &'static str)
        ensures
            sp_category_from(r@) == Some(*self),
    {
        proof {
            lemma_category_tokens();
        }
        match self {
            Category::Geological => "Geo",
            Category::Meteorological => "Met",
            Category::Safety => "Safety",
            Category::Security => "Security",
            Category::Rescue => "Rescue",
            Category::Fire => "Fire",
            Category::Health => "Health",
            Category::Environmental => "Env",
            Category::Transport => "Transport",
            Category::Infrastructure => "Infra",
            Category::CBRNE => "CBRNE",
            Category::Other => "Other",
        }
    }
}

/// Each token of the closed set resolves to its own variant.
pub proof fn lemma_category_tokens()
    ensures
        sp_category_from("Geo"@) == Some(Category::Geological),
        sp_category_from("Met"@) == Some(Category::Meteorological),
        sp_category_from("Safety"@) == Some(Category::Safety),
        sp_category_from("Security"@) == Some(Category::Security),
        sp_category_from("Rescue"@) == Some(Category::Rescue),
        sp_category_from("Fire"@) == Some(Category::Fire),
        sp_category_from("Health"@) == Some(Category::Health),
        sp_category_from("Env"@) == Some(Category::Environmental),
        sp_category_from("Transport"@) == Some(Category::Transport),
        sp_category_from("Infra"@) == Some(Category::Infrastructure),
        sp_category_from("CBRNE"@) == Some(Category::CBRNE),
        sp_category_from("Other"@) == Some(Category::Other),
{
    reveal_strlit("Geo");
    reveal_strlit("Met");
    reveal_strlit("Safety");
    reveal_strlit("Security");
    reveal_strlit("Rescue");
    reveal_strlit("Fire");
    reveal_strlit("Health");
    reveal_strlit("Env");
    reveal_strlit("Transport");
    reveal_strlit("Infra");
    reveal_strlit("CBRNE");
    reveal_strlit("Other");
    assert("Geo"@.len() == 3);
    assert("Met"@.len() == 3);
    assert("Safety"@.len() == 6);
    assert("Security"@.len() == 8);
    assert("Rescue"@.len() == 6);
    assert("Fire"@.len() == 4);
    assert("Health"@.len() == 6);
    assert("Env"@.len() == 3);
    assert("Transport"@.len() == 9);
    assert("Infra"@.len() == 5);
    assert("CBRNE"@.len() == 5);
    assert("Other"@.len() == 5);
    assert("Geo"@[0] == 'G' && "Geo"@[1] == 'e');
    assert("Met"@[0] == 'M' && "Met"@[1] == 'e');
    assert("Env"@[0] == 'E' && "Env"@[1] == 'n');
    assert("Safety"@[0] == 'S' && "Safety"@[1] == 'a');
    assert("Rescue"@[0] == 'R' && "Rescue"@[1] == 'e');
    assert("Health"@[0] == 'H' && "Health"@[1] == 'e');
    assert("Infra"@[0] == 'I' && "Infra"@[1] == 'n');
    assert("CBRNE"@[0] == 'C' && "CBRNE"@[1] == 'B');
    assert("Other"@[0] == 'O' && "Other"@[1] == 't');
}

/// The urgency of the recommended action.
#[derive(PartialEq, Eq, Structural, Debug, Clone, Copy)]
pub enum Urgency {
    Immediate,
    Expected,
    Future,
    Past,
    Unknown,
}

impl View for Urgency {
    type V = Urgency;

    open spec fn view(&self) -> Urgency {
        *self
    }
}

impl DeepView for Urgency {
    type V = Urgency;

    open spec fn deep_view(&self) -> Urgency {
        *self
    }
}

pub open spec fn sp_urgency_from(s: Seq<char>) -> Option<Urgency> {
    if s == "Immediate"@ {
        Some(Urgency::Immediate)
    } else if s == "Expected"@ {
        Some(Urgency::Expected)
    } else if s == "Future"@ {
        Some(Urgency::Future)
    } else if s == "Past"@ {
        Some(Urgency::Past)
    } else if s == "Unknown"@ {
        Some(Urgency::Unknown)
    } else {
        None
    }
}

impl Urgency {
    /// Lenient resolution at call sites: the caller drops the field when
    /// the token is unrecognized.
    pub fn from_str(enum_string: &str) -> (r: Result<Urgency, ParseEnumError>)
        ensures
            match r {
                Ok(v) => sp_urgency_from(enum_string@) == Some(v),
                Err(e) => sp_urgency_from(enum_string@) is None && e@ == enum_string@,
            },
    {
        if crate::text::str_eq(enum_string, "Immediate") {
            Ok(Urgency::Immediate)
        } else if crate::text::str_eq(enum_string, "Expected") {
            Ok(Urgency::Expected)
        } else if crate::text::str_eq(enum_string, "Future") {
            Ok(Urgency::Future)
        } else if crate::text::str_eq(enum_string, "Past") {
            Ok(Urgency::Past)
        } else if crate::text::str_eq(enum_string, "Unknown") {
            Ok(Urgency::Unknown)
        } else {
            Err(ParseEnumError::enum_not_found(enum_string))
        }
    }

    /// The protocol token of this value.
    pub fn as_str(&self) -> (r: &'static str)
        ensures
            sp_urgency_from(r@) == Some(*self),
    {
        proof {
            lemma_urgency_tokens();
        }
        match self {
            Urgency::Immediate => "Immediate",
            Urgency::Expected => "Expected",
            Urgency::Future => "Future",
            Urgency::Past => "Past",
            Urgency::Unknown => "Unknown",
        }
    }
}

/// Each token of the closed set resolves to its own variant.
pub proof fn lemma_urgency_tokens()
    ensures
        sp_urgency_from("Immediate"@) == Some(Urgency::Immediate),
        sp_urgency_from("Expected"@) == Some(Urgency::Expected),
        sp_urgency_from("Future"@) == Some(Urgency::Future),
        sp_urgency_from("Past"@) == Some(Urgency::Past),
        sp_urgency_from("Unknown"@) == Some(Urgency::Unknown),
{
    reveal_strlit("Immediate");
    reveal_strlit("Expected");
    reveal_strlit("Future");
    reveal_strlit("Past");
    reveal_strlit("Unknown");
    assert("Immediate"@.len() == 9);
    assert("Expected"@.len() == 8);
    assert("Future"@.len() == 6);
    assert("Past"@.len() == 4);
    assert("Unknown"@.len() == 7);

}

/// The severity of the subject event.
#[derive(PartialEq, Eq, Structural, Debug, Clone, Copy)]
pub enum Severity {
    Extreme,
    Severe,
    Moderate,
    Minor,
    Unknown,
}

impl View for Severity {
    type V = Severity;

    open spec fn view(&self) -> Severity {
        *self
    }
}

impl DeepView for Severity {
    type V = Severity;

    open spec fn deep_view(&self) -> Severity {
        *self
    }
}

pub open spec fn sp_severity_from(s: Seq<char>) -> Option<Severity> {
    if s == "Extreme"@ {
        Some(Severity::Extreme)
    } else if s == "Severe"@ {
        Some(Severity::Severe)
    } else if s == "Moderate"@ {
        Some(Severity::Moderate)
    } else if s == "Minor"@ {
        Some(Severity::Minor)
    } else if s == "Unknown"@ {
        Some(Severity::Unknown)
    } else {
        None
    }
}

impl Severity {
    /// Lenient resolution at call sites: the caller drops the field when
    /// the token is unrecognized.
    pub fn from_str(enum_string: &str) -> (r: Result<Severity, ParseEnumError>)
        ensures
            match r {
                Ok(v) => sp_severity_from(enum_string@) == Some(v),
                Err(e) => sp_severity_from(enum_string@) is None && e@ == enum_string@,
            },
    {
        if crate::text::str_eq(enum_string, "Extreme") {
            Ok(Severity::Extreme)
        } else if crate::text::str_eq(enum_string, "Severe") {
            Ok(Severity::Severe)
        } else if crate::text::str_eq(enum_string, "Moderate") {
            Ok(Severity::Moderate)
        } else if crate::text::str_eq(enum_string, "Minor") {
            Ok(Severity::Minor)
        } else if crate::text::str_eq(enum_string, "Unknown") {
            Ok(Severity::Unknown)
        } else {
            Err(ParseEnumError::enum_not_found(enum_string))
        }
    }

    /// The protocol token of this value.
    pub fn as_str(&self) -> (r: &'static str)
        ensures
            sp_severity_from(r@) == Some(*self),
    {
        proof {
            lemma_severity_tokens();
        }
        match self {
            Severity::Extreme => "Extreme",
            Severity::Severe => "Severe",
            Severity::Moderate => "Moderate",
            Severity::Minor => "Minor",
            Severity::Unknown => "Unknown",
        }
    }
}

/// Each token of the closed set resolves to its own variant.
pub proof fn lemma_severity_tokens()
    ensures
        sp_severity_from("Extreme"@) == Some(Severity::Extreme),
        sp_severity_from("Severe"@) == Some(Severity::Severe),
        sp_severity_from("Moderate"@) == Some(Severity::Moderate),
        sp_severity_from("Minor"@) == Some(Severity::Minor),
        sp_severity_from("Unknown"@) == Some(Severity::Unknown),
{
    reveal_strlit("Extreme");
    reveal_strlit("Severe");
    reveal_strlit("Moderate");
    reveal_strlit("Minor");
    reveal_strlit("Unknown");
    assert("Extreme"@.len() == 7);
    assert("Severe"@.len() == 6);
    assert("Moderate"@.len() == 8);
    assert("Minor"@.len() == 5);
    assert("Unknown"@.len() == 7);
    assert("Extreme"@[0] == 'E' && "Extreme"@[1] == 'x');
    assert("Unknown"@[0] == 'U' && "Unknown"@[1] == 'n');
}

/// The certainty of the subject event.
#[derive(PartialEq, Eq, Structural, Debug, Clone, Copy)]
pub enum Certainty {
    Observed,
    VeryLikely,
    Likely,
    Possible,
    Unlikely,
    Unknown,
}

impl View for Certainty {
    type V = Certainty;

    open spec fn view(&self) -> Certainty {
        *self
    }
}

impl DeepView for Certainty {
    type V = Certainty;

    open spec fn deep_view(&self) -> Certainty {
        *self
    }
}

pub open spec fn sp_certainty_from(s: Seq<char>) -> Option<Certainty> {
    if s == "Observed"@ {
        Some(Certainty::Observed)
    } else if s == "VeryLikely"@ {
        Some(Certainty::VeryLikely)
    } else if s == "Likely"@ {
        Some(Certainty::Likely)
    } else if s == "Possible"@ {
        Some(Certainty::Possible)
    } else if s == "Unlikely"@ {
        Some(Certainty::Unlikely)
    } else if s == "Unknown"@ {
        Some(Certainty::Unknown)
    } else {
        None
    }
}

impl Certainty {
    /// Lenient resolution at call sites: the caller drops the field when
    /// the token is unrecognized.
    pub fn from_str(enum_string: &str) -> (r: Result<Certainty, ParseEnumError>)
        ensures
            match r {
                Ok(v) => sp_certainty_from(enum_string@) == Some(v),
                Err(e) => sp_certainty_from(enum_string@) is None && e@ == enum_string@,
            },
    {
        if crate::text::str_eq(enum_string, "Observed") {
            Ok(Certainty::Observed)
        } else if crate::text::str_eq(enum_string, "VeryLikely") {
            Ok(Certainty::VeryLikely)
        } else if crate::text::str_eq(enum_string, "Likely") {
            Ok(Certainty::Likely)
        } else if crate::text::str_eq(enum_string, "Possible") {
            Ok(Certainty::Possible)
        } else if crate::text::str_eq(enum_string, "Unlikely") {
            Ok(Certainty::Unlikely)
        } else if crate::text::str_eq(enum_string, "Unknown") {
            Ok(Certainty::Unknown)
        } else {
            Err(ParseEnumError::enum_not_found(enum_string))
        }
    }

    /// The protocol token of this value.
    pub fn as_str(&self) -> (r: &'static str)
        ensures
            sp_certainty_from(r@) == Some(*self),
    {
        proof {
            lemma_certainty_tokens();
        }
        match self {
            Certainty::Observed => "Observed",
            Certainty::VeryLikely => "VeryLikely",
            Certainty::Likely => "Likely",
            Certainty::Possible => "Possible",
            Certainty::Unlikely => "Unlikely",
            Certainty::Unknown => "Unknown",
        }
    }
}

/// Each token of the closed set resolves to its own variant.
pub proof fn lemma_certainty_tokens()
    ensures
        sp_certainty_from("Observed"@) == Some(Certainty::Observed),
        sp_certainty_from("VeryLikely"@) == Some(Certainty::VeryLikely),
        sp_certainty_from("Likely"@) == Some(Certainty::Likely),
        sp_certainty_from("Possible"@) == Some(Certainty::Possible),
        sp_certainty_from("Unlikely"@) == Some(Certainty::Unlikely),
        sp_certainty_from("Unknown"@) == Some(Certainty::Unknown),
{
    reveal_strlit("Observed");
    reveal_strlit("VeryLikely");
    reveal_strlit("Likely");
    reveal_strlit("Possible");
    reveal_strlit("Unlikely");
    reveal_strlit("Unknown");
    assert("Observed"@.len() == 8);
    assert("VeryLikely"@.len() == 10);
    assert("Likely"@.len() == 6);
    assert("Possible"@.len() == 8);
    assert("Unlikely"@.len() == 8);
    assert("Unknown"@.len() == 7);
    assert("Observed"@[0] == 'O' && "Observed"@[1] == 'b');
    assert("Possible"@[0] == 'P' && "Possible"@[1] == 'o');
    assert("Unlikely"@[0] == 'U' && "Unlikely"@[1] == 'n');
}

/// The recommended type of action for the audience.
#[derive(PartialEq, Eq, Structural, Debug, Clone, Copy)]
pub enum ResponseType {
    AllClear,
    Assess,
    Avoid,
    Evacuate,
    Execute,
    Monitor,
    NoResponse,
    Prepare,
    Shelter,
}

impl View for ResponseType {
    type V = ResponseType;

    open spec fn view(&self) -> ResponseType {
        *self
    }
}

impl DeepView for ResponseType {
    type V = ResponseType;

    open spec fn deep_view(&self) -> ResponseType {
        *self
    }
}

pub open spec fn sp_response_type_from(s: Seq<char>) -> Option<ResponseType> {
    if s == "AllClear"@ {
        Some(ResponseType::AllClear)
    } else if s == "Assess"@ {
        Some(ResponseType::Assess)
    } else if s == "Avoid"@ {
        Some(ResponseType::Avoid)
    } else if s == "Evacuate"@ {
        Some(ResponseType::Evacuate)
    } else if s == "Execute"@ {
        Some(ResponseType::Execute)
    } else if s == "Monitor"@ {
        Some(ResponseType::Monitor)
    } else if s == "None"@ {
        Some(ResponseType::NoResponse)
    } else if s == "Prepare"@ {
        Some(ResponseType::Prepare)
    } else if s == "Shelter"@ {
        Some(ResponseType::Shelter)
    } else {
        None
    }
}

impl ResponseType {
    /// Lenient resolution at call sites: the caller drops the field when
    /// the token is unrecognized.
    pub fn from_str(enum_string: &str) -> (r: Result<ResponseType, ParseEnumError>)
        ensures
            match r {
                Ok(v) => sp_response_type_from(enum_string@) == Some(v),
                Err(e) => sp_response_type_from(enum_string@) is None && e@ == enum_string@,
            },
    {
        if crate::text::str_eq(enum_string, "AllClear") {
            Ok(ResponseType::AllClear)
        } else if crate::text::str_eq(enum_string, "Assess") {
            Ok(ResponseType::Assess)
        } else if crate::text::str_eq(enum_string, "Avoid") {
            Ok(ResponseType::Avoid)
        } else if crate::text::str_eq(enum_string, "Evacuate") {
            Ok(ResponseType::Evacuate)
        } else if crate::text::str_eq(enum_string, "Execute") {
            Ok(ResponseType::Execute)
        } else if crate::text::str_eq(enum_string, "Monitor") {
            Ok(ResponseType::Monitor)
        } else if crate::text::str_eq(enum_string, "None") {
            Ok(ResponseType::NoResponse)
        } else if crate::text::str_eq(enum_string, "Prepare") {
            Ok(ResponseType::Prepare)
        } else if crate::text::str_eq(enum_string, "Shelter") {
            Ok(ResponseType::Shelter)
        } else {
            Err(ParseEnumError::enum_not_found(enum_string))
        }
    }

    /// The protocol token of this value.
    pub fn as_str(&self) -> (r: &'static str)
        ensures
            sp_response_type_from(r@) == Some(*self),
    {
        proof {
            lemma_response_type_tokens();
        }
        match self {
            ResponseType::AllClear => "AllClear",
            ResponseType::Assess => "Assess",
            ResponseType::Avoid => "Avoid",
            ResponseType::Evacuate => "Evacuate",
            ResponseType::Execute => "Execute",
            ResponseType::Monitor => "Monitor",
            ResponseType::NoResponse => "None",
            ResponseType::Prepare => "Prepare",
            ResponseType::Shelter => "Shelter",
        }
    }
}

/// Each token of the closed set resolves to its own variant.
pub proof fn lemma_response_type_tokens()
    ensures
        sp_response_type_from("AllClear"@) == Some(ResponseType::AllClear),
        sp_response_type_from("Assess"@) == Some(ResponseType::Assess),
        sp_response_type_from("Avoid"@) == Some(ResponseType::Avoid),
        sp_response_type_from("Evacuate"@) == Some(ResponseType::Evacuate),
        sp_response_type_from("Execute"@) == Some(ResponseType::Execute),
        sp_response_type_from("Monitor"@) == Some(ResponseType::Monitor),
        sp_response_type_from("None"@) == Some(ResponseType::NoResponse),
        sp_response_type_from("Prepare"@) == Some(ResponseType::Prepare),
        sp_response_type_from("Shelter"@) == Some(ResponseType::Shelter),
{
    reveal_strlit("AllClear");
    reveal_strlit("Assess");
    reveal_strlit("Avoid");
    reveal_strlit("Evacuate");
    reveal_strlit("Execute");
    reveal_strlit("Monitor");
    reveal_strlit("None");
    reveal_strlit("Prepare");
    reveal_strlit("Shelter");
    assert("AllClear"@.len() == 8);
    assert("Assess"@.len() == 6);
    assert("Avoid"@.len() == 5);
    assert("Evacuate"@.len() == 8);
    assert("Execute"@.len() == 7);
    assert("Monitor"@.len() == 7);
    assert("None"@.len() == 4);
    assert("Prepare"@.len() == 7);
    assert("Shelter"@.len() == 7);
    assert("AllClear"@[0] == 'A' && "AllClear"@[1] == 'l');
    assert("Evacuate"@[0] == 'E' && "Evacuate"@[1] == 'v');
    assert("Execute"@[0] == 'E' && "Execute"@[1] == 'x');
    assert("Monitor"@[0] == 'M' && "Monitor"@[1] == 'o');
    assert("Prepare"@[0] == 'P' && "Prepare"@[1] == 'r');
    assert("Shelter"@[0] == 'S' && "Shelter"@[1] == 'h');
}

} // verus!

verus! {

/// The empty info block every read starts from; the language defaults to
/// `en-US` until the document overrides it.
pub open spec fn sp_info_init() -> InfoV {
    InfoV {
        areas: Seq::empty(),
        audience: None,
        categories: Seq::empty(),
        certainty: None,
        contact: None,
        description: None,
        effective: None,
        event_codes: Seq::empty(),
        event: None,
        expires: None,
        headline: None,
        instruction: None,
        language: Some(DEFAULT_LANGUAGE@),
        onset: None,
        parameters: Seq::empty(),
        resources: Seq::empty(),
        response_types: Seq::empty(),
        sender_name: None,
        severity: None,
        urgency: None,
        web: None,
    }
}

/// The info dispatch: scalar children overwrite, repeatable children
/// append in encountered order; enumerated descriptive fields resolve
/// leniently (an unrecognized token leaves the field unset); timestamp
/// fields resolve strictly; an unknown child under the matching namespace
/// is unexpected; events under any other namespace are skipped.
pub open spec fn sp_info(ns: Seq<char>, evs: Seq<EventV>, i: int, acc: InfoV) -> Result<
    (InfoV, int),
    DeserialiseErrorV,
>
    decreases evs.len() - i,
    when 0 <= i
{
    if i >= evs.len() {
        Err(DeserialiseErrorV::EofReached)
    } else {
        match evs[i] {
            EventV::Eof => Err(DeserialiseErrorV::EofReached),
            EventV::Fail { message } => Err(DeserialiseErrorV::QuickXMLError(message)),
            EventV::Start { ns: ens, name: tag } => {
                if ens == Some(ns) {
                    if tag == "audience"@ {
                        match sp_read_string(ns, evs, i + 1, "audience"@, Seq::<char>::empty()) {
                            Ok((t, j)) => {
                                proof {
                                    lemma_read_string_progress(ns, evs, i + 1, "audience"@, Seq::<char>::empty());
                                }
                                sp_info(ns, evs, j, InfoV { audience: t, ..acc })
                            },
                            Err(e) => Err(e),
                        }
                    } else if tag == "contact"@ {
                        match sp_read_string(ns, evs, i + 1, "contact"@, Seq::<char>::empty()) {
                            Ok((t, j)) => {
                                proof {
                                    lemma_read_string_progress(ns, evs, i + 1, "contact"@, Seq::<char>::empty());
                                }
                                sp_info(ns, evs, j, InfoV { contact: t, ..acc })
                            },
                            Err(e) => Err(e),
                        }
                    } else if tag == "description"@ {
                        match sp_read_string(ns, evs, i + 1, "description"@, Seq::<char>::empty()) {
                            Ok((t, j)) => {
                                proof {
                                    lemma_read_string_progress(ns, evs, i + 1, "description"@, Seq::<char>::empty());
                                }
                                sp_info(ns, evs, j, InfoV { description: t, ..acc })
                            },
                            Err(e) => Err(e),
                        }
                    } else if tag == "event"@ {
                        match sp_read_string(ns, evs, i + 1, "event"@, Seq::<char>::empty()) {
                            Ok((t, j)) => {
                                proof {
                                    lemma_read_string_progress(ns, evs, i + 1, "event"@, Seq::<char>::empty());
                                }
                                sp_info(ns, evs, j, InfoV { event: t, ..acc })
                            },
                            Err(e) => Err(e),
                        }
                    } else if tag == "headline"@ {
                        match sp_read_string(ns, evs, i + 1, "headline"@, Seq::<char>::empty()) {
                            Ok((t, j)) => {
                                proof {
                                    lemma_read_string_progress(ns, evs, i + 1, "headline"@, Seq::<char>::empty());
                                }
                                sp_info(ns, evs, j, InfoV { headline: t, ..acc })
                            },
                            Err(e) => Err(e),
                        }
                    } else if tag == "instruction"@ {
                        match sp_read_string(ns, evs, i + 1, "instruction"@, Seq::<char>::empty()) {
                            Ok((t, j)) => {
                                proof {
                                    lemma_read_string_progress(ns, evs, i + 1, "instruction"@, Seq::<char>::empty());
                                }
                                sp_info(ns, evs, j, InfoV { instruction: t, ..acc })
                            },
                            Err(e) => Err(e),
                        }
                    } else if tag == "language"@ {
                        match sp_read_string(ns, evs, i + 1, "language"@, Seq::<char>::empty()) {
                            Ok((t, j)) => {
                                proof {
                                    lemma_read_string_progress(ns, evs, i + 1, "language"@, Seq::<char>::empty());
                                }
                                sp_info(ns, evs, j, InfoV { language: t, ..acc })
                            },
                            Err(e) => Err(e),
                        }
                    } else if tag == "senderName"@ {
                        match sp_read_string(ns, evs, i + 1, "senderName"@, Seq::<char>::empty()) {
                            Ok((t, j)) => {
                                proof {
                                    lemma_read_string_progress(ns, evs, i + 1, "senderName"@, Seq::<char>::empty());
                                }
                                sp_info(ns, evs, j, InfoV { sender_name: t, ..acc })
                            },
                            Err(e) => Err(e),
                        }
                    } else if tag == "web"@ {
                        match sp_read_string(ns, evs, i + 1, "web"@, Seq::<char>::empty()) {
                            Ok((t, j)) => {
                                proof {
                                    lemma_read_string_progress(ns, evs, i + 1, "web"@, Seq::<char>::empty());
                                }
                                sp_info(ns, evs, j, InfoV { web: t, ..acc })
                            },
                            Err(e) => Err(e),
                        }
                    } else if tag == "urgency"@ {
                        match sp_read_string(ns, evs, i + 1, "urgency"@, Seq::<char>::empty()) {
                            Ok((t, j)) => {
                                proof {
                                    lemma_read_string_progress(ns, evs, i + 1, "urgency"@, Seq::<char>::empty());
                                }
                                let v = match t {
                                    Some(x) => sp_urgency_from(x),
                                    None => None,
                                };
                                sp_info(ns, evs, j, InfoV { urgency: v, ..acc })
                            },
                            Err(e) => Err(e),
                        }
                    } else if tag == "severity"@ {
                        match sp_read_string(ns, evs, i + 1, "severity"@, Seq::<char>::empty()) {
                            Ok((t, j)) => {
                                proof {
                                    lemma_read_string_progress(ns, evs, i + 1, "severity"@, Seq::<char>::empty());
                                }
                                let v = match t {
                                    Some(x) => sp_severity_from(x),
                                    None => None,
                                };
                                sp_info(ns, evs, j, InfoV { severity: v, ..acc })
                            },
                            Err(e) => Err(e),
                        }
                    } else if tag == "certainty"@ {
                        match sp_read_string(ns, evs, i + 1, "certainty"@, Seq::<char>::empty()) {
                            Ok((t, j)) => {
                                proof {
                                    lemma_read_string_progress(ns, evs, i + 1, "certainty"@, Seq::<char>::empty());
                                }
                                let v = match t {
                                    Some(x) => sp_certainty_from(x),
                                    None => None,
                                };
                                sp_info(ns, evs, j, InfoV { certainty: v, ..acc })
                            },
                            Err(e) => Err(e),
                        }
                    } else if tag == "category"@ {
                        match sp_read_string(ns, evs, i + 1, "category"@, Seq::<char>::empty()) {
                            Ok((t, j)) => {
                                proof {
                                    lemma_read_string_progress(ns, evs, i + 1, "category"@, Seq::<char>::empty());
                                }
                                match (match t {
                                    Some(x) => sp_category_from(x),
                                    None => None,
                                }) {
                                    Some(c) => sp_info(ns, evs, j, InfoV { categories: acc.categories.push(c), ..acc }),
                                    None => sp_info(ns, evs, j, acc),
                                }
                            },
                            Err(e) => Err(e),
                        }
                    } else if tag == "responseType"@ {
                        match sp_read_string(ns, evs, i + 1, "responseType"@, Seq::<char>::empty()) {
                            Ok((t, j)) => {
                                proof {
                                    lemma_read_string_progress(ns, evs, i + 1, "responseType"@, Seq::<char>::empty());
                                }
                                match (match t {
                                    Some(x) => sp_response_type_from(x),
                                    None => None,
                                }) {
                                    Some(c) => sp_info(ns, evs, j, InfoV { response_types: acc.response_types.push(c), ..acc }),
                                    None => sp_info(ns, evs, j, acc),
                                }
                            },
                            Err(e) => Err(e),
                        }
                    } else if tag == "effective"@ {
                        match sp_read_string(ns, evs, i + 1, "effective"@, Seq::<char>::empty()) {
                            Ok((t, j)) => {
                                proof {
                                    lemma_read_string_progress(ns, evs, i + 1, "effective"@, Seq::<char>::empty());
                                }
                                let txt = match t {
                                    Some(x) => x,
                                    None => Seq::<char>::empty(),
                                };
                                match sp_timestamp(txt) {
                                    Some(ts) => sp_info(ns, evs, j, InfoV { effective: Some(ts), ..acc }),
                                    None => Err(DeserialiseErrorV::ParseDateError(txt)),
                                }
                            },
                            Err(e) => Err(e),
                        }
                    } else if tag == "onset"@ {
                        match sp_read_string(ns, evs, i + 1, "onset"@, Seq::<char>::empty()) {
                            Ok((t, j)) => {
                                proof {
                                    lemma_read_string_progress(ns, evs, i + 1, "onset"@, Seq::<char>::empty());
                                }
                                let txt = match t {
                                    Some(x) => x,
                                    None => Seq::<char>::empty(),
                                };
                                match sp_timestamp(txt) {
                                    Some(ts) => sp_info(ns, evs, j, InfoV { onset: Some(ts), ..acc }),
                                    None => Err(DeserialiseErrorV::ParseDateError(txt)),
                                }
                            },
                            Err(e) => Err(e),
                        }
                    } else if tag == "expires"@ {
                        match sp_read_string(ns, evs, i + 1, "expires"@, Seq::<char>::empty()) {
                            Ok((t, j)) => {
                                proof {
                                    lemma_read_string_progress(ns, evs, i + 1, "expires"@, Seq::<char>::empty());
                                }
                                let txt = match t {
                                    Some(x) => x,
                                    None => Seq::<char>::empty(),
                                };
                                match sp_timestamp(txt) {
                                    Some(ts) => sp_info(ns, evs, j, InfoV { expires: Some(ts), ..acc }),
                                    None => Err(DeserialiseErrorV::ParseDateError(txt)),
                                }
                            },
                            Err(e) => Err(e),
                        }
                    } else if tag == "area"@ {
                        match sp_area(ns, evs, i + 1, sp_area_init()) {
                            Ok((a, j)) => {
                                proof {
                                    lemma_area_progress(ns, evs, i + 1, sp_area_init());
                                }
                                sp_info(ns, evs, j, InfoV { areas: acc.areas.push(a), ..acc })
                            },
                            Err(e) => Err(e),
                        }
                    } else if tag == "eventCode"@ {
                        match sp_event_code(ns, evs, i + 1) {
                            Ok((ec, j)) => {
                                proof {
                                    lemma_event_code_progress(ns, evs, i + 1);
                                }
                                sp_info(ns, evs, j, InfoV { event_codes: acc.event_codes.push(ec), ..acc })
                            },
                            Err(e) => Err(e),
                        }
                    } else if tag == "parameter"@ {
                        match sp_parameter(ns, evs, i + 1) {
                            Ok((p, j)) => {
                                proof {
                                    lemma_parameter_progress(ns, evs, i + 1);
                                }
                                sp_info(ns, evs, j, InfoV { parameters: acc.parameters.push(p), ..acc })
                            },
                            Err(e) => Err(e),
                        }
                    } else if tag == "resource"@ {
                        match sp_resource(ns, evs, i + 1, sp_resource_init()) {
                            Ok((rs, j)) => {
                                proof {
                                    lemma_resource_progress(ns, evs, i + 1, sp_resource_init());
                                }
                                sp_info(ns, evs, j, InfoV { resources: acc.resources.push(rs), ..acc })
                            },
                            Err(e) => Err(e),
                        }
                    } else {
                        Err(DeserialiseErrorV::TagNotExpected(sp_tag_not_expected_msg(tag)))
                    }
                } else {
                    sp_info(ns, evs, i + 1, acc)
                }
            },
            EventV::End { ns: ens, name: tag } => {
                if ens == Some(ns) {
                    if tag == INFO_TAG@ {
                        Ok((acc, i + 1))
                    } else if tag == "area"@ || tag == "audience"@ || tag == "category"@ || tag == "certainty"@ || tag == "contact"@ || tag == "description"@ || tag == "effective"@ || tag == "eventCode"@ || tag == "event"@ || tag == "expires"@ || tag == "headline"@ || tag == "instruction"@ || tag == "language"@ || tag == "onset"@ || tag == "parameter"@ || tag == "responseType"@ || tag == "senderName"@ || tag == "severity"@ || tag == "urgency"@ || tag == "web"@ {
                        sp_info(ns, evs, i + 1, acc)
                    } else {
                        Err(DeserialiseErrorV::TagNotExpected(sp_tag_not_expected_msg(tag)))
                    }
                } else {
                    sp_info(ns, evs, i + 1, acc)
                }
            },
            _ => sp_info(ns, evs, i + 1, acc),
        }
    }
}

} // verus!

verus! {

/// One rendition of an alert's content.
#[derive(Debug, Clone, PartialEq)]
pub struct Info {
    pub areas: Vec<Area>,
    pub audience: Option<String>,
    pub categories: Vec<Category>,
    pub certainty: Option<Certainty>,
    pub contact: Option<String>,
    pub description: Option<String>,
    pub effective: Option<Timestamp>,
    pub event_codes: Vec<EventCode>,
    pub event: Option<String>,
    pub expires: Option<Timestamp>,
    pub headline: Option<String>,
    pub instruction: Option<String>,
    pub language: Option<String>,
    pub onset: Option<Timestamp>,
    pub parameters: Vec<Parameter>,
    pub resources: Vec<Resource>,
    pub response_types: Vec<ResponseType>,
    pub sender_name: Option<String>,
    pub severity: Option<Severity>,
    pub urgency: Option<Urgency>,
    pub web: Option<String>,
}

/// Spec-level mirror of [`Info`].
#[verifier::ext_equal]
pub struct InfoV {
    pub areas: Seq<AreaV>,
    pub audience: Option<Seq<char>>,
    pub categories: Seq<Category>,
    pub certainty: Option<Certainty>,
    pub contact: Option<Seq<char>>,
    pub description: Option<Seq<char>>,
    pub effective: Option<TimestampV>,
    pub event_codes: Seq<EventCodeV>,
    pub event: Option<Seq<char>>,
    pub expires: Option<TimestampV>,
    pub headline: Option<Seq<char>>,
    pub instruction: Option<Seq<char>>,
    pub language: Option<Seq<char>>,
    pub onset: Option<TimestampV>,
    pub parameters: Seq<ParameterV>,
    pub resources: Seq<ResourceV>,
    pub response_types: Seq<ResponseType>,
    pub sender_name: Option<Seq<char>>,
    pub severity: Option<Severity>,
    pub urgency: Option<Urgency>,
    pub web: Option<Seq<char>>,
}

impl View for Info {
    type V = InfoV;

    open spec fn view(&self) -> InfoV {
        InfoV {
            areas: self.areas.deep_view(),
            audience: self.audience.deep_view(),
            categories: self.categories.deep_view(),
            certainty: self.certainty,
            contact: self.contact.deep_view(),
            description: self.description.deep_view(),
            effective: self.effective.deep_view(),
            event_codes: self.event_codes.deep_view(),
            event: self.event.deep_view(),
            expires: self.expires.deep_view(),
            headline: self.headline.deep_view(),
            instruction: self.instruction.deep_view(),
            language: self.language.deep_view(),
            onset: self.onset.deep_view(),
            parameters: self.parameters.deep_view(),
            resources: self.resources.deep_view(),
            response_types: self.response_types.deep_view(),
            sender_name: self.sender_name.deep_view(),
            severity: self.severity,
            urgency: self.urgency,
            web: self.web.deep_view(),
        }
    }
}

impl DeepView for Info {
    type V = InfoV;

    open spec fn deep_view(&self) -> InfoV {
        self.view()
    }
}

/// A successful info read always makes progress and stays in bounds.
pub proof fn lemma_info_progress(ns: Seq<char>, evs: Seq<EventV>, i: int, acc: InfoV)
    requires
        0 <= i,
    ensures
        sp_info(ns, evs, i, acc) matches Ok((_, j)) ==> i < j <= evs.len(),
    decreases evs.len() - i,
{
    if i >= evs.len() {
    } else {
        match evs[i] {
            EventV::Start { ns: ens, name: tag } => {
                if ens == Some(ns) {
                    if tag == "audience"@ {
                        lemma_read_string_progress(ns, evs, i + 1, "audience"@, Seq::<char>::empty());
                        match sp_read_string(ns, evs, i + 1, "audience"@, Seq::<char>::empty()) {
                            Ok((t, j)) => {
                                lemma_info_progress(ns, evs, j, InfoV { audience: t, ..acc });
                            },
                            Err(_) => {},
                        }
                    } else if tag == "contact"@ {
                        lemma_read_string_progress(ns, evs, i + 1, "contact"@, Seq::<char>::empty());
                        match sp_read_string(ns, evs, i + 1, "contact"@, Seq::<char>::empty()) {
                            Ok((t, j)) => {
                                lemma_info_progress(ns, evs, j, InfoV { contact: t, ..acc });
                            },
                            Err(_) => {},
                        }
                    } else if tag == "description"@ {
                        lemma_read_string_progress(ns, evs, i + 1, "description"@, Seq::<char>::empty());
                        match sp_read_string(ns, evs, i + 1, "description"@, Seq::<char>::empty()) {
                            Ok((t, j)) => {
                                lemma_info_progress(ns, evs, j, InfoV { description: t, ..acc });
                            },
                            Err(_) => {},
                        }
                    } else if tag == "event"@ {
                        lemma_read_string_progress(ns, evs, i + 1, "event"@, Seq::<char>::empty());
                        match sp_read_string(ns, evs, i + 1, "event"@, Seq::<char>::empty()) {
                            Ok((t, j)) => {
                                lemma_info_progress(ns, evs, j, InfoV { event: t, ..acc });
                            },
                            Err(_) => {},
                        }
                    } else if tag == "headline"@ {
                        lemma_read_string_progress(ns, evs, i + 1, "headline"@, Seq::<char>::empty());
                        match sp_read_string(ns, evs, i + 1, "headline"@, Seq::<char>::empty()) {
                            Ok((t, j)) => {
                                lemma_info_progress(ns, evs, j, InfoV { headline: t, ..acc });
                            },
                            Err(_) => {},
                        }
                    } else if tag == "instruction"@ {
                        lemma_read_string_progress(ns, evs, i + 1, "instruction"@, Seq::<char>::empty());
                        match sp_read_string(ns, evs, i + 1, "instruction"@, Seq::<char>::empty()) {
                            Ok((t, j)) => {
                                lemma_info_progress(ns, evs, j, InfoV { instruction: t, ..acc });
                            },
                            Err(_) => {},
                        }
                    } else if tag == "language"@ {
                        lemma_read_string_progress(ns, evs, i + 1, "language"@, Seq::<char>::empty());
                        match sp_read_string(ns, evs, i + 1, "language"@, Seq::<char>::empty()) {
                            Ok((t, j)) => {
                                lemma_info_progress(ns, evs, j, InfoV { language: t, ..acc });
                            },
                            Err(_) => {},
                        }
                    } else if tag == "senderName"@ {
                        lemma_read_string_progress(ns, evs, i + 1, "senderName"@, Seq::<char>::empty());
                        match sp_read_string(ns, evs, i + 1, "senderName"@, Seq::<char>::empty()) {
                            Ok((t, j)) => {
                                lemma_info_progress(ns, evs, j, InfoV { sender_name: t, ..acc });
                            },
                            Err(_) => {},
                        }
                    } else if tag == "web"@ {
                        lemma_read_string_progress(ns, evs, i + 1, "web"@, Seq::<char>::empty());
                        match sp_read_string(ns, evs, i + 1, "web"@, Seq::<char>::empty()) {
                            Ok((t, j)) => {
                                lemma_info_progress(ns, evs, j, InfoV { web: t, ..acc });
                            },
                            Err(_) => {},
                        }
                    } else if tag == "urgency"@ {
                        lemma_read_string_progress(ns, evs, i + 1, "urgency"@, Seq::<char>::empty());
                        match sp_read_string(ns, evs, i + 1, "urgency"@, Seq::<char>::empty()) {
                            Ok((t, j)) => {
                                let v = match t {
                                    Some(x) => sp_urgency_from(x),
                                    None => None,
                                };
                                lemma_info_progress(ns, evs, j, InfoV { urgency: v, ..acc });
                            },
                            Err(_) => {},
                        }
                    } else if tag == "severity"@ {
                        lemma_read_string_progress(ns, evs, i + 1, "severity"@, Seq::<char>::empty());
                        match sp_read_string(ns, evs, i + 1, "severity"@, Seq::<char>::empty()) {
                            Ok((t, j)) => {
                                let v = match t {
                                    Some(x) => sp_severity_from(x),
                                    None => None,
                                };
                                lemma_info_progress(ns, evs, j, InfoV { severity: v, ..acc });
                            },
                            Err(_) => {},
                        }
                    } else if tag == "certainty"@ {
                        lemma_read_string_progress(ns, evs, i + 1, "certainty"@, Seq::<char>::empty());
                        match sp_read_string(ns, evs, i + 1, "certainty"@, Seq::<char>::empty()) {
                            Ok((t, j)) => {
                                let v = match t {
                                    Some(x) => sp_certainty_from(x),
                                    None => None,
                                };
                                lemma_info_progress(ns, evs, j, InfoV { certainty: v, ..acc });
                            },
                            Err(_) => {},
                        }
                    } else if tag == "category"@ {
                        lemma_read_string_progress(ns, evs, i + 1, "category"@, Seq::<char>::empty());
                        match sp_read_string(ns, evs, i + 1, "category"@, Seq::<char>::empty()) {
                            Ok((t, j)) => {
                                match (match t {
                                    Some(x) => sp_category_from(x),
                                    None => None,
                                }) {
                                    Some(c) => lemma_info_progress(ns, evs, j, InfoV { categories: acc.categories.push(c), ..acc }),
                                    None => lemma_info_progress(ns, evs, j, acc),
                                }
                            },
                            Err(_) => {},
                        }
                    } else if tag == "responseType"@ {
                        lemma_read_string_progress(ns, evs, i + 1, "responseType"@, Seq::<char>::empty());
                        match sp_read_string(ns, evs, i + 1, "responseType"@, Seq::<char>::empty()) {
                            Ok((t, j)) => {
                                match (match t {
                                    Some(x) => sp_response_type_from(x),
                                    None => None,
                                }) {
                                    Some(c) => lemma_info_progress(ns, evs, j, InfoV { response_types: acc.response_types.push(c), ..acc }),
                                    None => lemma_info_progress(ns, evs, j, acc),
                                }
                            },
                            Err(_) => {},
                        }
                    } else if tag == "effective"@ {
                        lemma_read_string_progress(ns, evs, i + 1, "effective"@, Seq::<char>::empty());
                        match sp_read_string(ns, evs, i + 1, "effective"@, Seq::<char>::empty()) {
                            Ok((t, j)) => {
                                let txt = match t {
                                    Some(x) => x,
                                    None => Seq::<char>::empty(),
                                };
                                match sp_timestamp(txt) {
                                    Some(ts) => lemma_info_progress(ns, evs, j, InfoV { effective: Some(ts), ..acc }),
                                    None => {},
                                }
                            },
                            Err(_) => {},
                        }
                    } else if tag == "onset"@ {
                        lemma_read_string_progress(ns, evs, i + 1, "onset"@, Seq::<char>::empty());
                        match sp_read_string(ns, evs, i + 1, "onset"@, Seq::<char>::empty()) {
                            Ok((t, j)) => {
                                let txt = match t {
                                    Some(x) => x,
                                    None => Seq::<char>::empty(),
                                };
                                match sp_timestamp(txt) {
                                    Some(ts) => lemma_info_progress(ns, evs, j, InfoV { onset: Some(ts), ..acc }),
                                    None => {},
                                }
                            },
                            Err(_) => {},
                        }
                    } else if tag == "expires"@ {
                        lemma_read_string_progress(ns, evs, i + 1, "expires"@, Seq::<char>::empty());
                        match sp_read_string(ns, evs, i + 1, "expires"@, Seq::<char>::empty()) {
                            Ok((t, j)) => {
                                let txt = match t {
                                    Some(x) => x,
                                    None => Seq::<char>::empty(),
                                };
                                match sp_timestamp(txt) {
                                    Some(ts) => lemma_info_progress(ns, evs, j, InfoV { expires: Some(ts), ..acc }),
                                    None => {},
                                }
                            },
                            Err(_) => {},
                        }
                    } else if tag == "area"@ {
                        lemma_area_progress(ns, evs, i + 1, sp_area_init());
                        match sp_area(ns, evs, i + 1, sp_area_init()) {
                            Ok((a, j)) => {
                                lemma_info_progress(ns, evs, j, InfoV { areas: acc.areas.push(a), ..acc });
                            },
                            Err(_) => {},
                        }
                    } else if tag == "eventCode"@ {
                        lemma_event_code_progress(ns, evs, i + 1);
                        match sp_event_code(ns, evs, i + 1) {
                            Ok((ec, j)) => {
                                lemma_info_progress(ns, evs, j, InfoV { event_codes: acc.event_codes.push(ec), ..acc });
                            },
                            Err(_) => {},
                        }
                    } else if tag == "parameter"@ {
                        lemma_parameter_progress(ns, evs, i + 1);
                        match sp_parameter(ns, evs, i + 1) {
                            Ok((p, j)) => {
                                lemma_info_progress(ns, evs, j, InfoV { parameters: acc.parameters.push(p), ..acc });
                            },
                            Err(_) => {},
                        }
                    } else if tag == "resource"@ {
                        lemma_resource_progress(ns, evs, i + 1, sp_resource_init());
                        match sp_resource(ns, evs, i + 1, sp_resource_init()) {
                            Ok((rs, j)) => {
                                lemma_info_progress(ns, evs, j, InfoV { resources: acc.resources.push(rs), ..acc });
                            },
                            Err(_) => {},
                        }
                    } else {
                    }
                } else {
                    lemma_info_progress(ns, evs, i + 1, acc);
                }
            },
            EventV::End { ns: ens, name: tag } => {
                if ens == Some(ns) {
                    if tag != INFO_TAG@ {
                        lemma_info_progress(ns, evs, i + 1, acc);
                    }
                } else {
                    lemma_info_progress(ns, evs, i + 1, acc);
                }
            },
            EventV::Eof => {},
            EventV::Fail { .. } => {},
            _ => {
                lemma_info_progress(ns, evs, i + 1, acc);
            },
        }
    }
}

} // verus!

verus! {

impl Info {
    /// An empty info block, for programmatic construction; the language
    /// defaults to `en-US`.
    pub fn initialise() -> (r: Info)
        ensures
            r@ == sp_info_init(),
    {
        let r = Info {
            areas: Vec::new(),
            audience: None,
            categories: Vec::new(),
            certainty: None,
            contact: None,
            description: None,
            effective: None,
            event_codes: Vec::new(),
            event: None,
            expires: None,
            headline: None,
            instruction: None,
            language: Some(DEFAULT_LANGUAGE.to_owned()),
            onset: None,
            parameters: Vec::new(),
            resources: Vec::new(),
            response_types: Vec::new(),
            sender_name: None,
            severity: None,
            urgency: None,
            web: None,
        };
        proof {
            assert(r@ =~= sp_info_init());
        }
        r
    }

    /// Appends an area, for programmatic construction.
    pub fn add_area(&mut self, area: Area)
        ensures
            final(self)@ == (InfoV { areas: old(self)@.areas.push(area@), ..old(self)@ }),
    {
        self.areas.push(area);
        proof {
            assert(final(self)@ =~= (InfoV {
                areas: old(self)@.areas.push(area@),
                ..old(self)@
            }));
        }
    }

    /// Appends an event code, for programmatic construction.
    pub fn add_event_code(&mut self, event_code: EventCode)
        ensures
            final(self)@ == (InfoV {
                event_codes: old(self)@.event_codes.push(event_code@),
                ..old(self)@
            }),
    {
        self.event_codes.push(event_code);
        proof {
            assert(final(self)@ =~= (InfoV {
                event_codes: old(self)@.event_codes.push(event_code@),
                ..old(self)@
            }));
        }
    }

    /// Appends a parameter, for programmatic construction.
    pub fn add_parameter(&mut self, parameter: Parameter)
        ensures
            final(self)@ == (InfoV {
                parameters: old(self)@.parameters.push(parameter@),
                ..old(self)@
            }),
    {
        self.parameters.push(parameter);
        proof {
            assert(final(self)@ =~= (InfoV {
                parameters: old(self)@.parameters.push(parameter@),
                ..old(self)@
            }));
        }
    }

    /// Appends a resource, for programmatic construction.
    pub fn add_resource(&mut self, resource: Resource)
        ensures
            final(self)@ == (InfoV {
                resources: old(self)@.resources.push(resource@),
                ..old(self)@
            }),
    {
        self.resources.push(resource);
        proof {
            assert(final(self)@ =~= (InfoV {
                resources: old(self)@.resources.push(resource@),
                ..old(self)@
            }));
        }
    }

    /// Reads one `info` element.
    pub fn deserialize_from_xml(namespace: &str, events: &Vec<XmlEvent>, pos: usize) -> (r: Result<
        (Info, usize),
        DeserialiseError,
    >)
        ensures
            sp_step(r) == sp_info(namespace@, events.deep_view(), pos as int, sp_info_init()),
            r matches Ok((_, j)) ==> pos < j <= events@.len(),
    {
        let ghost evs = events.deep_view();
        let n: usize = events.len();
        proof {
            assert(evs.len() == n);
            lemma_info_progress(namespace@, evs, pos as int, sp_info_init());
        }
        let mut info = Info::initialise();
        let mut i: usize = pos;
        loop
            invariant
                evs == events.deep_view(),
                n == evs.len(),
                pos <= i,
                sp_info(namespace@, evs, pos as int, sp_info_init()) == sp_info(
                    namespace@,
                    evs,
                    i as int,
                    info@,
                ),
                sp_info(namespace@, evs, pos as int, sp_info_init()) matches Ok((_, j)) ==> pos < j
                    <= evs.len(),
            decreases n - i,
        {
            if i >= n {
                return Err(DeserialiseError::EofReached);
            }
            proof {
                assert(evs[i as int] == events@[i as int]@);
            }
            match &events[i] {
                XmlEvent::Eof => {
                    return Err(DeserialiseError::EofReached);
                },
                XmlEvent::Fail { message } => {
                    return Err(DeserialiseError::QuickXMLError(message.clone()));
                },
                XmlEvent::Start { ns, name: tag } => {
                    let matching = match ns {
                        Some(ens) => str_eq(ens.as_str(), namespace),
                        None => false,
                    };
                    if matching {
                        if str_eq(tag.as_str(), "audience") {
                            let (t, j) = match read_string(namespace, events, i + 1, "audience") {
                                Ok(x) => x,
                                Err(e) => return Err(e),
                            };
                            proof {
                                lemma_read_string_progress(
                                    namespace@,
                                    evs,
                                    i + 1 as int,
                                    "audience"@,
                                    Seq::<char>::empty(),
                                );
                            }
                            info.audience = t;
                            i = j;
                        } else if str_eq(tag.as_str(), "contact") {
                            let (t, j) = match read_string(namespace, events, i + 1, "contact") {
                                Ok(x) => x,
                                Err(e) => return Err(e),
                            };
                            proof {
                                lemma_read_string_progress(
                                    namespace@,
                                    evs,
                                    i + 1 as int,
                                    "contact"@,
                                    Seq::<char>::empty(),
                                );
                            }
                            info.contact = t;
                            i = j;
                        } else if str_eq(tag.as_str(), "description") {
                            let (t, j) = match read_string(namespace, events, i + 1, "description") {
                                Ok(x) => x,
                                Err(e) => return Err(e),
                            };
                            proof {
                                lemma_read_string_progress(
                                    namespace@,
                                    evs,
                                    i + 1 as int,
                                    "description"@,
                                    Seq::<char>::empty(),
                                );
                            }
                            info.description = t;
                            i = j;
                        } else if str_eq(tag.as_str(), "event") {
                            let (t, j) = match read_string(namespace, events, i + 1, "event") {
                                Ok(x) => x,
                                Err(e) => return Err(e),
                            };
                            proof {
                                lemma_read_string_progress(
                                    namespace@,
                                    evs,
                                    i + 1 as int,
                                    "event"@,
                                    Seq::<char>::empty(),
                                );
                            }
                            info.event = t;
                            i = j;
                        } else if str_eq(tag.as_str(), "headline") {
                            let (t, j) = match read_string(namespace, events, i + 1, "headline") {
                                Ok(x) => x,
                                Err(e) => return Err(e),
                            };
                            proof {
                                lemma_read_string_progress(
                                    namespace@,
                                    evs,
                                    i + 1 as int,
                                    "headline"@,
                                    Seq::<char>::empty(),
                                );
                            }
                            info.headline = t;
                            i = j;
                        } else if str_eq(tag.as_str(), "instruction") {
                            let (t, j) = match read_string(namespace, events, i + 1, "instruction") {
                                Ok(x) => x,
                                Err(e) => return Err(e),
                            };
                            proof {
                                lemma_read_string_progress(
                                    namespace@,
                                    evs,
                                    i + 1 as int,
                                    "instruction"@,
                                    Seq::<char>::empty(),
                                );
                            }
                            info.instruction = t;
                            i = j;
                        } else if str_eq(tag.as_str(), "language") {
                            let (t, j) = match read_string(namespace, events, i + 1, "language") {
                                Ok(x) => x,
                                Err(e) => return Err(e),
                            };
                            proof {
                                lemma_read_string_progress(
                                    namespace@,
                                    evs,
                                    i + 1 as int,
                                    "language"@,
                                    Seq::<char>::empty(),
                                );
                            }
                            info.language = t;
                            i = j;
                        } else if str_eq(tag.as_str(), "senderName") {
                            let (t, j) = match read_string(namespace, events, i + 1, "senderName") {
                                Ok(x) => x,
                                Err(e) => return Err(e),
                            };
                            proof {
                                lemma_read_string_progress(
                                    namespace@,
                                    evs,
                                    i + 1 as int,
                                    "senderName"@,
                                    Seq::<char>::empty(),
                                );
                            }
                            info.sender_name = t;
                            i = j;
                        } else if str_eq(tag.as_str(), "web") {
                            let (t, j) = match read_string(namespace, events, i + 1, "web") {
                                Ok(x) => x,
                                Err(e) => return Err(e),
                            };
                            proof {
                                lemma_read_string_progress(
                                    namespace@,
                                    evs,
                                    i + 1 as int,
                                    "web"@,
                                    Seq::<char>::empty(),
                                );
                            }
                            info.web = t;
                            i = j;
                        } else if str_eq(tag.as_str(), "urgency") {
                            let (t, j) = match read_string(namespace, events, i + 1, "urgency") {
                                Ok(x) => x,
                                Err(e) => return Err(e),
                            };
                            proof {
                                lemma_read_string_progress(
                                    namespace@,
                                    evs,
                                    i + 1 as int,
                                    "urgency"@,
                                    Seq::<char>::empty(),
                                );
                            }
                            info.urgency = match t {
                                Some(x) => match Urgency::from_str(x.as_str()) {
                                    Ok(u) => Some(u),
                                    Err(_) => None,
                                },
                                None => None,
                            };
                            i = j;
                        } else if str_eq(tag.as_str(), "severity") {
                            let (t, j) = match read_string(namespace, events, i + 1, "severity") {
                                Ok(x) => x,
                                Err(e) => return Err(e),
                            };
                            proof {
                                lemma_read_string_progress(
                                    namespace@,
                                    evs,
                                    i + 1 as int,
                                    "severity"@,
                                    Seq::<char>::empty(),
                                );
                            }
                            info.severity = match t {
                                Some(x) => match Severity::from_str(x.as_str()) {
                                    Ok(u) => Some(u),
                                    Err(_) => None,
                                },
                                None => None,
                            };
                            i = j;
                        } else if str_eq(tag.as_str(), "certainty") {
                            let (t, j) = match read_string(namespace, events, i + 1, "certainty") {
                                Ok(x) => x,
                                Err(e) => return Err(e),
                            };
                            proof {
                                lemma_read_string_progress(
                                    namespace@,
                                    evs,
                                    i + 1 as int,
                                    "certainty"@,
                                    Seq::<char>::empty(),
                                );
                            }
                            info.certainty = match t {
                                Some(x) => match Certainty::from_str(x.as_str()) {
                                    Ok(u) => Some(u),
                                    Err(_) => None,
                                },
                                None => None,
                            };
                            i = j;
                        } else if str_eq(tag.as_str(), "category") {
                            let (t, j) = match read_string(namespace, events, i + 1, "category") {
                                Ok(x) => x,
                                Err(e) => return Err(e),
                            };
                            proof {
                                lemma_read_string_progress(
                                    namespace@,
                                    evs,
                                    i + 1 as int,
                                    "category"@,
                                    Seq::<char>::empty(),
                                );
                            }
                            let resolved = match t {
                                Some(x) => match Category::from_str(x.as_str()) {
                                    Ok(u) => Some(u),
                                    Err(_) => None,
                                },
                                None => None,
                            };
                            let ghost old_info = info@;
                            match resolved {
                                Some(c) => {
                                    info.categories.push(c);
                                    proof {
                                        assert(info@ =~= (InfoV {
                                            categories: old_info.categories.push(c),
                                            ..old_info
                                        }));
                                    }
                                },
                                None => {},
                            }
                            i = j;
                        } else if str_eq(tag.as_str(), "responseType") {
                            let (t, j) = match read_string(namespace, events, i + 1, "responseType") {
                                Ok(x) => x,
                                Err(e) => return Err(e),
                            };
                            proof {
                                lemma_read_string_progress(
                                    namespace@,
                                    evs,
                                    i + 1 as int,
                                    "responseType"@,
                                    Seq::<char>::empty(),
                                );
                            }
                            let resolved = match t {
                                Some(x) => match ResponseType::from_str(x.as_str()) {
                                    Ok(u) => Some(u),
                                    Err(_) => None,
                                },
                                None => None,
                            };
                            let ghost old_info = info@;
                            match resolved {
                                Some(c) => {
                                    info.response_types.push(c);
                                    proof {
                                        assert(info@ =~= (InfoV {
                                            response_types: old_info.response_types.push(c),
                                            ..old_info
                                        }));
                                    }
                                },
                                None => {},
                            }
                            i = j;
                        } else if str_eq(tag.as_str(), "effective") {
                            let (t, j) = match read_string(namespace, events, i + 1, "effective") {
                                Ok(x) => x,
                                Err(e) => return Err(e),
                            };
                            proof {
                                lemma_read_string_progress(
                                    namespace@,
                                    evs,
                                    i + 1 as int,
                                    "effective"@,
                                    Seq::<char>::empty(),
                                );
                            }
                            let txt = match t {
                                Some(x) => x,
                                None => String::new(),
                            };
                            match Timestamp::parse(txt.as_str()) {
                                Some(ts) => {
                                    info.effective = Some(ts);
                                    i = j;
                                },
                                None => {
                                    return Err(DeserialiseError::ParseDateError(txt));
                                },
                            }
                        } else if str_eq(tag.as_str(), "onset") {
                            let (t, j) = match read_string(namespace, events, i + 1, "onset") {
                                Ok(x) => x,
                                Err(e) => return Err(e),
                            };
                            proof {
                                lemma_read_string_progress(
                                    namespace@,
                                    evs,
                                    i + 1 as int,
                                    "onset"@,
                                    Seq::<char>::empty(),
                                );
                            }
                            let txt = match t {
                                Some(x) => x,
                                None => String::new(),
                            };
                            match Timestamp::parse(txt.as_str()) {
                                Some(ts) => {
                                    info.onset = Some(ts);
                                    i = j;
                                },
                                None => {
                                    return Err(DeserialiseError::ParseDateError(txt));
                                },
                            }
                        } else if str_eq(tag.as_str(), "expires") {
                            let (t, j) = match read_string(namespace, events, i + 1, "expires") {
                                Ok(x) => x,
                                Err(e) => return Err(e),
                            };
                            proof {
                                lemma_read_string_progress(
                                    namespace@,
                                    evs,
                                    i + 1 as int,
                                    "expires"@,
                                    Seq::<char>::empty(),
                                );
                            }
                            let txt = match t {
                                Some(x) => x,
                                None => String::new(),
                            };
                            match Timestamp::parse(txt.as_str()) {
                                Some(ts) => {
                                    info.expires = Some(ts);
                                    i = j;
                                },
                                None => {
                                    return Err(DeserialiseError::ParseDateError(txt));
                                },
                            }
                        } else if str_eq(tag.as_str(), "area") {
                            let (c, j) = match Area::deserialize_from_xml(namespace, events, i + 1) {
                                Ok(x) => x,
                                Err(e) => return Err(e),
                            };
                            let ghost old_info = info@;
                            let ghost cv = c.deep_view();
                            info.areas.push(c);
                            proof {
                                assert(info@ =~= (InfoV {
                                    areas: old_info.areas.push(cv),
                                    ..old_info
                                }));
                            }
                            i = j;
                        } else if str_eq(tag.as_str(), "eventCode") {
                            let (c, j) = match EventCode::deserialize_from_xml(namespace, events, i + 1) {
                                Ok(x) => x,
                                Err(e) => return Err(e),
                            };
                            let ghost old_info = info@;
                            let ghost cv = c.deep_view();
                            info.event_codes.push(c);
                            proof {
                                assert(info@ =~= (InfoV {
                                    event_codes: old_info.event_codes.push(cv),
                                    ..old_info
                                }));
                            }
                            i = j;
                        } else if str_eq(tag.as_str(), "parameter") {
                            let (c, j) = match Parameter::deserialize_from_xml(namespace, events, i + 1) {
                                Ok(x) => x,
                                Err(e) => return Err(e),
                            };
                            let ghost old_info = info@;
                            let ghost cv = c.deep_view();
                            info.parameters.push(c);
                            proof {
                                assert(info@ =~= (InfoV {
                                    parameters: old_info.parameters.push(cv),
                                    ..old_info
                                }));
                            }
                            i = j;
                        } else if str_eq(tag.as_str(), "resource") {
                            let (c, j) = match Resource::deserialize_from_xml(namespace, events, i + 1) {
                                Ok(x) => x,
                                Err(e) => return Err(e),
                            };
                            let ghost old_info = info@;
                            let ghost cv = c.deep_view();
                            info.resources.push(c);
                            proof {
                                assert(info@ =~= (InfoV {
                                    resources: old_info.resources.push(cv),
                                    ..old_info
                                }));
                            }
                            i = j;
                        } else {
                            return Err(DeserialiseError::tag_not_expected(tag.as_str()));
                        }
                    } else {
                        i += 1;
                    }
                },
                XmlEvent::End { ns, name: tag } => {
                    let matching = match ns {
                        Some(ens) => str_eq(ens.as_str(), namespace),
                        None => false,
                    };
                    if matching {
                        if str_eq(tag.as_str(), INFO_TAG) {
                            return Ok((info, i + 1));
                        } else if str_eq(tag.as_str(), "area") || str_eq(tag.as_str(), "audience") || str_eq(tag.as_str(), "category") || str_eq(tag.as_str(), "certainty") || str_eq(tag.as_str(), "contact") || str_eq(tag.as_str(), "description") || str_eq(tag.as_str(), "effective") || str_eq(tag.as_str(), "eventCode") || str_eq(tag.as_str(), "event") || str_eq(tag.as_str(), "expires") || str_eq(tag.as_str(), "headline") || str_eq(tag.as_str(), "instruction") || str_eq(tag.as_str(), "language") || str_eq(tag.as_str(), "onset") || str_eq(tag.as_str(), "parameter") || str_eq(tag.as_str(), "responseType") || str_eq(tag.as_str(), "senderName") || str_eq(tag.as_str(), "severity") || str_eq(tag.as_str(), "urgency") || str_eq(tag.as_str(), "web") {
                            i += 1;
                        } else {
                            return Err(DeserialiseError::tag_not_expected(tag.as_str()));
                        }
                    } else {
                        i += 1;
                    }
                },
                _ => {
                    i += 1;
                },
            }
        }
    }
}

} // verus!

verus! {

/// The known child vocabulary of the `info` element.
pub open spec fn sp_info_child(tag: Seq<char>) -> bool {
    tag == "audience"@ || tag == "contact"@ || tag == "description"@ || tag == "event"@ || tag
        == "headline"@ || tag == "instruction"@ || tag == "language"@ || tag == "senderName"@
        || tag == "web"@ || tag == "urgency"@ || tag == "severity"@ || tag == "certainty"@ || tag
        == "category"@ || tag == "responseType"@ || tag == "effective"@ || tag == "onset"@ || tag
        == "expires"@ || tag == AREA_TAG@ || tag == EVENT_CODE_TAG@ || tag == PARAMETER_TAG@
        || tag == RESOURCE_TAG@
}

/// An unrecognized child start tag under the matching namespace is fatal
/// to the info dispatch, whatever has been accumulated.
pub proof fn lemma_info_unknown_child_fails(
    ns: Seq<char>,
    evs: Seq<EventV>,
    i: int,
    acc: InfoV,
    tag: Seq<char>,
)
    requires
        0 <= i < evs.len(),
        evs[i] == (EventV::Start { ns: Some(ns), name: tag }),
        !sp_info_child(tag),
    ensures
        sp_info(ns, evs, i, acc) == Err::<(InfoV, int), _>(
            DeserialiseErrorV::TagNotExpected(sp_tag_not_expected_msg(tag)),
        ),
{
}

/// An error of an embedded area is the error of the whole info dispatch:
/// failures propagate unchanged through the nesting.
pub proof fn lemma_info_area_error_propagates(
    ns: Seq<char>,
    evs: Seq<EventV>,
    i: int,
    acc: InfoV,
    e: DeserialiseErrorV,
)
    requires
        0 <= i < evs.len(),
        evs[i] == (EventV::Start { ns: Some(ns), name: AREA_TAG@ }),
        sp_area(ns, evs, i + 1, sp_area_init()) == Err::<(AreaV, int), _>(e),
    ensures
        sp_info(ns, evs, i, acc) == Err::<(InfoV, int), _>(e),
{
    proof_area_tag_distinct();
}

/// The `area` token differs from every other info child token.
proof fn proof_area_tag_distinct()
    ensures
        AREA_TAG@ != "audience"@ && AREA_TAG@ != "contact"@ && AREA_TAG@ != "description"@
            && AREA_TAG@ != "event"@ && AREA_TAG@ != "headline"@ && AREA_TAG@ != "instruction"@
            && AREA_TAG@ != "language"@ && AREA_TAG@ != "senderName"@ && AREA_TAG@ != "web"@
            && AREA_TAG@ != "urgency"@ && AREA_TAG@ != "severity"@ && AREA_TAG@ != "certainty"@
            && AREA_TAG@ != "category"@ && AREA_TAG@ != "responseType"@ && AREA_TAG@
            != "effective"@ && AREA_TAG@ != "onset"@ && AREA_TAG@ != "expires"@,
{
    reveal_strlit("area");
    reveal_strlit("audience");
    reveal_strlit("contact");
    reveal_strlit("description");
    reveal_strlit("event");
    reveal_strlit("headline");
    reveal_strlit("instruction");
    reveal_strlit("language");
    reveal_strlit("senderName");
    reveal_strlit("web");
    reveal_strlit("urgency");
    reveal_strlit("severity");
    reveal_strlit("certainty");
    reveal_strlit("category");
    reveal_strlit("responseType");
    reveal_strlit("effective");
    reveal_strlit("onset");
    reveal_strlit("expires");
    assert("area"@.len() == 4);
    assert("audience"@.len() == 8);
    assert("contact"@.len() == 7);
    assert("description"@.len() == 11);
    assert("event"@.len() == 5);
    assert("headline"@.len() == 8);
    assert("instruction"@.len() == 11);
    assert("language"@.len() == 8);
    assert("senderName"@.len() == 10);
    assert("web"@.len() == 3);
    assert("urgency"@.len() == 7);
    assert("severity"@.len() == 8);
    assert("certainty"@.len() == 9);
    assert("category"@.len() == 8);
    assert("responseType"@.len() == 12);
    assert("effective"@.len() == 9);
    assert("onset"@.len() == 5);
    assert("expires"@.len() == 7);
    assert("area"@[0] == 'a' && "onset"@[0] == 'o' && "event"@[0] == 'e');
}

/// An unrecognized token in an optional enumerated field is silently
/// dropped: the info dispatch continues past the field with it unset
/// rather than failing.
pub proof fn lemma_unrecognized_urgency_is_dropped(
    ns: Seq<char>,
    evs: Seq<EventV>,
    i: int,
    acc: InfoV,
    t: Seq<char>,
)
    requires
        0 <= i,
        i + 2 < evs.len(),
        evs[i] == (EventV::Start { ns: Some(ns), name: "urgency"@ }),
        evs[i + 1] == (EventV::Text { content: t }),
        evs[i + 2] == (EventV::End { ns: Some(ns), name: "urgency"@ }),
        t.len() > 0,
        crate::text::sp_trim(t) == t,
        sp_urgency_from(t) is None,
    ensures
        sp_info(ns, evs, i, acc) == sp_info(ns, evs, i + 3, InfoV { urgency: None, ..acc }),
{
    proof_urgency_tag_distinct();
    assert(Seq::<char>::empty() + t =~= t);
    assert(sp_read_string(ns, evs, i + 1, "urgency"@, Seq::<char>::empty()) == sp_read_string(
        ns,
        evs,
        i + 2,
        "urgency"@,
        t,
    ));
    assert(sp_read_string(ns, evs, i + 2, "urgency"@, t) == Ok::<_, DeserialiseErrorV>(
        (Some(t), i + 3),
    ));
}

/// The `urgency` token differs from the info child tokens checked before
/// it in the dispatch.
proof fn proof_urgency_tag_distinct()
    ensures
        "urgency"@ != "audience"@ && "urgency"@ != "contact"@ && "urgency"@ != "description"@
            && "urgency"@ != "event"@ && "urgency"@ != "headline"@ && "urgency"@
            != "instruction"@ && "urgency"@ != "language"@ && "urgency"@ != "senderName"@
            && "urgency"@ != "web"@,
{
    reveal_strlit("urgency");
    reveal_strlit("audience");
    reveal_strlit("contact");
    reveal_strlit("description");
    reveal_strlit("event");
    reveal_strlit("headline");
    reveal_strlit("instruction");
    reveal_strlit("language");
    reveal_strlit("senderName");
    reveal_strlit("web");
    assert("urgency"@.len() == 7);
    assert("audience"@.len() == 8);
    assert("contact"@.len() == 7);
    assert("description"@.len() == 11);
    assert("event"@.len() == 5);
    assert("headline"@.len() == 8);
    assert("instruction"@.len() == 11);
    assert("language"@.len() == 8);
    assert("senderName"@.len() == 10);
    assert("web"@.len() == 3);
    assert("urgency"@[0] == 'u' && "contact"@[0] == 'c');
}

} // verus!
