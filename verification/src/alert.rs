//! The top-level `alert` element: its enumerated fields, the recognized
//! namespace URNs, the `Alert` entity and the document entry point.

use vstd::prelude::*;
use crate::deserialise_error::{
    sp_tag_not_expected_msg, DeserialiseError, DeserialiseErrorV, ParseEnumError,
};
use crate::info::{lemma_info_progress, sp_info, sp_info_init, Info, InfoV};
use crate::reference::{sp_references_of, Reference, ReferenceV};
use crate::text::{sp_split_char, str_eq};
use crate::timestamp::{sp_timestamp, Timestamp, TimestampV};
use crate::utilities::{lemma_read_string_progress, read_string, sp_read_string, sp_res, sp_step};
use crate::xml_events::{doc_events, read_events, EventV, XmlEvent};
use vstd::string::StringSliceAdditionalSpecFns;

verus! {

broadcast use vstd::string::group_string_axioms;

pub const VERSION_1_0: &'static str = "urn:oasis:names:tc:emergency:cap:1.0";

pub const VERSION_1_1: &'static str = "urn:oasis:names:tc:emergency:cap:1.1";

pub const VERSION_1_2: &'static str = "urn:oasis:names:tc:emergency:cap:1.2";

/// The protocol version, derived from the document's namespace URN.
#[derive(PartialEq, Eq, Structural, Debug, Clone, Copy)]
pub enum Version {
    V1_0,
    V1_1,
    V1_2,
}

impl View for Version {
    type V = Version;

    open spec fn view(&self) -> Version {
        *self
    }
}

impl DeepView for Version {
    type V = Version;

    open spec fn deep_view(&self) -> Version {
        *self
    }
}

/// The version named by a namespace URN, if it is one of the three
/// recognized ones.
pub open spec fn sp_version_from(s: Seq<char>) -> Option<Version> {
    if s == VERSION_1_0@ {
        Some(Version::V1_0)
    } else if s == VERSION_1_1@ {
        Some(Version::V1_1)
    } else if s == VERSION_1_2@ {
        Some(Version::V1_2)
    } else {
        None
    }
}

impl Version {
    /// Strict resolution: an unrecognized URN is an error, since the
    /// version decides how the whole document is read.
    pub fn from_str(version_string: &str) -> (r: Result<Version, ParseEnumError>)
        ensures
            match r {
                Ok(v) => sp_version_from(version_string@) == Some(v),
                Err(e) => sp_version_from(version_string@) is None && e@ == version_string@,
            },
    {
        if crate::text::str_eq(version_string, VERSION_1_0) {
            Ok(Version::V1_0)
        } else if crate::text::str_eq(version_string, VERSION_1_1) {
            Ok(Version::V1_1)
        } else if crate::text::str_eq(version_string, VERSION_1_2) {
            Ok(Version::V1_2)
        } else {
            Err(ParseEnumError::enum_not_found(version_string))
        }
    }
}

/// The handling status of an alert message.
#[derive(PartialEq, Eq, Structural, Debug, Clone, Copy)]
pub enum Status {
    Actual,
    Exercise,
    System,
    Test,
    Draft,
}

impl View for Status {
    type V = Status;

    open spec fn view(&self) -> Status {
        *self
    }
}

impl DeepView for Status {
    type V = Status;

    open spec fn deep_view(&self) -> Status {
        *self
    }
}

pub open spec fn sp_status_from(s: Seq<char>) -> Option<Status> {
    if s == "Actual"@ {
        Some(Status::Actual)
    } else if s == "Exercise"@ {
        Some(Status::Exercise)
    } else if s == "System"@ {
        Some(Status::System)
    } else if s == "Test"@ {
        Some(Status::Test)
    } else if s == "Draft"@ {
        Some(Status::Draft)
    } else {
        None
    }
}

impl Status {
    pub fn from_str(enum_string: &str) -> (r: Result<Status, ParseEnumError>)
        ensures
            match r {
                Ok(v) => sp_status_from(enum_string@) == Some(v),
                Err(e) => sp_status_from(enum_string@) is None && e@ == enum_string@,
            },
    {
        if crate::text::str_eq(enum_string, "Actual") {
            Ok(Status::Actual)
        } else if crate::text::str_eq(enum_string, "Exercise") {
            Ok(Status::Exercise)
        } else if crate::text::str_eq(enum_string, "System") {
            Ok(Status::System)
        } else if crate::text::str_eq(enum_string, "Test") {
            Ok(Status::Test)
        } else if crate::text::str_eq(enum_string, "Draft") {
            Ok(Status::Draft)
        } else {
            Err(ParseEnumError::enum_not_found(enum_string))
        }
    }

    /// The protocol token of this status.
    pub fn as_str(&self) -> (r: &'static str)
        ensures
            sp_status_from(r@) == Some(*self),
    {
        proof {
            lemma_status_tokens();
        }
        match self {
            Status::Actual => "Actual",
            Status::Exercise => "Exercise",
            Status::System => "System",
            Status::Test => "Test",
            Status::Draft => "Draft",
        }
    }
}

/// The nature of an alert message.
#[derive(PartialEq, Eq, Structural, Debug, Clone, Copy)]
pub enum MsgType {
    Alert,
    Update,
    Cancel,
    Ack,
    Error,
}

impl View for MsgType {
    type V = MsgType;

    open spec fn view(&self) -> MsgType {
        *self
    }
}

impl DeepView for MsgType {
    type V = MsgType;

    open spec fn deep_view(&self) -> MsgType {
        *self
    }
}

pub open spec fn sp_msg_type_from(s: Seq<char>) -> Option<MsgType> {
    if s == "Alert"@ {
        Some(MsgType::Alert)
    } else if s == "Update"@ {
        Some(MsgType::Update)
    } else if s == "Cancel"@ {
        Some(MsgType::Cancel)
    } else if s == "Ack"@ {
        Some(MsgType::Ack)
    } else if s == "Error"@ {
        Some(MsgType::Error)
    } else {
        None
    }
}

impl MsgType {
    pub fn from_str(enum_string: &str) -> (r: Result<MsgType, ParseEnumError>)
        ensures
            match r {
                Ok(v) => sp_msg_type_from(enum_string@) == Some(v),
                Err(e) => sp_msg_type_from(enum_string@) is None && e@ == enum_string@,
            },
    {
        if crate::text::str_eq(enum_string, "Alert") {
            Ok(MsgType::Alert)
        } else if crate::text::str_eq(enum_string, "Update") {
            Ok(MsgType::Update)
        } else if crate::text::str_eq(enum_string, "Cancel") {
            Ok(MsgType::Cancel)
        } else if crate::text::str_eq(enum_string, "Ack") {
            Ok(MsgType::Ack)
        } else if crate::text::str_eq(enum_string, "Error") {
            Ok(MsgType::Error)
        } else {
            Err(ParseEnumError::enum_not_found(enum_string))
        }
    }

    /// The protocol token of this message type.
    pub fn as_str(&self) -> (r: &'static str)
        ensures
            sp_msg_type_from(r@) == Some(*self),
    {
        proof {
            lemma_msg_type_tokens();
        }
        match self {
            MsgType::Alert => "Alert",
            MsgType::Update => "Update",
            MsgType::Cancel => "Cancel",
            MsgType::Ack => "Ack",
            MsgType::Error => "Error",
        }
    }
}

/// The intended distribution of an alert message.
#[derive(PartialEq, Eq, Structural, Debug, Clone, Copy)]
pub enum Scope {
    Public,
    Restricted,
    Private,
}

impl View for Scope {
    type V = Scope;

    open spec fn view(&self) -> Scope {
        *self
    }
}

impl DeepView for Scope {
    type V = Scope;

    open spec fn deep_view(&self) -> Scope {
        *self
    }
}

pub open spec fn sp_scope_from(s: Seq<char>) -> Option<Scope> {
    if s == "Public"@ {
        Some(Scope::Public)
    } else if s == "Restricted"@ {
        Some(Scope::Restricted)
    } else if s == "Private"@ {
        Some(Scope::Private)
    } else {
        None
    }
}

impl Scope {
    pub fn from_str(enum_string: &str) -> (r: Result<Scope, ParseEnumError>)
        ensures
            match r {
                Ok(v) => sp_scope_from(enum_string@) == Some(v),
                Err(e) => sp_scope_from(enum_string@) is None && e@ == enum_string@,
            },
    {
        if crate::text::str_eq(enum_string, "Public") {
            Ok(Scope::Public)
        } else if crate::text::str_eq(enum_string, "Restricted") {
            Ok(Scope::Restricted)
        } else if crate::text::str_eq(enum_string, "Private") {
            Ok(Scope::Private)
        } else {
            Err(ParseEnumError::enum_not_found(enum_string))
        }
    }

    /// The protocol token of this scope.
    pub fn as_str(&self) -> (r: &'static str)
        ensures
            sp_scope_from(r@) == Some(*self),
    {
        proof {
            lemma_scope_tokens();
        }
        match self {
            Scope::Public => "Public",
            Scope::Restricted => "Restricted",
            Scope::Private => "Private",
        }
    }
}


/// Each status token resolves to its own variant.
pub proof fn lemma_status_tokens()
    ensures
        sp_status_from("Actual"@) == Some(Status::Actual),
        sp_status_from("Exercise"@) == Some(Status::Exercise),
        sp_status_from("System"@) == Some(Status::System),
        sp_status_from("Test"@) == Some(Status::Test),
        sp_status_from("Draft"@) == Some(Status::Draft),
{
    reveal_strlit("Actual");
    reveal_strlit("Exercise");
    reveal_strlit("System");
    reveal_strlit("Test");
    reveal_strlit("Draft");
    assert("Actual"@.len() == 6);
    assert("Exercise"@.len() == 8);
    assert("System"@.len() == 6);
    assert("Test"@.len() == 4);
    assert("Draft"@.len() == 5);
    assert("Actual"@[0] == 'A' && "System"@[0] == 'S');
}

/// Each message-type token resolves to its own variant.
pub proof fn lemma_msg_type_tokens()
    ensures
        sp_msg_type_from("Alert"@) == Some(MsgType::Alert),
        sp_msg_type_from("Update"@) == Some(MsgType::Update),
        sp_msg_type_from("Cancel"@) == Some(MsgType::Cancel),
        sp_msg_type_from("Ack"@) == Some(MsgType::Ack),
        sp_msg_type_from("Error"@) == Some(MsgType::Error),
{
    reveal_strlit("Alert");
    reveal_strlit("Update");
    reveal_strlit("Cancel");
    reveal_strlit("Ack");
    reveal_strlit("Error");
    assert("Alert"@.len() == 5);
    assert("Update"@.len() == 6);
    assert("Cancel"@.len() == 6);
    assert("Ack"@.len() == 3);
    assert("Error"@.len() == 5);
    assert("Alert"@[0] == 'A' && "Error"@[0] == 'E' && "Update"@[0] == 'U' && "Cancel"@[0]
        == 'C');
}

/// Each scope token resolves to its own variant.
pub proof fn lemma_scope_tokens()
    ensures
        sp_scope_from("Public"@) == Some(Scope::Public),
        sp_scope_from("Restricted"@) == Some(Scope::Restricted),
        sp_scope_from("Private"@) == Some(Scope::Private),
{
    reveal_strlit("Public");
    reveal_strlit("Restricted");
    reveal_strlit("Private");
    assert("Public"@.len() == 6);
    assert("Restricted"@.len() == 10);
    assert("Private"@.len() == 7);
}

} // verus!

verus! {

/// The top-level alert message.
#[derive(Debug, Clone, PartialEq)]
pub struct Alert {
    pub version: Option<Version>,
    pub identifier: Option<String>,
    pub sender: Option<String>,
    pub sent: Option<Timestamp>,
    pub status: Option<Status>,
    pub msg_type: Option<MsgType>,
    pub scope: Option<Scope>,
    pub source: Option<String>,
    pub restriction: Option<String>,
    pub note: Option<String>,
    pub addresses: Vec<String>,
    pub codes: Vec<String>,
    pub references: Vec<Reference>,
    pub incidents: Option<String>,
    pub infos: Vec<Info>,
}

/// Spec-level mirror of [`Alert`].
#[verifier::ext_equal]
pub struct AlertV {
    pub version: Option<Version>,
    pub identifier: Option<Seq<char>>,
    pub sender: Option<Seq<char>>,
    pub sent: Option<TimestampV>,
    pub status: Option<Status>,
    pub msg_type: Option<MsgType>,
    pub scope: Option<Scope>,
    pub source: Option<Seq<char>>,
    pub restriction: Option<Seq<char>>,
    pub note: Option<Seq<char>>,
    pub addresses: Seq<Seq<char>>,
    pub codes: Seq<Seq<char>>,
    pub references: Seq<ReferenceV>,
    pub incidents: Option<Seq<char>>,
    pub infos: Seq<InfoV>,
}

impl View for Alert {
    type V = AlertV;

    open spec fn view(&self) -> AlertV {
        AlertV {
            version: self.version,
            identifier: self.identifier.deep_view(),
            sender: self.sender.deep_view(),
            sent: self.sent.deep_view(),
            status: self.status,
            msg_type: self.msg_type,
            scope: self.scope,
            source: self.source.deep_view(),
            restriction: self.restriction.deep_view(),
            note: self.note.deep_view(),
            addresses: self.addresses.deep_view(),
            codes: self.codes.deep_view(),
            references: self.references.deep_view(),
            incidents: self.incidents.deep_view(),
            infos: self.infos.deep_view(),
        }
    }
}

impl DeepView for Alert {
    type V = AlertV;

    open spec fn deep_view(&self) -> AlertV {
        self.view()
    }
}

/// The empty alert the parse path starts from: no field is set, so a
/// parsed alert holds exactly what the document supplied.
pub open spec fn sp_alert_init() -> AlertV {
    AlertV {
        version: None,
        identifier: None,
        sender: None,
        sent: None,
        status: None,
        msg_type: None,
        scope: None,
        source: None,
        restriction: None,
        note: None,
        addresses: Seq::empty(),
        codes: Seq::empty(),
        references: Seq::empty(),
        incidents: None,
        infos: Seq::empty(),
    }
}

/// The alert dispatch: the root start tag fixes the version from the
/// namespace; scalar children overwrite; codes, references and info blocks
/// append in encountered order; status, message type and scope resolve
/// leniently, the sent timestamp resolves leniently; an unknown child or
/// end tag under the matching namespace is unexpected; end of input before
/// the closing `alert` tag fails; events under any other namespace are
/// skipped.
pub open spec fn sp_alert(ns: Seq<char>, evs: Seq<EventV>, i: int, acc: AlertV) -> Result<
    (AlertV, int),
    DeserialiseErrorV,
>
    decreases evs.len() - i,
    when 0 <= i
{
    if i >= evs.len() {
        Err(DeserialiseErrorV::EofReached)
    } else {
        match evs[i] {
            EventV::Eof => Err(DeserialiseErrorV::EofReached),
            EventV::Fail { message } => Err(DeserialiseErrorV::QuickXMLError(message)),
            EventV::Start { ns: ens, name: tag } => {
                if ens == Some(ns) {
                    if tag == "alert"@ {
                        match sp_version_from(ns) {
                            Some(v) => sp_alert(ns, evs, i + 1, AlertV { version: Some(v), ..acc }),
                            None => Err(DeserialiseErrorV::ParseEnumError(ns)),
                        }
                    } else if tag == "code"@ {
                        match sp_read_string(ns, evs, i + 1, "code"@, Seq::<char>::empty()) {
                            Ok((t, j)) => {
                                proof {
                                    lemma_read_string_progress(ns, evs, i + 1, "code"@, Seq::<char>::empty());
                                }
                                match t {
                                    Some(c) => sp_alert(ns, evs, j, AlertV { codes: acc.codes.push(c), ..acc }),
                                    None => sp_alert(ns, evs, j, acc),
                                }
                            },
                            Err(e) => Err(e),
                        }
                    } else if tag == "identifier"@ {
                        match sp_read_string(ns, evs, i + 1, "identifier"@, Seq::<char>::empty()) {
                            Ok((t, j)) => {
                                proof {
                                    lemma_read_string_progress(ns, evs, i + 1, "identifier"@, Seq::<char>::empty());
                                }
                                sp_alert(ns, evs, j, AlertV { identifier: t, ..acc })
                            },
                            Err(e) => Err(e),
                        }
                    } else if tag == "incidents"@ {
                        match sp_read_string(ns, evs, i + 1, "incidents"@, Seq::<char>::empty()) {
                            Ok((t, j)) => {
                                proof {
                                    lemma_read_string_progress(ns, evs, i + 1, "incidents"@, Seq::<char>::empty());
                                }
                                sp_alert(ns, evs, j, AlertV { incidents: t, ..acc })
                            },
                            Err(e) => Err(e),
                        }
                    } else if tag == "note"@ {
                        match sp_read_string(ns, evs, i + 1, "note"@, Seq::<char>::empty()) {
                            Ok((t, j)) => {
                                proof {
                                    lemma_read_string_progress(ns, evs, i + 1, "note"@, Seq::<char>::empty());
                                }
                                sp_alert(ns, evs, j, AlertV { note: t, ..acc })
                            },
                            Err(e) => Err(e),
                        }
                    } else if tag == "restriction"@ {
                        match sp_read_string(ns, evs, i + 1, "restriction"@, Seq::<char>::empty()) {
                            Ok((t, j)) => {
                                proof {
                                    lemma_read_string_progress(ns, evs, i + 1, "restriction"@, Seq::<char>::empty());
                                }
                                sp_alert(ns, evs, j, AlertV { restriction: t, ..acc })
                            },
                            Err(e) => Err(e),
                        }
                    } else if tag == "sender"@ {
                        match sp_read_string(ns, evs, i + 1, "sender"@, Seq::<char>::empty()) {
                            Ok((t, j)) => {
                                proof {
                                    lemma_read_string_progress(ns, evs, i + 1, "sender"@, Seq::<char>::empty());
                                }
                                sp_alert(ns, evs, j, AlertV { sender: t, ..acc })
                            },
                            Err(e) => Err(e),
                        }
                    } else if tag == "source"@ {
                        match sp_read_string(ns, evs, i + 1, "source"@, Seq::<char>::empty()) {
                            Ok((t, j)) => {
                                proof {
                                    lemma_read_string_progress(ns, evs, i + 1, "source"@, Seq::<char>::empty());
                                }
                                sp_alert(ns, evs, j, AlertV { source: t, ..acc })
                            },
                            Err(e) => Err(e),
                        }
                    } else if tag == "msgType"@ {
                        match sp_read_string(ns, evs, i + 1, "msgType"@, Seq::<char>::empty()) {
                            Ok((t, j)) => {
                                proof {
                                    lemma_read_string_progress(ns, evs, i + 1, "msgType"@, Seq::<char>::empty());
                                }
                                let v = match t {
                                    Some(x) => sp_msg_type_from(x),
                                    None => None,
                                };
                                sp_alert(ns, evs, j, AlertV { msg_type: v, ..acc })
                            },
                            Err(e) => Err(e),
                        }
                    } else if tag == "scope"@ {
                        match sp_read_string(ns, evs, i + 1, "scope"@, Seq::<char>::empty()) {
                            Ok((t, j)) => {
                                proof {
                                    lemma_read_string_progress(ns, evs, i + 1, "scope"@, Seq::<char>::empty());
                                }
                                let v = match t {
                                    Some(x) => sp_scope_from(x),
                                    None => None,
                                };
                                sp_alert(ns, evs, j, AlertV { scope: v, ..acc })
                            },
                            Err(e) => Err(e),
                        }
                    } else if tag == "status"@ {
                        match sp_read_string(ns, evs, i + 1, "status"@, Seq::<char>::empty()) {
                            Ok((t, j)) => {
                                proof {
                                    lemma_read_string_progress(ns, evs, i + 1, "status"@, Seq::<char>::empty());
                                }
                                let v = match t {
                                    Some(x) => sp_status_from(x),
                                    None => None,
                                };
                                sp_alert(ns, evs, j, AlertV { status: v, ..acc })
                            },
                            Err(e) => Err(e),
                        }
                    } else if tag == "sent"@ {
                        match sp_read_string(ns, evs, i + 1, "sent"@, Seq::<char>::empty()) {
                            Ok((t, j)) => {
                                proof {
                                    lemma_read_string_progress(ns, evs, i + 1, "sent"@, Seq::<char>::empty());
                                }
                                let v = match t {
                                    Some(x) => sp_timestamp(x),
                                    None => None,
                                };
                                sp_alert(ns, evs, j, AlertV { sent: v, ..acc })
                            },
                            Err(e) => Err(e),
                        }
                    } else if tag == "references"@ {
                        match sp_read_string(ns, evs, i + 1, "references"@, Seq::<char>::empty()) {
                            Ok((t, j)) => {
                                proof {
                                    lemma_read_string_progress(ns, evs, i + 1, "references"@, Seq::<char>::empty());
                                }
                                match t {
                                    Some(x) => sp_alert(
                                        ns,
                                        evs,
                                        j,
                                        AlertV {
                                            references: acc.references + sp_references_of(
                                                sp_split_char(x, ' '),
                                            ),
                                            ..acc
                                        },
                                    ),
                                    None => sp_alert(ns, evs, j, acc),
                                }
                            },
                            Err(e) => Err(e),
                        }
                    } else if tag == "info"@ {
                        match sp_info(ns, evs, i + 1, sp_info_init()) {
                            Ok((inf, j)) => {
                                proof {
                                    lemma_info_progress(ns, evs, i + 1, sp_info_init());
                                }
                                sp_alert(ns, evs, j, AlertV { infos: acc.infos.push(inf), ..acc })
                            },
                            Err(e) => Err(e),
                        }
                    } else {
                        Err(DeserialiseErrorV::TagNotExpected(sp_tag_not_expected_msg(tag)))
                    }
                } else {
                    sp_alert(ns, evs, i + 1, acc)
                }
            },
            EventV::End { ns: ens, name: tag } => {
                if ens == Some(ns) {
                    if tag == "alert"@ {
                        Ok((acc, i + 1))
                    } else {
                        Err(DeserialiseErrorV::TagNotExpected(sp_tag_not_expected_msg(tag)))
                    }
                } else {
                    sp_alert(ns, evs, i + 1, acc)
                }
            },
            _ => sp_alert(ns, evs, i + 1, acc),
        }
    }
}

/// What parsing a whole document yields: the version sniff over the raw
/// bytes picks the namespace, then the alert dispatch runs over the
/// document's event stream from an empty alert.
pub open spec fn sp_parse(doc: Seq<char>) -> Result<AlertV, DeserialiseErrorV> {
    match crate::utilities::sp_cap_namespace(vstd::utf8::encode_utf8(doc)) {
        Some(ns) => match sp_alert(ns, doc_events(doc), 0, sp_alert_init()) {
            Ok((a, _)) => Ok(a),
            Err(e) => Err(e),
        },
        None => Err(DeserialiseErrorV::NameSpaceNotFound),
    }
}

} // verus!

verus! {

/// Relies on `uuid::Uuid::new_v4` and its hyphenated display: a freshly
/// generated unique token in hyphenated form, which is always 36 characters
/// long.
#[verifier::external_body]
fn fresh_identifier() -> (r: String)
    ensures
        r@.len() == 36,
{
    uuid::Uuid::new_v4().hyphenated().to_string()
}

impl Alert {
    /// An alert for programmatic construction: every field is empty except
    /// the identifier, which defaults to a freshly generated unique token.
    pub fn initialise() -> (r: Alert)
        ensures
            r@.identifier matches Some(s) && s.len() == 36,
            r@ == (AlertV { identifier: r@.identifier, ..sp_alert_init() }),
    {
        let identifier = fresh_identifier();
        let r = Alert {
            version: None,
            identifier: Some(identifier),
            sender: None,
            sent: None,
            status: None,
            msg_type: None,
            scope: None,
            source: None,
            restriction: None,
            note: None,
            addresses: Vec::new(),
            codes: Vec::new(),
            references: Vec::new(),
            incidents: None,
            infos: Vec::new(),
        };
        proof {
            assert(r@ =~= (AlertV { identifier: r@.identifier, ..sp_alert_init() }));
        }
        r
    }

    /// Appends an info block, for programmatic construction.
    pub fn add_info(&mut self, info: Info)
        ensures
            final(self)@ == (AlertV { infos: old(self)@.infos.push(info@), ..old(self)@ }),
    {
        self.infos.push(info);
        proof {
            assert(final(self)@ =~= (AlertV {
                infos: old(self)@.infos.push(info@),
                ..old(self)@
            }));
        }
    }

    /// Reads the whole `alert` element, starting from an empty alert.
    pub fn deserialize_from_xml(namespace: &str, events: &Vec<XmlEvent>, pos: usize) -> (r: Result<
        (Alert, usize),
        DeserialiseError,
    >)
        ensures
            sp_step(r) == sp_alert(namespace@, events.deep_view(), pos as int, sp_alert_init()),
    {
        let ghost evs = events.deep_view();
        let n: usize = events.len();
        proof {
            assert(evs.len() == n);
        }
        let mut alert = Alert {
            version: None,
            identifier: None,
            sender: None,
            sent: None,
            status: None,
            msg_type: None,
            scope: None,
            source: None,
            restriction: None,
            note: None,
            addresses: Vec::new(),
            codes: Vec::new(),
            references: Vec::new(),
            incidents: None,
            infos: Vec::new(),
        };
        proof {
            assert(alert@ =~= sp_alert_init());
        }
        let mut i: usize = pos;
        loop
            invariant
                evs == events.deep_view(),
                n == evs.len(),
                pos <= i,
                sp_alert(namespace@, evs, pos as int, sp_alert_init()) == sp_alert(
                    namespace@,
                    evs,
                    i as int,
                    alert@,
                ),
            decreases n - i,
        {
            if i >= n {
                return Err(DeserialiseError::EofReached);
            }
            proof {
                assert(evs[i as int] == events@[i as int]@);
            }
            match &events[i] {
                XmlEvent::Eof => {
                    return Err(DeserialiseError::EofReached);
                },
                XmlEvent::Fail { message } => {
                    return Err(DeserialiseError::QuickXMLError(message.clone()));
                },
                XmlEvent::Start { ns, name: tag } => {
                    let matching = match ns {
                        Some(ens) => str_eq(ens.as_str(), namespace),
                        None => false,
                    };
                    if matching {
                        if str_eq(tag.as_str(), "alert") {
                            match Version::from_str(namespace) {
                                Ok(v) => {
                                    alert.version = Some(v);
                                    i += 1;
                                },
                                Err(e) => {
                                    return Err(DeserialiseError::ParseEnumError(e));
                                },
                            }
                        } else if str_eq(tag.as_str(), "code") {
                            let (t, j) = match read_string(namespace, events, i + 1, "code") {
                                Ok(x) => x,
                                Err(e) => return Err(e),
                            };
                            proof {
                                lemma_read_string_progress(
                                    namespace@,
                                    evs,
                                    i + 1 as int,
                                    "code"@,
                                    Seq::<char>::empty(),
                                );
                            }
                            let ghost old_alert = alert@;
                            match t {
                                Some(c) => {
                                    let ghost cv = c@;
                                    alert.codes.push(c);
                                    proof {
                                        assert(alert@ =~= (AlertV {
                                            codes: old_alert.codes.push(cv),
                                            ..old_alert
                                        }));
                                    }
                                },
                                None => {},
                            }
                            i = j;
                        } else if str_eq(tag.as_str(), "identifier") {
                            let (t, j) = match read_string(namespace, events, i + 1, "identifier") {
                                Ok(x) => x,
                                Err(e) => return Err(e),
                            };
                            proof {
                                lemma_read_string_progress(
                                    namespace@,
                                    evs,
                                    i + 1 as int,
                                    "identifier"@,
                                    Seq::<char>::empty(),
                                );
                            }
                            alert.identifier = t;
                            i = j;
                        } else if str_eq(tag.as_str(), "incidents") {
                            let (t, j) = match read_string(namespace, events, i + 1, "incidents") {
                                Ok(x) => x,
                                Err(e) => return Err(e),
                            };
                            proof {
                                lemma_read_string_progress(
                                    namespace@,
                                    evs,
                                    i + 1 as int,
                                    "incidents"@,
                                    Seq::<char>::empty(),
                                );
                            }
                            alert.incidents = t;
                            i = j;
                        } else if str_eq(tag.as_str(), "note") {
                            let (t, j) = match read_string(namespace, events, i + 1, "note") {
                                Ok(x) => x,
                                Err(e) => return Err(e),
                            };
                            proof {
                                lemma_read_string_progress(
                                    namespace@,
                                    evs,
                                    i + 1 as int,
                                    "note"@,
                                    Seq::<char>::empty(),
                                );
                            }
                            alert.note = t;
                            i = j;
                        } else if str_eq(tag.as_str(), "restriction") {
                            let (t, j) = match read_string(namespace, events, i + 1, "restriction") {
                                Ok(x) => x,
                                Err(e) => return Err(e),
                            };
                            proof {
                                lemma_read_string_progress(
                                    namespace@,
                                    evs,
                                    i + 1 as int,
                                    "restriction"@,
                                    Seq::<char>::empty(),
                                );
                            }
                            alert.restriction = t;
                            i = j;
                        } else if str_eq(tag.as_str(), "sender") {
                            let (t, j) = match read_string(namespace, events, i + 1, "sender") {
                                Ok(x) => x,
                                Err(e) => return Err(e),
                            };
                            proof {
                                lemma_read_string_progress(
                                    namespace@,
                                    evs,
                                    i + 1 as int,
                                    "sender"@,
                                    Seq::<char>::empty(),
                                );
                            }
                            alert.sender = t;
                            i = j;
                        } else if str_eq(tag.as_str(), "source") {
                            let (t, j) = match read_string(namespace, events, i + 1, "source") {
                                Ok(x) => x,
                                Err(e) => return Err(e),
                            };
                            proof {
                                lemma_read_string_progress(
                                    namespace@,
                                    evs,
                                    i + 1 as int,
                                    "source"@,
                                    Seq::<char>::empty(),
                                );
                            }
                            alert.source = t;
                            i = j;
                        } else if str_eq(tag.as_str(), "msgType") {
                            let (t, j) = match read_string(namespace, events, i + 1, "msgType") {
                                Ok(x) => x,
                                Err(e) => return Err(e),
                            };
                            proof {
                                lemma_read_string_progress(
                                    namespace@,
                                    evs,
                                    i + 1 as int,
                                    "msgType"@,
                                    Seq::<char>::empty(),
                                );
                            }
                            alert.msg_type = match t {
                                Some(x) => match MsgType::from_str(x.as_str()) {
                                    Ok(u) => Some(u),
                                    Err(_) => None,
                                },
                                None => None,
                            };
                            i = j;
                        } else if str_eq(tag.as_str(), "scope") {
                            let (t, j) = match read_string(namespace, events, i + 1, "scope") {
                                Ok(x) => x,
                                Err(e) => return Err(e),
                            };
                            proof {
                                lemma_read_string_progress(
                                    namespace@,
                                    evs,
                                    i + 1 as int,
                                    "scope"@,
                                    Seq::<char>::empty(),
                                );
                            }
                            alert.scope = match t {
                                Some(x) => match Scope::from_str(x.as_str()) {
                                    Ok(u) => Some(u),
                                    Err(_) => None,
                                },
                                None => None,
                            };
                            i = j;
                        } else if str_eq(tag.as_str(), "status") {
                            let (t, j) = match read_string(namespace, events, i + 1, "status") {
                                Ok(x) => x,
                                Err(e) => return Err(e),
                            };
                            proof {
                                lemma_read_string_progress(
                                    namespace@,
                                    evs,
                                    i + 1 as int,
                                    "status"@,
                                    Seq::<char>::empty(),
                                );
                            }
                            alert.status = match t {
                                Some(x) => match Status::from_str(x.as_str()) {
                                    Ok(u) => Some(u),
                                    Err(_) => None,
                                },
                                None => None,
                            };
                            i = j;
                        } else if str_eq(tag.as_str(), "sent") {
                            let (t, j) = match read_string(namespace, events, i + 1, "sent") {
                                Ok(x) => x,
                                Err(e) => return Err(e),
                            };
                            proof {
                                lemma_read_string_progress(
                                    namespace@,
                                    evs,
                                    i + 1 as int,
                                    "sent"@,
                                    Seq::<char>::empty(),
                                );
                            }
                            alert.sent = match t {
                                Some(x) => Timestamp::parse(x.as_str()),
                                None => None,
                            };
                            i = j;
                        } else if str_eq(tag.as_str(), "references") {
                            let (t, j) = match read_string(namespace, events, i + 1, "references") {
                                Ok(x) => x,
                                Err(e) => return Err(e),
                            };
                            proof {
                                lemma_read_string_progress(
                                    namespace@,
                                    evs,
                                    i + 1 as int,
                                    "references"@,
                                    Seq::<char>::empty(),
                                );
                            }
                            match t {
                                Some(x) => {
                                    let mut refs = match Reference::parse_reference_string(
                                        x.as_str(),
                                    ) {
                                        Ok(v) => v,
                                        Err(e) => return Err(e),
                                    };
                                    let ghost rv = refs.deep_view();
                                    let ghost old_refs = alert@.references;
                                    let ghost old_alert = alert@;
                                    proof {
                                        assert(rv.take(0) =~= Seq::<ReferenceV>::empty());
                                        assert(old_refs + rv.take(0) =~= old_refs);
                                        assert(alert@ =~= (AlertV {
                                            references: old_refs + rv.take(0),
                                            ..old_alert
                                        }));
                                        assert(rv.skip(0) =~= rv);
                                    }
                                    while refs.len() > 0
                                        invariant
                                            refs@.len() <= rv.len(),
                                            refs.deep_view() == rv.skip(rv.len() - refs@.len()),
                                            alert@ == (AlertV {
                                                references: old_refs + rv.take(
                                                    rv.len() - refs@.len(),
                                                ),
                                                ..old_alert
                                            }),
                                        decreases refs@.len(),
                                    {
                                        let ghost c = rv.len() - refs@.len();
                                        let ghost v0 = refs@;
                                        proof {
                                            assert(refs.deep_view()[0] == refs@[0]@);
                                            assert(rv.skip(c)[0] == rv[c]);
                                        }
                                        let one = refs.remove(0);
                                        let ghost before = alert@;
                                        alert.references.push(one);
                                        proof {
                                            assert(refs@ =~= v0.drop_first());
                                            assert forall|m: int|
                                                0 <= m < refs@.len() implies refs.deep_view()[m]
                                                == rv.skip(c + 1)[m] by {
                                                assert(refs@[m] == v0[m + 1]);
                                                assert(rv.skip(c)[m + 1] == v0[m + 1]@);
                                            }
                                            assert(refs.deep_view() =~= rv.skip(c + 1));
                                            assert(alert@.references =~= before.references.push(
                                                one@,
                                            ));
                                            assert(old_refs + rv.take(c + 1) =~= (old_refs
                                                + rv.take(c)).push(rv[c]));
                                            assert(alert@ =~= (AlertV {
                                                references: old_refs + rv.take(c + 1),
                                                ..old_alert
                                            }));
                                        }
                                    }
                                    proof {
                                        assert(rv.take(rv.len() as int) =~= rv);
                                        assert(alert@ =~= (AlertV {
                                            references: old_refs + rv,
                                            ..old_alert
                                        }));
                                    }
                                },
                                None => {},
                            }
                            i = j;
                        } else if str_eq(tag.as_str(), "info") {
                            let (inf, j) = match Info::deserialize_from_xml(
                                namespace,
                                events,
                                i + 1,
                            ) {
                                Ok(x) => x,
                                Err(e) => return Err(e),
                            };
                            let ghost old_alert = alert@;
                            let ghost iv = inf.deep_view();
                            alert.infos.push(inf);
                            proof {
                                assert(alert@ =~= (AlertV {
                                    infos: old_alert.infos.push(iv),
                                    ..old_alert
                                }));
                            }
                            i = j;
                        } else {
                            return Err(DeserialiseError::tag_not_expected(tag.as_str()));
                        }
                    } else {
                        i += 1;
                    }
                },
                XmlEvent::End { ns, name: tag } => {
                    let matching = match ns {
                        Some(ens) => str_eq(ens.as_str(), namespace),
                        None => false,
                    };
                    if matching {
                        if str_eq(tag.as_str(), "alert") {
                            return Ok((alert, i + 1));
                        } else {
                            return Err(DeserialiseError::tag_not_expected(tag.as_str()));
                        }
                    } else {
                        i += 1;
                    }
                },
                _ => {
                    i += 1;
                },
            }
        }
    }
}

/// Parses a whole CAP document: sniffs the namespace from the raw text,
/// tokenizes, and runs the alert dispatch; the result is a function of the
/// document text alone.
pub fn parse(xml_string: &str) -> (r: Result<Alert, DeserialiseError>)
    ensures
        sp_res(r) == sp_parse(xml_string@),
{
    match crate::utilities::look_for_cap_namespace(xml_string) {
        Some(namespace) => {
            let events = read_events(xml_string);
            match Alert::deserialize_from_xml(namespace, &events, 0) {
                Ok((alert, _)) => Ok(alert),
                Err(e) => Err(e),
            }
        },
        None => Err(DeserialiseError::NameSpaceNotFound),
    }
}

} // verus!

verus! {

/// The known child vocabulary of the `alert` element.
pub open spec fn sp_alert_child(tag: Seq<char>) -> bool {
    tag == "alert"@ || tag == "code"@ || tag == "identifier"@ || tag == "incidents"@ || tag
        == "note"@ || tag == "restriction"@ || tag == "sender"@ || tag == "source"@ || tag
        == "msgType"@ || tag == "scope"@ || tag == "status"@ || tag == "sent"@ || tag
        == "references"@ || tag == "info"@
}

/// A document whose raw text contains none of the three recognized
/// namespace URNs fails with the namespace-not-found error.
pub proof fn lemma_missing_namespace_fails(doc: Seq<char>)
    requires
        !crate::utilities::sp_bytes_contains(
            vstd::utf8::encode_utf8(doc),
            VERSION_1_0.spec_bytes(),
        ),
        !crate::utilities::sp_bytes_contains(
            vstd::utf8::encode_utf8(doc),
            VERSION_1_1.spec_bytes(),
        ),
        !crate::utilities::sp_bytes_contains(
            vstd::utf8::encode_utf8(doc),
            VERSION_1_2.spec_bytes(),
        ),
    ensures
        sp_parse(doc) == Err::<AlertV, _>(DeserialiseErrorV::NameSpaceNotFound),
{
}

/// An unrecognized child start tag under the matching namespace is fatal
/// to the alert dispatch, whatever has been accumulated.
pub proof fn lemma_alert_unknown_child_fails(
    ns: Seq<char>,
    evs: Seq<EventV>,
    i: int,
    acc: AlertV,
    tag: Seq<char>,
)
    requires
        0 <= i < evs.len(),
        evs[i] == (EventV::Start { ns: Some(ns), name: tag }),
        !sp_alert_child(tag),
    ensures
        sp_alert(ns, evs, i, acc) == Err::<(AlertV, int), _>(
            DeserialiseErrorV::TagNotExpected(sp_tag_not_expected_msg(tag)),
        ),
{
}

/// An error of an embedded info block is the error of the whole alert
/// dispatch: failures propagate unchanged through the nesting.
pub proof fn lemma_alert_info_error_propagates(
    ns: Seq<char>,
    evs: Seq<EventV>,
    i: int,
    acc: AlertV,
    e: DeserialiseErrorV,
)
    requires
        0 <= i < evs.len(),
        evs[i] == (EventV::Start { ns: Some(ns), name: "info"@ }),
        sp_info(ns, evs, i + 1, sp_info_init()) == Err::<(InfoV, int), _>(e),
    ensures
        sp_alert(ns, evs, i, acc) == Err::<(AlertV, int), _>(e),
{
    proof_literals_alert();
}

/// The alert child tokens are pairwise distinct words.
proof fn proof_literals_alert()
    ensures
        "info"@ != "alert"@ && "info"@ != "code"@ && "info"@ != "identifier"@ && "info"@
            != "incidents"@ && "info"@ != "note"@ && "info"@ != "restriction"@ && "info"@
            != "sender"@ && "info"@ != "source"@ && "info"@ != "msgType"@ && "info"@ != "scope"@
            && "info"@ != "status"@ && "info"@ != "sent"@ && "info"@ != "references"@,
{
    reveal_strlit("info");
    reveal_strlit("alert");
    reveal_strlit("code");
    reveal_strlit("identifier");
    reveal_strlit("incidents");
    reveal_strlit("note");
    reveal_strlit("restriction");
    reveal_strlit("sender");
    reveal_strlit("source");
    reveal_strlit("msgType");
    reveal_strlit("scope");
    reveal_strlit("status");
    reveal_strlit("sent");
    reveal_strlit("references");
    assert("info"@.len() == 4);
    assert("alert"@.len() == 5);
    assert("code"@.len() == 4);
    assert("identifier"@.len() == 10);
    assert("incidents"@.len() == 9);
    assert("note"@.len() == 4);
    assert("restriction"@.len() == 11);
    assert("sender"@.len() == 6);
    assert("source"@.len() == 6);
    assert("msgType"@.len() == 7);
    assert("scope"@.len() == 5);
    assert("status"@.len() == 6);
    assert("sent"@.len() == 4);
    assert("references"@.len() == 10);
    assert("info"@[0] == 'i' && "code"@[0] == 'c' && "note"@[0] == 'n' && "sent"@[0] == 's');
}

/// Parsing is deterministic: two results of parsing the same document text
/// are structurally equal, since the parse is a function of the text alone.
pub proof fn lemma_parse_deterministic(
    doc: Seq<char>,
    r1: Result<AlertV, DeserialiseErrorV>,
    r2: Result<AlertV, DeserialiseErrorV>,
)
    requires
        r1 == sp_parse(doc),
        r2 == sp_parse(doc),
    ensures
        r1 == r2,
{
}

} // verus!
