//! Shared low-level readers: the namespace sniff, the leaf text reader, the
//! name/value pair reader and token splitting.

use vstd::prelude::*;
use vstd::string::*;
use crate::alert::{VERSION_1_0, VERSION_1_1, VERSION_1_2};
use crate::deserialise_error::{DeserialiseError, DeserialiseErrorV};
use crate::text::{sp_split_char, sp_trim, split_char, str_eq, trim_ws};
use crate::xml_events::{describe, sp_describe, EventV, XmlEvent};

verus! {

/// The view of a step result: the parsed value together with the index of
/// the next unread event, or the error.
pub open spec fn sp_step<T: DeepView>(r: Result<(T, usize), DeserialiseError>) -> Result<
    (T::V, int),
    DeserialiseErrorV,
> {
    match r {
        Ok((v, j)) => Ok((v.deep_view(), j as int)),
        Err(e) => Err(e@),
    }
}

/// The view of a whole-value result.
pub open spec fn sp_res<T: DeepView>(r: Result<T, DeserialiseError>) -> Result<
    T::V,
    DeserialiseErrorV,
> {
    match r {
        Ok(v) => Ok(v.deep_view()),
        Err(e) => Err(e@),
    }
}

/// Whether the byte pattern `n` occurs inside `h`.
pub open spec fn sp_bytes_contains(h: Seq<u8>, n: Seq<u8>) -> bool {
    exists|k: int| 0 <= k <= h.len() - n.len() && #[trigger] h.subrange(k, k + n.len()) == n
}

/// Naive substring search over bytes.
fn bytes_contains(hay: &[u8], needle: &[u8]) -> (r: bool)
    ensures
        r == sp_bytes_contains(hay@, needle@),
{
    let m: usize = needle.len();
    let n: usize = hay.len();
    if m > n {
        return false;
    }
    if m == 0 {
        proof {
            assert(hay@.subrange(0, 0 + needle@.len() as int) =~= needle@);
        }
        return true;
    }
    let mut k: usize = 0;
    while k <= n - m
        invariant
            1 <= m,
            m == needle@.len() <= n == hay@.len(),
            k <= n - m + 1,
            forall|q: int| 0 <= q < k ==> #[trigger] hay@.subrange(q, q + needle@.len()) != needle@,
        decreases n + 1 - k,
    {
        let mut j: usize = 0;
        let mut hit = true;
        while j < m
            invariant
                m == needle@.len() <= n == hay@.len(),
                k <= n - m,
                j <= m,
                hit ==> forall|q: int| 0 <= q < j ==> hay@[k + q] == needle@[q],
                !hit ==> hay@.subrange(k as int, k + needle@.len()) != needle@,
            decreases m - j,
        {
            if hay[k + j] != needle[j] {
                proof {
                    let sub = hay@.subrange(k as int, k + needle@.len());
                    assert(sub[j as int] == hay@[k + j]);
                    assert(sub[j as int] != needle@[j as int]);
                }
                hit = false;
                j = m;
            } else {
                j += 1;
            }
        }
        if hit {
            proof {
                let sub = hay@.subrange(k as int, k + needle@.len());
                assert(sub =~= needle@);
            }
            return true;
        }
        k += 1;
    }
    proof {
        assert forall|q: int| 0 <= q <= hay@.len() - needle@.len() implies #[trigger] hay@.subrange(
            q,
            q + needle@.len(),
        ) != needle@ by {
            assert(q < k);
        }
    }
    false
}

/// The namespace URN the version sniff selects for a document with these
/// bytes: the first of the three recognized URNs that occurs anywhere in
/// the raw text.
pub open spec fn sp_cap_namespace(b: Seq<u8>) -> Option<Seq<char>> {
    if sp_bytes_contains(b, VERSION_1_0.spec_bytes()) {
        Some(VERSION_1_0@)
    } else if sp_bytes_contains(b, VERSION_1_1.spec_bytes()) {
        Some(VERSION_1_1@)
    } else if sp_bytes_contains(b, VERSION_1_2.spec_bytes()) {
        Some(VERSION_1_2@)
    } else {
        None
    }
}

/// Scans the raw document text for one of the three recognized CAP
/// namespace URNs, in version order; the first hit decides the protocol
/// namespace of the whole document.
pub fn look_for_cap_namespace(xml_string: &str) -> (r: Option<&'static str>)
    ensures
        match r {
            Some(ns) => sp_cap_namespace(xml_string.spec_bytes()) == Some(ns@),
            None => sp_cap_namespace(xml_string.spec_bytes()) is None,
        },
{
    let hay = xml_string.as_bytes();
    if bytes_contains(hay, VERSION_1_0.as_bytes()) {
        Some(VERSION_1_0)
    } else if bytes_contains(hay, VERSION_1_1.as_bytes()) {
        Some(VERSION_1_1)
    } else if bytes_contains(hay, VERSION_1_2.as_bytes()) {
        Some(VERSION_1_2)
    } else {
        None
    }
}

/// Splits a list-valued field on single spaces, as the references field
/// requires.
pub fn split_string(string: &str) -> (r: Result<Vec<String>, DeserialiseError>)
    ensures
        r matches Ok(v) && v.deep_view() == sp_split_char(string@, ' '),
{
    Ok(split_char(string, ' '))
}

/// The replacement text of a general reference: the five predefined XML
/// entities are resolved, anything else fails.
pub open spec fn sp_resolve_ref(name: Seq<char>) -> Option<Seq<char>> {
    if name == "amp"@ {
        Some("&"@)
    } else if name == "lt"@ {
        Some("<"@)
    } else if name == "gt"@ {
        Some(">"@)
    } else if name == "apos"@ {
        Some("'"@)
    } else if name == "quot"@ {
        Some("\""@)
    } else {
        None
    }
}

fn resolve_ref(name: &str) -> (r: Option<String>)
    ensures
        r.deep_view() == sp_resolve_ref(name@),
{
    if str_eq(name, "amp") {
        Some("&".to_owned())
    } else if str_eq(name, "lt") {
        Some("<".to_owned())
    } else if str_eq(name, "gt") {
        Some(">".to_owned())
    } else if str_eq(name, "apos") {
        Some("'".to_owned())
    } else if str_eq(name, "quot") {
        Some("\"".to_owned())
    } else {
        None
    }
}

/// The message of the missing-end-tag error of the leaf text reader.
pub open spec fn sp_no_end_msg(close: Seq<char>) -> Seq<char> {
    "No end tag found: "@ + close
}

/// The message of the unresolved-reference error.
pub open spec fn sp_bad_ref_msg(name: Seq<char>) -> Seq<char> {
    "Unresolvable reference: "@ + name
}

/// The leaf text reader: starting at event `i`, accumulates text content
/// and resolved references (with `acc` already gathered) until the matching
/// end tag of `close` under namespace `ns`; events under a different
/// namespace are skipped; a start tag or any other structural event is a
/// contradiction; end of input fails. Returns the accumulated text with its
/// surrounding whitespace trimmed, or `None` when nothing but whitespace
/// was gathered, with the index after the end tag.
pub open spec fn sp_read_string(
    ns: Seq<char>,
    evs: Seq<EventV>,
    i: int,
    close: Seq<char>,
    acc: Seq<char>,
) -> Result<(Option<Seq<char>>, int), DeserialiseErrorV>
    decreases evs.len() - i,
    when 0 <= i
{
    if i >= evs.len() {
        Err(DeserialiseErrorV::EofReached)
    } else {
        match evs[i] {
            EventV::Text { content } => sp_read_string(ns, evs, i + 1, close, acc + content),
            EventV::Ref { name } => match sp_resolve_ref(name) {
                Some(t) => sp_read_string(ns, evs, i + 1, close, acc + t),
                None => Err(DeserialiseErrorV::QuickXMLError(sp_bad_ref_msg(name))),
            },
            EventV::End { ns: ens, name } => {
                if ens == Some(ns) {
                    if name == close {
                        Ok(
                            (
                                if sp_trim(acc).len() > 0 {
                                    Some(sp_trim(acc))
                                } else {
                                    None
                                },
                                i + 1,
                            ),
                        )
                    } else {
                        Err(DeserialiseErrorV::Error(sp_no_end_msg(close)))
                    }
                } else if ens is Some {
                    sp_read_string(ns, evs, i + 1, close, acc)
                } else {
                    Err(DeserialiseErrorV::Error(sp_no_end_msg(close)))
                }
            },
            EventV::Start { ns: ens, name } => {
                if ens is Some && ens != Some(ns) {
                    sp_read_string(ns, evs, i + 1, close, acc)
                } else {
                    Err(DeserialiseErrorV::Error(sp_no_end_msg(close)))
                }
            },
            EventV::Empty { ns: ens, name } => {
                if ens is Some && ens != Some(ns) {
                    sp_read_string(ns, evs, i + 1, close, acc)
                } else {
                    Err(DeserialiseErrorV::Error(sp_no_end_msg(close)))
                }
            },
            EventV::Eof => Err(DeserialiseErrorV::EofReached),
            EventV::Fail { message } => Err(DeserialiseErrorV::QuickXMLError(message)),
            EventV::Other => Err(DeserialiseErrorV::Error(sp_no_end_msg(close))),
        }
    }
}

/// A successful leaf text read always makes progress and stays in bounds.
pub proof fn lemma_read_string_progress(
    ns: Seq<char>,
    evs: Seq<EventV>,
    i: int,
    close: Seq<char>,
    acc: Seq<char>,
)
    requires
        0 <= i,
    ensures
        sp_read_string(ns, evs, i, close, acc) matches Ok((_, j)) ==> i < j <= evs.len(),
    decreases evs.len() - i,
{
    if i >= evs.len() {
    } else {
        match evs[i] {
            EventV::Text { content } => lemma_read_string_progress(
                ns,
                evs,
                i + 1,
                close,
                acc + content,
            ),
            EventV::Ref { name } => match sp_resolve_ref(name) {
                Some(t) => lemma_read_string_progress(ns, evs, i + 1, close, acc + t),
                None => {},
            },
            EventV::End { ns: ens, name } => {
                if !(ens == Some(ns)) && ens is Some {
                    lemma_read_string_progress(ns, evs, i + 1, close, acc);
                }
            },
            EventV::Start { ns: ens, name } => {
                if ens is Some && ens != Some(ns) {
                    lemma_read_string_progress(ns, evs, i + 1, close, acc);
                }
            },
            EventV::Empty { ns: ens, name } => {
                if ens is Some && ens != Some(ns) {
                    lemma_read_string_progress(ns, evs, i + 1, close, acc);
                }
            },
            _ => {},
        }
    }
}

/// Reads the text of a scalar field up to its closing tag.
pub fn read_string(
    namespace: &str,
    events: &Vec<XmlEvent>,
    pos: usize,
    closing_tag: &str,
) -> (r: Result<(Option<String>, usize), DeserialiseError>)
    ensures
        sp_step(r) == sp_read_string(
            namespace@,
            events.deep_view(),
            pos as int,
            closing_tag@,
            Seq::<char>::empty(),
        ),
{
    let ghost evs = events.deep_view();
    let n: usize = events.len();
    proof {
        assert(evs.len() == n);
    }
    let mut acc: String = String::new();
    let mut i: usize = pos;
    while i < n
        invariant
            evs == events.deep_view(),
            n == evs.len(),
            pos <= i,
            sp_read_string(namespace@, evs, pos as int, closing_tag@, Seq::<char>::empty())
                == sp_read_string(namespace@, evs, i as int, closing_tag@, acc@),
        decreases n - i,
    {
        proof {
            assert(evs[i as int] == events@[i as int]@);
        }
        match &events[i] {
            XmlEvent::Text { content } => {
                acc.append(content.as_str());
                i += 1;
            },
            XmlEvent::Ref { name } => {
                match resolve_ref(name.as_str()) {
                    Some(t) => {
                        acc.append(t.as_str());
                        i += 1;
                    },
                    None => {
                        return Err(
                            DeserialiseError::QuickXMLError(
                                "Unresolvable reference: ".to_owned().concat(name.as_str()),
                            ),
                        );
                    },
                }
            },
            XmlEvent::End { ns, name } => {
                match ns {
                    Some(ens) => {
                        if str_eq(ens.as_str(), namespace) {
                            if str_eq(name.as_str(), closing_tag) {
                                let trimmed = trim_ws(acc.as_str());
                                let text = if trimmed.as_str().is_empty() {
                                    None
                                } else {
                                    Some(trimmed)
                                };
                                return Ok((text, i + 1));
                            } else {
                                return Err(
                                    DeserialiseError::error(
                                        "No end tag found: ".to_owned().concat(closing_tag).as_str(),
                                    ),
                                );
                            }
                        } else {
                            i += 1;
                        }
                    },
                    None => {
                        return Err(
                            DeserialiseError::error(
                                "No end tag found: ".to_owned().concat(closing_tag).as_str(),
                            ),
                        );
                    },
                }
            },
            XmlEvent::Start { ns, name } => {
                let foreign = match ns {
                    Some(ens) => !str_eq(ens.as_str(), namespace),
                    None => false,
                };
                if foreign {
                    i += 1;
                } else {
                    return Err(
                        DeserialiseError::error(
                            "No end tag found: ".to_owned().concat(closing_tag).as_str(),
                        ),
                    );
                }
            },
            XmlEvent::Empty { ns, name } => {
                let foreign = match ns {
                    Some(ens) => !str_eq(ens.as_str(), namespace),
                    None => false,
                };
                if foreign {
                    i += 1;
                } else {
                    return Err(
                        DeserialiseError::error(
                            "No end tag found: ".to_owned().concat(closing_tag).as_str(),
                        ),
                    );
                }
            },
            XmlEvent::Eof => {
                return Err(DeserialiseError::EofReached);
            },
            XmlEvent::Fail { message } => {
                return Err(DeserialiseError::QuickXMLError(message.clone()));
            },
            XmlEvent::Other => {
                return Err(
                    DeserialiseError::error(
                        "No end tag found: ".to_owned().concat(closing_tag).as_str(),
                    ),
                );
            },
        }
    }
    Err(DeserialiseError::EofReached)
}

} // verus!

verus! {

/// The name/value pair reader: reads the shared two-child shape
/// (`valueName`, `value`, in either order, each optional) until the end tag
/// of the enclosing element.  An unrecognized or foreign child start tag is
/// fatal; a matching-namespace end tag other than the enclosing one is
/// passed over; events with no namespace are unknown events.
pub open spec fn sp_nvp(
    ns: Seq<char>,
    evs: Seq<EventV>,
    i: int,
    end_tag: Seq<char>,
    name: Option<Seq<char>>,
    value: Option<Seq<char>>,
) -> Result<((Option<Seq<char>>, Option<Seq<char>>), int), DeserialiseErrorV>
    decreases evs.len() - i,
    when 0 <= i
{
    if i >= evs.len() {
        Err(DeserialiseErrorV::EofReached)
    } else {
        match evs[i] {
            EventV::Eof => Err(DeserialiseErrorV::EofReached),
            EventV::Fail { message } => Err(DeserialiseErrorV::QuickXMLError(message)),
            EventV::Start { ns: ens, name: tag } => {
                if ens == Some(ns) && tag == "valueName"@ {
                    match sp_read_string(ns, evs, i + 1, "valueName"@, Seq::<char>::empty()) {
                        Ok((nm, j)) => {
                            proof {
                                lemma_read_string_progress(
                                    ns,
                                    evs,
                                    i + 1,
                                    "valueName"@,
                                    Seq::<char>::empty(),
                                );
                            }
                            sp_nvp(ns, evs, j, end_tag, nm, value)
                        },
                        Err(e) => Err(e),
                    }
                } else if ens == Some(ns) && tag == "value"@ {
                    match sp_read_string(ns, evs, i + 1, "value"@, Seq::<char>::empty()) {
                        Ok((vl, j)) => {
                            proof {
                                lemma_read_string_progress(
                                    ns,
                                    evs,
                                    i + 1,
                                    "value"@,
                                    Seq::<char>::empty(),
                                );
                            }
                            sp_nvp(ns, evs, j, end_tag, name, vl)
                        },
                        Err(e) => Err(e),
                    }
                } else if ens is Some {
                    Err(
                        DeserialiseErrorV::TagNotRecognised(
                            crate::deserialise_error::sp_tag_not_recognised_msg(tag),
                        ),
                    )
                } else {
                    Err(DeserialiseErrorV::UnknownEvent(sp_describe(evs[i])))
                }
            },
            EventV::End { ns: ens, name: tag } => {
                if ens == Some(ns) {
                    if tag == end_tag {
                        Ok(((name, value), i + 1))
                    } else {
                        sp_nvp(ns, evs, i + 1, end_tag, name, value)
                    }
                } else if ens is Some {
                    Err(
                        DeserialiseErrorV::TagNotExpected(
                            crate::deserialise_error::sp_tag_not_expected_msg(tag),
                        ),
                    )
                } else {
                    Err(DeserialiseErrorV::UnknownEvent(sp_describe(evs[i])))
                }
            },
            EventV::Empty { ns: ens, name: tag } => {
                if ens is Some {
                    sp_nvp(ns, evs, i + 1, end_tag, name, value)
                } else {
                    Err(DeserialiseErrorV::UnknownEvent(sp_describe(evs[i])))
                }
            },
            EventV::Text { content } => {
                if sp_trim(content).len() == 0 {
                    sp_nvp(ns, evs, i + 1, end_tag, name, value)
                } else {
                    Err(DeserialiseErrorV::UnknownEvent(sp_describe(evs[i])))
                }
            },
            EventV::Ref { .. } => Err(DeserialiseErrorV::UnknownEvent(sp_describe(evs[i]))),
            EventV::Other => Err(DeserialiseErrorV::UnknownEvent(sp_describe(evs[i]))),
        }
    }
}

/// A successful name/value read always makes progress and stays in bounds.
pub proof fn lemma_nvp_progress(
    ns: Seq<char>,
    evs: Seq<EventV>,
    i: int,
    end_tag: Seq<char>,
    name: Option<Seq<char>>,
    value: Option<Seq<char>>,
)
    requires
        0 <= i,
    ensures
        sp_nvp(ns, evs, i, end_tag, name, value) matches Ok((_, j)) ==> i < j <= evs.len(),
    decreases evs.len() - i,
{
    if i >= evs.len() {
    } else {
        match evs[i] {
            EventV::Start { ns: ens, name: tag } => {
                if ens == Some(ns) && tag == "valueName"@ {
                    lemma_read_string_progress(ns, evs, i + 1, "valueName"@, Seq::<char>::empty());
                    match sp_read_string(ns, evs, i + 1, "valueName"@, Seq::<char>::empty()) {
                        Ok((nm, j)) => lemma_nvp_progress(ns, evs, j, end_tag, nm, value),
                        Err(_) => {},
                    }
                } else if ens == Some(ns) && tag == "value"@ {
                    lemma_read_string_progress(ns, evs, i + 1, "value"@, Seq::<char>::empty());
                    match sp_read_string(ns, evs, i + 1, "value"@, Seq::<char>::empty()) {
                        Ok((vl, j)) => lemma_nvp_progress(ns, evs, j, end_tag, name, vl),
                        Err(_) => {},
                    }
                }
            },
            EventV::End { ns: ens, name: tag } => {
                if ens == Some(ns) && tag != end_tag {
                    lemma_nvp_progress(ns, evs, i + 1, end_tag, name, value);
                }
            },
            EventV::Empty { ns: ens, .. } => {
                if ens is Some {
                    lemma_nvp_progress(ns, evs, i + 1, end_tag, name, value);
                }
            },
            EventV::Text { content } => {
                if sp_trim(content).len() == 0 {
                    lemma_nvp_progress(ns, evs, i + 1, end_tag, name, value);
                }
            },
            _ => {},
        }
    }
}

/// Reads a name/value pair element, as geocode, parameter and event-code
/// entries share it.
pub fn parse_name_value_pair(
    events: &Vec<XmlEvent>,
    pos: usize,
    namespace: &str,
    end_tag: &str,
) -> (r: Result<((Option<String>, Option<String>), usize), DeserialiseError>)
    ensures
        sp_step(r) == sp_nvp(
            namespace@,
            events.deep_view(),
            pos as int,
            end_tag@,
            None,
            None,
        ),
        r matches Ok((_, j)) ==> pos < j <= events@.len(),
{
    let ghost evs = events.deep_view();
    let n: usize = events.len();
    proof {
        assert(evs.len() == n);
    }
    let mut name: Option<String> = None;
    let mut value: Option<String> = None;
    let mut i: usize = pos;
    loop
        invariant
            evs == events.deep_view(),
            n == evs.len(),
            pos <= i,
            sp_nvp(namespace@, evs, pos as int, end_tag@, None, None) == sp_nvp(
                namespace@,
                evs,
                i as int,
                end_tag@,
                name.deep_view(),
                value.deep_view(),
            ),
        decreases n - i,
    {
        if i >= n {
            proof {
                lemma_nvp_progress(namespace@, evs, pos as int, end_tag@, None, None);
            }
            return Err(DeserialiseError::EofReached);
        }
        proof {
            assert(evs[i as int] == events@[i as int]@);
            lemma_nvp_progress(namespace@, evs, pos as int, end_tag@, None, None);
        }
        match &events[i] {
            XmlEvent::Eof => {
                return Err(DeserialiseError::EofReached);
            },
            XmlEvent::Fail { message } => {
                return Err(DeserialiseError::QuickXMLError(message.clone()));
            },
            XmlEvent::Start { ns, name: tag } => {
                let matching = match ns {
                    Some(ens) => str_eq(ens.as_str(), namespace),
                    None => false,
                };
                if matching && str_eq(tag.as_str(), "valueName") {
                    let (nm, j) = match read_string(namespace, events, i + 1, "valueName") {
                        Ok(x) => x,
                        Err(e) => return Err(e),
                    };
                    proof {
                        lemma_read_string_progress(
                            namespace@,
                            evs,
                            i + 1 as int,
                            "valueName"@,
                            Seq::<char>::empty(),
                        );
                    }
                    name = nm;
                    i = j;
                } else if matching && str_eq(tag.as_str(), "value") {
                    let (vl, j) = match read_string(namespace, events, i + 1, "value") {
                        Ok(x) => x,
                        Err(e) => return Err(e),
                    };
                    proof {
                        lemma_read_string_progress(
                            namespace@,
                            evs,
                            i + 1 as int,
                            "value"@,
                            Seq::<char>::empty(),
                        );
                    }
                    value = vl;
                    i = j;
                } else if ns.is_some() {
                    return Err(DeserialiseError::tag_not_recognised(tag.as_str()));
                } else {
                    return Err(DeserialiseError::UnknownEvent(describe(&events[i])));
                }
            },
            XmlEvent::End { ns, name: tag } => {
                let matching = match ns {
                    Some(ens) => str_eq(ens.as_str(), namespace),
                    None => false,
                };
                if matching {
                    if str_eq(tag.as_str(), end_tag) {
                        return Ok(((name, value), i + 1));
                    } else {
                        i += 1;
                    }
                } else if ns.is_some() {
                    return Err(DeserialiseError::tag_not_expected(tag.as_str()));
                } else {
                    return Err(DeserialiseError::UnknownEvent(describe(&events[i])));
                }
            },
            XmlEvent::Empty { ns, .. } => {
                if ns.is_some() {
                    i += 1;
                } else {
                    return Err(DeserialiseError::UnknownEvent(describe(&events[i])));
                }
            },
            XmlEvent::Text { content } => {
                let trimmed = trim_ws(content.as_str());
                if trimmed.as_str().is_empty() {
                    i += 1;
                } else {
                    return Err(DeserialiseError::UnknownEvent(describe(&events[i])));
                }
            },
            XmlEvent::Ref { .. } => {
                return Err(DeserialiseError::UnknownEvent(describe(&events[i])));
            },
            XmlEvent::Other => {
                return Err(DeserialiseError::UnknownEvent(describe(&events[i])));
            },
        }
    }
}

} // verus!
