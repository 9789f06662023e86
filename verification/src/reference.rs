//! The references field: whitespace-delimited groups of
//! `sender,identifier,sent` tokens naming earlier alert messages.

use vstd::prelude::*;
use crate::deserialise_error::{DeserialiseError, DeserialiseErrorV};
use crate::text::{sp_split_char, split_char};
use crate::timestamp::{sp_timestamp, Timestamp, TimestampV};
use crate::utilities::sp_res;

verus! {

/// A reference to an earlier alert message.
#[derive(Debug, Clone, PartialEq)]
pub struct Reference {
    pub sender: String,
    pub identifier: String,
    pub sent: Timestamp,
}

/// Spec-level mirror of [`Reference`].
pub struct ReferenceV {
    pub sender: Seq<char>,
    pub identifier: Seq<char>,
    pub sent: TimestampV,
}

impl View for Reference {
    type V = ReferenceV;

    open spec fn view(&self) -> ReferenceV {
        ReferenceV { sender: self.sender@, identifier: self.identifier@, sent: self.sent@ }
    }
}

impl DeepView for Reference {
    type V = ReferenceV;

    open spec fn deep_view(&self) -> ReferenceV {
        self.view()
    }
}

/// What decoding one reference group yields: exactly three comma-separated
/// parts, the third a valid timestamp, else the whole group is rejected.
pub open spec fn sp_reference(s: Seq<char>) -> Result<ReferenceV, DeserialiseErrorV> {
    let parts = sp_split_char(s, ',');
    if parts.len() == 3 {
        match sp_timestamp(parts[2]) {
            Some(t) => Ok(ReferenceV { sender: parts[0], identifier: parts[1], sent: t }),
            None => Err(DeserialiseErrorV::ParseReference(s)),
        }
    } else {
        Err(DeserialiseErrorV::ParseReference(s))
    }
}

/// The well-formed groups of a references list, in order; malformed groups
/// are dropped, the rest are kept.
pub open spec fn sp_references_of(parts: Seq<Seq<char>>) -> Seq<ReferenceV>
    decreases parts.len(),
{
    if parts.len() == 0 {
        Seq::empty()
    } else {
        sp_references_of(parts.drop_last()) + (match sp_reference(parts.last()) {
            Ok(v) => seq![v],
            Err(_) => Seq::<ReferenceV>::empty(),
        })
    }
}

impl Reference {
    /// Decodes one `sender,identifier,sent` group.
    pub fn parse_string(reference_str: &str) -> (r: Result<Reference, DeserialiseError>)
        ensures
            sp_res(r) == sp_reference(reference_str@),
    {
        let parts = split_char(reference_str, ',');
        proof {
            assert(parts.deep_view() == sp_split_char(reference_str@, ','));
        }
        if parts.len() == 3 {
            proof {
                assert(parts.deep_view()[2] == parts@[2]@);
                assert(parts.deep_view()[0] == parts@[0]@);
                assert(parts.deep_view()[1] == parts@[1]@);
            }
            match Timestamp::parse(parts[2].as_str()) {
                Some(t) => Ok(
                    Reference {
                        sender: parts[0].clone(),
                        identifier: parts[1].clone(),
                        sent: t,
                    },
                ),
                None => Err(DeserialiseError::ParseReference(reference_str.to_owned())),
            }
        } else {
            Err(DeserialiseError::ParseReference(reference_str.to_owned()))
        }
    }

    /// Decodes a whole references list: groups are separated by single
    /// spaces; each malformed group is dropped without failing the rest.
    pub fn parse_reference_string(references_str: &str) -> (r: Result<
        Vec<Reference>,
        DeserialiseError,
    >)
        ensures
            r matches Ok(v) && v.deep_view() == sp_references_of(
                sp_split_char(references_str@, ' '),
            ),
    {
        let parts = split_char(references_str, ' ');
        let ghost ps = parts.deep_view();
        let mut out: Vec<Reference> = Vec::new();
        let mut i: usize = 0;
        proof {
            assert(ps.take(0) =~= Seq::<Seq<char>>::empty());
            assert(out.deep_view() =~= sp_references_of(ps.take(0)));
        }
        let n = parts.len();
        while i < n
            invariant
                ps == parts.deep_view(),
                n == parts@.len(),
                i <= n,
                out.deep_view() == sp_references_of(ps.take(i as int)),
            decreases n - i,
        {
            proof {
                assert(ps[i as int] == parts@[i as int]@);
                assert(ps.take(i + 1 as int).drop_last() =~= ps.take(i as int));
                assert(ps.take(i + 1 as int).last() == ps[i as int]);
            }
            let ghost old_out = out.deep_view();
            match Reference::parse_string(parts[i].as_str()) {
                Ok(reference) => {
                    out.push(reference);
                    proof {
                        assert(out.deep_view() =~= old_out.push(reference@));
                        assert(old_out.push(reference@) =~= old_out + seq![reference@]);
                    }
                },
                Err(_) => {
                    proof {
                        assert(old_out + Seq::<ReferenceV>::empty() =~= old_out);
                    }
                },
            }
            i += 1;
        }
        proof {
            assert(ps.take(n as int) =~= ps);
        }
        Ok(out)
    }
}

} // verus!
