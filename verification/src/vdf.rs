//! Steam's KeyValues (VDF) documents as plain values, and reading text into
//! them with keyvalues-parser.
use vstd::prelude::*;
use crate::text::{lemma_member_index_stable, member_index};

verus! {

/// A VDF value: a string, or an object whose keys each map to the values
/// given for that key, in the order of the text. An object holds its members
/// in keyvalues-parser's key order, each key once.
#[derive(Debug)]
pub enum VdfValue {
    Str(String),
    Obj(Vec<(String, Vec<VdfValue>)>),
}

#[verifier::external_type_specification]
#[verifier::external_body]
pub struct ExVdfValue<'a>(keyvalues_parser::Value<'a>);

/// What keyvalues-parser reads `text` into: the key of the top-level pair and
/// its value; `None` when the text is not a VDF document.
pub uninterp spec fn parsed_vdf(text: Seq<char>) -> Option<(Seq<char>, VdfValue)>;

/// Converts a keyvalues-parser value to a `VdfValue`, member by member.
#[verifier::external_body]
fn vdf_from_value(v: keyvalues_parser::Value<'_>) -> VdfValue {
    match v {
        keyvalues_parser::Value::Str(s) => VdfValue::Str(s.into_owned()),
        keyvalues_parser::Value::Obj(o) => VdfValue::Obj(
            o.into_inner().into_iter().map(
                |(k, vs)| (k.into_owned(), vs.into_iter().map(vdf_from_value).collect()),
            ).collect(),
        ),
    }
}

/// Reads `text` with `keyvalues_parser::parse` (escaped strings) and converts
/// the top-level pair. The result is claimed to be a function of the text
/// alone, named `parsed_vdf`; what that function is, is keyvalues-parser's.
#[verifier::external_body]
pub(crate) fn vdf_parse(text: &str) -> (r: Option<(String, VdfValue)>)
    ensures
        r is Some <==> parsed_vdf(text@) is Some,
        r matches Some(p) ==> parsed_vdf(text@) == Some((p.0@, p.1)),
{
    match keyvalues_parser::parse(text) {
        Ok(doc) => Some((doc.key.into_owned(), vdf_from_value(doc.value))),
        Err(_) => None,
    }
}

/// The values that an object gives for `key`; `None` for a string or an
/// object without that key.
pub open spec fn vdf_get(v: VdfValue, key: Seq<char>) -> Option<Seq<VdfValue>> {
    match v {
        VdfValue::Obj(members) => match member_index(members@, key, members@.len() as int) {
            Some(i) => Some(members@[i].1@),
            None => None,
        },
        VdfValue::Str(_) => None,
    }
}

/// The first value that an object gives for `key`, if any.
pub open spec fn vdf_first(v: VdfValue, key: Seq<char>) -> Option<VdfValue> {
    match vdf_get(v, key) {
        Some(vals) => if vals.len() > 0 { Some(vals[0]) } else { None },
        None => None,
    }
}

impl VdfValue {
    /// The values this object gives for `key`.
    pub fn get(&self, key: &str) -> (r: Option<&Vec<VdfValue>>)
        ensures
            r matches Some(vs) ==> vdf_get(*self, key@) == Some(vs@),
            r is None ==> vdf_get(*self, key@) is None,
    {
        match self {
            VdfValue::Obj(members) => {
                let mut i: usize = 0;
                while i < members.len()
                    invariant
                        i <= members@.len(),
                        member_index(members@, key@, i as int) is None,
                        *self == VdfValue::Obj(*members),
                    decreases members.len() - i,
                {
                    if crate::text::same_text(members[i].0.as_str(), key) {
                        proof {
                            assert(member_index(members@, key@, i + 1) == Some(i as int));
                            lemma_member_index_stable(members@, key@, i + 1, members@.len() as int);
                            assert(members@[i as int].1 == members[i as int].1);
                        }
                        return Some(&members[i].1);
                    }
                    i = i + 1;
                }
                None
            },
            VdfValue::Str(_) => None,
        }
    }

    /// The first value this object gives for `key`.
    pub fn first(&self, key: &str) -> (r: Option<&VdfValue>)
        ensures
            r matches Some(v) ==> vdf_first(*self, key@) == Some(*v),
            r is None ==> vdf_first(*self, key@) is None,
    {
        match self.get(key) {
            Some(vals) => if vals.len() > 0 {
                Some(&vals[0])
            } else {
                None
            },
            None => None,
        }
    }
}

} // verus!
