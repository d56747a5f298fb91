//! Facts written as JSON, as `serde_json` reads it.
//!
//! A flag is written as a string that holds its name, or as an object whose
//! one member has that name and the value `null`; a fact with text is written
//! as an object whose one member has the name of its kind and the text as its
//! value.

use crate::devinfo::{kind_named, DeviceFact, DeviceInformation, DeviceInformationKind};
use std::collections::BTreeMap;
use vstd::prelude::*;

verus! {

/// The string that `text` is in JSON, if it is one.
pub uninterp spec fn json_string(text: Seq<char>) -> Option<Seq<char>>;

/// The members of the object that `text` is in JSON, in the order of their
/// names, if it is an object each of whose members is a string or `null`
/// (which stands here as `None`).
pub uninterp spec fn json_members(text: Seq<char>) -> Option<Seq<(Seq<char>, Option<Seq<char>>)>>;

/// The members of a list, as mathematical values.
pub open spec fn members_view(ms: Seq<(String, Option<String>)>) -> Seq<
    (Seq<char>, Option<Seq<char>>),
> {
    Seq::new(
        ms.len(),
        |i: int|
            (
                ms[i].0@,
                match ms[i].1 {
                    Some(s) => Some(s@),
                    None => None,
                },
            ),
    )
}

/// Calls `serde_json::from_str` for a `String`. Trusted: the result is
/// `json_string` of the text.
#[verifier::external_body]
pub(crate) fn json_as_string(text: &str) -> (r: Option<String>)
    ensures
        match r {
            Some(s) => json_string(text@) == Some(s@),
            None => json_string(text@) is None,
        },
{
    serde_json::from_str::<String>(text).ok()
}

/// Calls `serde_json::from_str` for a map from `String` to `Option<String>`
/// and lists its entries. Trusted: the result is `json_members` of the text.
#[verifier::external_body]
pub(crate) fn json_as_members(text: &str) -> (r: Option<Vec<(String, Option<String>)>>)
    ensures
        match r {
            Some(ms) => json_members(text@) == Some(members_view(ms@)),
            None => json_members(text@) is None,
        },
{
    serde_json::from_str::<BTreeMap<String, Option<String>>>(text).ok().map(
        |m| m.into_iter().collect(),
    )
}

/// The fact of the kind named `name`: with `text` where the kind carries
/// text, without where it is a flag; none where the two do not fit.
pub open spec fn tagged_fact(name: Seq<char>, text: Option<Seq<char>>) -> Option<DeviceFact> {
    match kind_named(name) {
        Some(kind) => match text {
            Some(t) => if kind.has_text() {
                Some(DeviceFact { kind, text: t })
            } else {
                None
            },
            None => if kind.has_text() {
                None
            } else {
                Some(DeviceFact { kind, text: Seq::empty() })
            },
        },
        None => None,
    }
}

/// The fact that a JSON text states, given what the text is as a string and
/// as an object.
pub open spec fn decoded_fact(
    as_string: Option<Seq<char>>,
    as_members: Option<Seq<(Seq<char>, Option<Seq<char>>)>>,
) -> Option<DeviceFact> {
    match as_string {
        Some(name) => tagged_fact(name, None),
        None => match as_members {
            Some(ms) => if ms.len() == 1 {
                tagged_fact(ms[0].0, ms[0].1)
            } else {
                None
            },
            None => None,
        },
    }
}

/// The fact that the JSON text `text` states, if it states one.
pub open spec fn fact_in_json(text: Seq<char>) -> Option<DeviceFact> {
    decoded_fact(json_string(text), json_members(text))
}

/// The fact of the kind named `name`, with or without text.
fn tagged_information(name: &String, text: Option<String>) -> (r: Option<DeviceInformation>)
    ensures
        match r {
            Some(i) => tagged_fact(
                name@,
                match text {
                    Some(s) => Some(s@),
                    None => None,
                },
            ) == Some(i@),
            None => tagged_fact(
                name@,
                match text {
                    Some(s) => Some(s@),
                    None => None,
                },
            ) is None,
        },
{
    match DeviceInformationKind::from_name(name) {
        Some(kind) => match text {
            Some(t) => if kind.carries_text() {
                Some(DeviceInformation::from_kind(kind, t))
            } else {
                None
            },
            None => if kind.carries_text() {
                None
            } else {
                Some(DeviceInformation::from_kind(kind, String::new()))
            },
        },
        None => None,
    }
}

/// The fact that a JSON text states, given what the text is as a string and
/// as an object.
pub fn decode_information(
    as_string: Option<String>,
    as_members: Option<Vec<(String, Option<String>)>>,
) -> (r: Option<DeviceInformation>)
    ensures
        match r {
            Some(i) => decoded_fact(
                match as_string {
                    Some(s) => Some(s@),
                    None => None,
                },
                match as_members {
                    Some(ms) => Some(members_view(ms@)),
                    None => None,
                },
            ) == Some(i@),
            None => decoded_fact(
                match as_string {
                    Some(s) => Some(s@),
                    None => None,
                },
                match as_members {
                    Some(ms) => Some(members_view(ms@)),
                    None => None,
                },
            ) is None,
        },
{
    match as_string {
        Some(name) => tagged_information(&name, None),
        None => match as_members {
            Some(mut ms) => {
                if ms.len() == 1 {
                    match ms.pop() {
                        Some((name, text)) => tagged_information(&name, text),
                        None => None,
                    }
                } else {
                    None
                }
            },
            None => None,
        },
    }
}

/// The fact that the JSON text `text` states, if it states one.
pub fn read_information(text: &str) -> (r: Option<DeviceInformation>)
    ensures
        match r {
            Some(i) => fact_in_json(text@) == Some(i@),
            None => fact_in_json(text@) is None,
        },
{
    let as_string = json_as_string(text);
    let as_members = match as_string {
        Some(_) => None,
        None => json_as_members(text),
    };
    decode_information(as_string, as_members)
}

} // verus!
