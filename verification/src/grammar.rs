//! The four controlled vocabularies of the protocol. Each is matched
//! exactly and by case: a text outside the vocabulary is an error that
//! carries the text, never another member.

use crate::types::{DeError, Fault, PropertyPerm, PropertyState, SwitchRule, SwitchState};
use vstd::prelude::*;
use vstd::slice::*;
use vstd::string::*;
use vstd::utf8::*;

verus! {

/// The bytes of a text of ASCII characters.
pub open spec fn ascii_bytes(s: Seq<char>) -> Seq<u8> {
    Seq::new(s.len(), |i: int| s[i] as u8)
}

/// Whether two byte strings are the same.
pub fn bytes_equal(a: &[u8], b: &[u8]) -> (r: bool)
    ensures
        r == (a@ == b@),
{
    if a.len() != b.len() {
        return false;
    }
    let mut i: usize = 0;
    while i < a.len()
        invariant
            a@.len() == b@.len(),
            i <= a@.len(),
            forall|j: int| 0 <= j < i ==> a@[j] == b@[j],
        decreases a@.len() - i,
    {
        if a[i] != b[i] {
            return false;
        }
        i += 1;
    }
    assert(a@ =~= b@);
    true
}

/// Whether `raw` holds the ASCII word `word`.
pub fn bytes_spell(raw: &[u8], word: &str) -> (r: bool)
    requires
        is_ascii_chars(word@),
    ensures
        r == (raw@ == ascii_bytes(word@)),
{
    broadcast use is_ascii_spec_bytes;

    let b = word.as_bytes();
    assert(is_ascii(word));
    assert(b@ == word.spec_bytes());
    assert(b@ =~= ascii_bytes(word@));
    bytes_equal(raw, b)
}

pub open spec fn property_state(raw: Seq<u8>) -> Option<PropertyState> {
    if raw == ascii_bytes("Idle"@) {
        Some(PropertyState::Idle)
    } else if raw == ascii_bytes("Ok"@) {
        Some(PropertyState::Okay)
    } else if raw == ascii_bytes("Busy"@) {
        Some(PropertyState::Busy)
    } else if raw == ascii_bytes("Alert"@) {
        Some(PropertyState::Alert)
    } else {
        None
    }
}

pub open spec fn property_perm(raw: Seq<u8>) -> Option<PropertyPerm> {
    if raw == ascii_bytes("ro"@) {
        Some(PropertyPerm::RO)
    } else if raw == ascii_bytes("wo"@) {
        Some(PropertyPerm::WO)
    } else if raw == ascii_bytes("rw"@) {
        Some(PropertyPerm::RW)
    } else {
        None
    }
}

pub open spec fn switch_rule(raw: Seq<u8>) -> Option<SwitchRule> {
    if raw == ascii_bytes("OneOfMany"@) {
        Some(SwitchRule::OneOfMany)
    } else if raw == ascii_bytes("AtMostOne"@) {
        Some(SwitchRule::AtMostOne)
    } else if raw == ascii_bytes("AnyOfMany"@) {
        Some(SwitchRule::AnyOfMany)
    } else {
        None
    }
}

pub open spec fn switch_state(raw: Seq<u8>) -> Option<SwitchState> {
    if raw == ascii_bytes("On"@) {
        Some(SwitchState::On)
    } else if raw == ascii_bytes("Off"@) {
        Some(SwitchState::Off)
    } else {
        None
    }
}

/// The result that a vocabulary owes for a text: its member, or the
/// error that carries the text.
pub open spec fn member_or_bad_value<T>(member: Option<T>, raw: Seq<u8>, r: Result<
    T,
    DeError,
>) -> bool {
    match member {
        Some(m) => r == Ok::<T, DeError>(m),
        None => r matches Err(e) && e@ == Fault::BadValue(raw),
    }
}

fn bad_value<T>(raw: &[u8]) -> (r: Result<T, DeError>)
    ensures
        r matches Err(e) && e@ == Fault::BadValue(raw@),
{
    Err(DeError::BadValue(slice_to_vec(raw)))
}

impl PropertyState {
    pub fn try_from(raw: &[u8]) -> (r: Result<PropertyState, DeError>)
        ensures
            member_or_bad_value(property_state(raw@), raw@, r),
    {
        proof {
            reveal_strlit("Idle");
            reveal_strlit("Ok");
            reveal_strlit("Busy");
            reveal_strlit("Alert");
        }
        if bytes_spell(raw, "Idle") {
            Ok(PropertyState::Idle)
        } else if bytes_spell(raw, "Ok") {
            Ok(PropertyState::Okay)
        } else if bytes_spell(raw, "Busy") {
            Ok(PropertyState::Busy)
        } else if bytes_spell(raw, "Alert") {
            Ok(PropertyState::Alert)
        } else {
            bad_value(raw)
        }
    }
}

impl PropertyPerm {
    pub fn try_from(raw: &[u8]) -> (r: Result<PropertyPerm, DeError>)
        ensures
            member_or_bad_value(property_perm(raw@), raw@, r),
    {
        proof {
            reveal_strlit("ro");
            reveal_strlit("wo");
            reveal_strlit("rw");
        }
        if bytes_spell(raw, "ro") {
            Ok(PropertyPerm::RO)
        } else if bytes_spell(raw, "wo") {
            Ok(PropertyPerm::WO)
        } else if bytes_spell(raw, "rw") {
            Ok(PropertyPerm::RW)
        } else {
            bad_value(raw)
        }
    }
}

impl SwitchRule {
    pub fn try_from(raw: &[u8]) -> (r: Result<SwitchRule, DeError>)
        ensures
            member_or_bad_value(switch_rule(raw@), raw@, r),
    {
        proof {
            reveal_strlit("OneOfMany");
            reveal_strlit("AtMostOne");
            reveal_strlit("AnyOfMany");
        }
        if bytes_spell(raw, "OneOfMany") {
            Ok(SwitchRule::OneOfMany)
        } else if bytes_spell(raw, "AtMostOne") {
            Ok(SwitchRule::AtMostOne)
        } else if bytes_spell(raw, "AnyOfMany") {
            Ok(SwitchRule::AnyOfMany)
        } else {
            bad_value(raw)
        }
    }
}

impl SwitchState {
    pub fn try_from(raw: &[u8]) -> (r: Result<SwitchState, DeError>)
        ensures
            member_or_bad_value(switch_state(raw@), raw@, r),
    {
        proof {
            reveal_strlit("On");
            reveal_strlit("Off");
        }
        if bytes_spell(raw, "On") {
            Ok(SwitchState::On)
        } else if bytes_spell(raw, "Off") {
            Ok(SwitchState::Off)
        } else {
            bad_value(raw)
        }
    }
}

} // verus!
