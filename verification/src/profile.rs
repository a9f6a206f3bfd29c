//! A selectable configuration mode of a device, extracted from one entry of a
//! device record's profile enumeration.
use vstd::prelude::*;

use crate::json::Json;
use crate::utils::spec_get_index;
use crate::utils::spec_get_u32;
use crate::utils::value_as_u32;
use crate::utils::value_index;

verus! {

/// One profile a device offers: its index (an identity within the owning
/// device), a human description, an ordering priority, and an availability
/// word such as `yes`, `no` or `unknown`.
#[derive(Debug, Clone)]
pub struct EnumProfile {
    pub index: u32,
    pub description: String,
    pub priority: u32,
    pub available: String,
}

/// The mathematical content of an `EnumProfile`.
pub struct ProfileV {
    pub index: u32,
    pub description: Seq<char>,
    pub priority: u32,
    pub available: Seq<char>,
}

impl DeepView for EnumProfile {
    type V = ProfileV;

    open spec fn deep_view(&self) -> ProfileV {
        ProfileV {
            index: self.index,
            description: self.description@,
            priority: self.priority,
            available: self.available@,
        }
    }
}

/// The profile one entry of a profile enumeration yields: present exactly
/// when index, description, priority and availability are all present.
pub open spec fn spec_profile_of(data: Json) -> Option<ProfileV> {
    match (
        spec_get_index(data, "index"@),
        data.spec_get_text("description"@),
        spec_get_u32(data, "priority"@),
        data.spec_get_text("available"@),
    ) {
        (
            Option::Some(index),
            Option::Some(description),
            Option::Some(priority),
            Option::Some(available),
        ) => Option::Some(ProfileV { index, description, priority, available }),
        _ => Option::None,
    }
}

impl EnumProfile {
    /// Extracts one profile from one entry of a profile enumeration; an entry
    /// missing any field yields nothing and is dropped by the caller.
    pub fn new(data: &Json) -> (r: Option<EnumProfile>)
        ensures
            (match r {
                Option::Some(p) => spec_profile_of(*data) == Option::Some(p.deep_view()),
                Option::None => spec_profile_of(*data) is None,
            }),
    {
        let index: u32 = match data.get("index") {
            Some(v) => match value_index(v) {
                Some(i) => i,
                None => { return None },
            },
            None => { return None },
        };
        let description: String = match data.get("description") {
            Some(v) => match v.as_str() {
                Some(t) => t.to_owned(),
                None => { return None },
            },
            None => { return None },
        };
        let priority: u32 = match data.get("priority") {
            Some(v) => match value_as_u32(v) {
                Some(p) => p,
                None => { return None },
            },
            None => { return None },
        };
        let available: String = match data.get("available") {
            Some(v) => match v.as_str() {
                Some(t) => t.to_owned(),
                None => { return None },
            },
            None => { return None },
        };
        Some(EnumProfile { index, description, priority, available })
    }

    /// An equal copy, field by field.
    pub fn duplicate(&self) -> (r: EnumProfile)
        ensures
            r.deep_view() == self.deep_view(),
    {
        EnumProfile {
            index: self.index,
            description: self.description.clone(),
            priority: self.priority,
            available: self.available.clone(),
        }
    }
}

impl PartialEq for EnumProfile {
    fn eq(&self, other: &EnumProfile) -> (r: bool) {
        self.index == other.index && self.description == other.description && self.priority
            == other.priority && self.available == other.available
    }
}

impl vstd::std_specs::cmp::PartialEqSpecImpl for EnumProfile {
    open spec fn obeys_eq_spec() -> bool {
        true
    }

    open spec fn eq_spec(&self, other: &EnumProfile) -> bool {
        self.deep_view() == other.deep_view()
    }
}

} // verus!
