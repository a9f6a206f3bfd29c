//! An audio hardware device, extracted from a device record of the dump:
//! its identity, a name resolved through a fallback chain, its profile and
//! route enumerations, and the profile currently selected, matched by index
//! against the extracted profiles.
use vstd::prelude::*;

use crate::json::Json;
use crate::profile::spec_profile_of;
use crate::profile::EnumProfile;
use crate::profile::ProfileV;
use crate::route::spec_route_of;
use crate::route::EnumRoute;
use crate::route::RouteV;
use crate::sink::spec_props_of;
use crate::text::str_eq;
use crate::utils::spec_get_u32;
use crate::utils::spec_value_index;
use crate::utils::value_as_u32;
use crate::utils::value_index;

verus! {

/// One audio hardware device: its identity, its resolved name, the ordered
/// profiles and routes it offers, and the currently selected profile when it
/// could be matched among them.
#[derive(Debug, Clone)]
pub struct Device {
    pub id: u32,
    pub profiles: Vec<EnumProfile>,
    pub current_profile: Option<EnumProfile>,
    pub routes: Vec<EnumRoute>,
    pub name: String,
}

/// The mathematical content of a `Device`.
pub struct DeviceV {
    pub id: u32,
    pub profiles: Seq<ProfileV>,
    pub current_profile: Option<ProfileV>,
    pub routes: Seq<RouteV>,
    pub name: Seq<char>,
}

impl DeepView for Device {
    type V = DeviceV;

    open spec fn deep_view(&self) -> DeviceV {
        DeviceV {
            id: self.id,
            profiles: self.profiles.deep_view(),
            current_profile: self.current_profile.deep_view(),
            routes: self.routes.deep_view(),
            name: self.name@,
        }
    }
}

/// The profiles a profile enumeration yields, in order: each entry extracted
/// independently, entries that fail dropped without harm to the others.
pub open spec fn spec_profiles_of(items: Seq<Json>) -> Seq<ProfileV>
    decreases items.len(),
{
    if items.len() == 0 {
        Seq::empty()
    } else {
        match spec_profile_of(items[0]) {
            Option::Some(p) => seq![p] + spec_profiles_of(items.drop_first()),
            Option::None => spec_profiles_of(items.drop_first()),
        }
    }
}

/// The routes a route enumeration yields, in order, symmetric to profiles.
pub open spec fn spec_routes_of(items: Seq<Json>) -> Seq<RouteV>
    decreases items.len(),
{
    if items.len() == 0 {
        Seq::empty()
    } else {
        match spec_route_of(items[0]) {
            Option::Some(p) => seq![p] + spec_routes_of(items.drop_first()),
            Option::None => spec_routes_of(items.drop_first()),
        }
    }
}

/// A device's name, resolved through the fallback chain: product name, else
/// description, else alias; the first present string wins.
pub open spec fn spec_device_name(props: Json) -> Option<Seq<char>> {
    match props.spec_get_text("device.product.name"@) {
        Option::Some(t) => Option::Some(t),
        Option::None => match props.spec_get_text("device.description"@) {
            Option::Some(t) => Option::Some(t),
            Option::None => props.spec_get_text("device.alias"@),
        },
    }
}

/// The optional nested parameter object of a record, behind `info`.
pub open spec fn spec_params_of(r: Json) -> Option<Json> {
    match r.spec_get("info"@) {
        Option::Some(info) => info.spec_get("params"@),
        Option::None => Option::None,
    }
}

/// The index of the currently selected profile: read from the first element
/// of the parameter object's current-profile selection sequence.
pub open spec fn spec_current_index(params: Json) -> Option<u32> {
    match params.spec_get("Profile"@) {
        Option::Some(v) => match v.spec_as_list() {
            Option::Some(items) => if items.len() > 0 {
                match items[0].spec_get("index"@) {
                    Option::Some(iv) => spec_value_index(iv),
                    Option::None => Option::None,
                }
            } else {
                Option::None
            },
            Option::None => Option::None,
        },
        Option::None => Option::None,
    }
}

/// The first profile whose index equals `idx`, if any.
pub open spec fn spec_find_profile(profiles: Seq<ProfileV>, idx: u32) -> Option<ProfileV>
    decreases profiles.len(),
{
    if profiles.len() == 0 {
        Option::None
    } else if profiles[0].index == idx {
        Option::Some(profiles[0])
    } else {
        spec_find_profile(profiles.drop_first(), idx)
    }
}

/// Whether a record declares itself a device by its interface type.
pub open spec fn spec_is_device_type(r: Json) -> bool {
    r.spec_get_text("type"@) == Option::Some("PipeWire:Interface:Device"@)
}

/// The profiles of a device record's optional parameter object.
pub open spec fn spec_device_profiles(params: Option<Json>) -> Seq<ProfileV> {
    match params {
        Option::Some(ps) => match ps.spec_get("EnumProfile"@) {
            Option::Some(v) => match v.spec_as_list() {
                Option::Some(items) => spec_profiles_of(items),
                Option::None => Seq::empty(),
            },
            Option::None => Seq::empty(),
        },
        Option::None => Seq::empty(),
    }
}

/// The routes of a device record's optional parameter object.
pub open spec fn spec_device_routes(params: Option<Json>) -> Seq<RouteV> {
    match params {
        Option::Some(ps) => match ps.spec_get("EnumRoute"@) {
            Option::Some(v) => match v.spec_as_list() {
                Option::Some(items) => spec_routes_of(items),
                Option::None => Seq::empty(),
            },
            Option::None => Seq::empty(),
        },
        Option::None => Seq::empty(),
    }
}

/// The device a record yields: present exactly when the record is a device
/// record whose media class is an audio device and both a name (through the
/// fallback chain) and an id are present. The selected profile is matched by
/// index among the extracted profiles; no match means absent, not an error.
pub open spec fn spec_device_of(r: Json) -> Option<DeviceV> {
    match spec_props_of(r) {
        Option::None => Option::None,
        Option::Some(props) => match props.spec_get_text("media.class"@) {
            Option::None => Option::None,
            Option::Some(mc) => if !spec_is_device_type(r) || mc != "Audio/Device"@ {
                Option::None
            } else {
                match spec_device_name(props) {
                    Option::None => Option::None,
                    Option::Some(name) => match spec_get_u32(r, "id"@) {
                        Option::None => Option::None,
                        Option::Some(id) => {
                            let params = spec_params_of(r);
                            let profiles = spec_device_profiles(params);
                            let routes = spec_device_routes(params);
                            let current_profile = (match params {
                                Option::Some(ps) => match spec_current_index(ps) {
                                    Option::Some(ci) => spec_find_profile(profiles, ci),
                                    Option::None => Option::None,
                                },
                                Option::None => Option::None,
                            });
                            Option::Some(
                                DeviceV { id, profiles, current_profile, routes, name },
                            )
                        },
                    },
                }
            },
        },
    }
}

/// Extracts the profiles of one profile enumeration, dropping entries that
/// fail on their own.
fn profiles_from(items: &Vec<Json>) -> (r: Vec<EnumProfile>)
    ensures
        r.deep_view() == spec_profiles_of(items@),
{
    let mut r: Vec<EnumProfile> = Vec::new();
    let n = items.len();
    proof {
        assert(r.deep_view() =~= Seq::<ProfileV>::empty());
        assert(items@.skip(0) =~= items@);
        assert(Seq::<ProfileV>::empty() + spec_profiles_of(items@) =~= spec_profiles_of(items@));
    }
    let mut i: usize = 0;
    while i < n
        invariant
            i <= n,
            n == items@.len(),
            spec_profiles_of(items@) == r.deep_view() + spec_profiles_of(items@.skip(i as int)),
        decreases n - i,
    {
        let ghost prev = r.deep_view();
        proof {
            assert(items@.skip(i as int)[0] == items@[i as int]);
            assert(items@.skip(i as int).drop_first() =~= items@.skip(i + 1));
        }
        match EnumProfile::new(&items[i]) {
            Some(p) => {
                let ghost pv = p.deep_view();
                r.push(p);
                proof {
                    assert(r.deep_view() =~= prev.push(pv));
                    assert(prev + spec_profiles_of(items@.skip(i as int)) =~= r.deep_view()
                        + spec_profiles_of(items@.skip(i + 1)));
                }
            },
            None => {},
        }
        i += 1;
    }
    proof {
        assert(items@.skip(n as int) =~= Seq::<Json>::empty());
        assert(r.deep_view() + Seq::<ProfileV>::empty() =~= r.deep_view());
    }
    r
}

/// Extracts the routes of one route enumeration, dropping entries that fail
/// on their own.
fn routes_from(items: &Vec<Json>) -> (r: Vec<EnumRoute>)
    ensures
        r.deep_view() == spec_routes_of(items@),
{
    let mut r: Vec<EnumRoute> = Vec::new();
    let n = items.len();
    proof {
        assert(r.deep_view() =~= Seq::<RouteV>::empty());
        assert(items@.skip(0) =~= items@);
        assert(Seq::<RouteV>::empty() + spec_routes_of(items@) =~= spec_routes_of(items@));
    }
    let mut i: usize = 0;
    while i < n
        invariant
            i <= n,
            n == items@.len(),
            spec_routes_of(items@) == r.deep_view() + spec_routes_of(items@.skip(i as int)),
        decreases n - i,
    {
        let ghost prev = r.deep_view();
        proof {
            assert(items@.skip(i as int)[0] == items@[i as int]);
            assert(items@.skip(i as int).drop_first() =~= items@.skip(i + 1));
        }
        match EnumRoute::new(&items[i]) {
            Some(p) => {
                let ghost pv = p.deep_view();
                r.push(p);
                proof {
                    assert(r.deep_view() =~= prev.push(pv));
                    assert(prev + spec_routes_of(items@.skip(i as int)) =~= r.deep_view()
                        + spec_routes_of(items@.skip(i + 1)));
                }
            },
            None => {},
        }
        i += 1;
    }
    proof {
        assert(items@.skip(n as int) =~= Seq::<Json>::empty());
        assert(r.deep_view() + Seq::<RouteV>::empty() =~= r.deep_view());
    }
    r
}

/// Skipping a prefix in which no profile's index matches leaves the search
/// unchanged.
proof fn lemma_find_profile_skip(profiles: Seq<ProfileV>, idx: u32, i: int)
    requires
        0 <= i <= profiles.len(),
        forall|k: int| 0 <= k < i ==> (#[trigger] profiles[k]).index != idx,
    ensures
        spec_find_profile(profiles, idx) == spec_find_profile(profiles.skip(i), idx),
    decreases i,
{
    if i > 0 {
        lemma_find_profile_skip(profiles.drop_first(), idx, i - 1);
        assert(profiles.drop_first().skip(i - 1) =~= profiles.skip(i));
    } else {
        assert(profiles.skip(0) =~= profiles);
    }
}

/// The first profile in the list whose index equals `idx`, copied out.
fn find_profile(profiles: &Vec<EnumProfile>, idx: u32) -> (r: Option<EnumProfile>)
    ensures
        (match r {
            Option::Some(p) => spec_find_profile(profiles.deep_view(), idx) == Option::Some(
                p.deep_view(),
            ),
            Option::None => spec_find_profile(profiles.deep_view(), idx) is None,
        }),
{
    let ghost pv = profiles.deep_view();
    let n = profiles.len();
    proof {
        assert(pv.len() == n);
    }
    let mut i: usize = 0;
    while i < n
        invariant
            i <= n,
            n == profiles@.len(),
            pv == profiles.deep_view(),
            pv.len() == n,
            forall|k: int| 0 <= k < i ==> (#[trigger] pv[k]).index != idx,
        decreases n - i,
    {
        proof {
            assert(pv[i as int] == profiles@[i as int].deep_view());
        }
        if profiles[i].index == idx {
            proof {
                lemma_find_profile_skip(pv, idx, i as int);
                assert(pv.skip(i as int)[0] == pv[i as int]);
            }
            return Some(profiles[i].duplicate());
        }
        i += 1;
    }
    proof {
        lemma_find_profile_skip(pv, idx, n as int);
        assert(pv.skip(n as int) =~= Seq::<ProfileV>::empty());
    }
    None
}

impl Device {
    /// Extracts one device from one record; a record that is not an audio
    /// device record, or misses both its id and every name candidate, yields
    /// nothing. Profile and route entries that fail are dropped one by one;
    /// a selected profile whose index matches no extracted profile is absent.
    pub fn new(data: &Json) -> (r: Option<Device>)
        ensures
            (match r {
                Option::Some(d) => spec_device_of(*data) == Option::Some(d.deep_view()),
                Option::None => spec_device_of(*data) is None,
            }),
    {
        let type_ok: bool = match data.get("type") {
            Some(v) => match v.as_str() {
                Some(t) => str_eq(t, "PipeWire:Interface:Device"),
                None => false,
            },
            None => false,
        };
        let props: &Json = match data.get("info") {
            Some(info) => match info.get("props") {
                Some(p) => p,
                None => { return None },
            },
            None => { return None },
        };
        let media_class: &str = match props.get_str("media.class") {
            Some(t) => t,
            None => { return None },
        };
        if !type_ok || !str_eq(media_class, "Audio/Device") {
            return None;
        }
        let name: String = match props.get_str("device.product.name") {
            Some(t) => t.to_owned(),
            None => match props.get_str("device.description") {
                Some(t) => t.to_owned(),
                None => match props.get_str("device.alias") {
                    Some(t) => t.to_owned(),
                    None => { return None },
                },
            },
        };
        let params: Option<&Json> = match data.get("info") {
            Some(info) => info.get("params"),
            None => None,
        };
        let routes: Vec<EnumRoute> = match params {
            Some(ps) => match ps.get("EnumRoute") {
                Some(v) => match v.as_array() {
                    Some(items) => routes_from(items),
                    None => Vec::new(),
                },
                None => Vec::new(),
            },
            None => Vec::new(),
        };
        let profiles: Vec<EnumProfile> = match params {
            Some(ps) => match ps.get("EnumProfile") {
                Some(v) => match v.as_array() {
                    Some(items) => profiles_from(items),
                    None => Vec::new(),
                },
                None => Vec::new(),
            },
            None => Vec::new(),
        };
        let current_index: Option<u32> = match params {
            Some(ps) => match ps.get("Profile") {
                Some(v) => match v.as_array() {
                    Some(arr) => if arr.len() > 0 {
                        match arr[0].get("index") {
                            Some(iv) => value_index(iv),
                            None => None,
                        }
                    } else {
                        None
                    },
                    None => None,
                },
                None => None,
            },
            None => None,
        };
        let current_profile: Option<EnumProfile> = match current_index {
            Some(ci) => find_profile(&profiles, ci),
            None => None,
        };
        let id: u32 = match data.get("id") {
            Some(v) => match value_as_u32(v) {
                Some(n) => n,
                None => { return None },
            },
            None => { return None },
        };
        proof {
            if profiles@.len() == 0 {
                assert(profiles.deep_view() =~= Seq::<ProfileV>::empty());
            }
            if routes@.len() == 0 {
                assert(routes.deep_view() =~= Seq::<RouteV>::empty());
            }
        }
        Some(Device { id, profiles, current_profile, routes, name })
    }
}

impl PartialEq for Device {
    fn eq(&self, other: &Device) -> (r: bool) {
        let profiles_eq: bool = self.profiles == other.profiles;
        let routes_eq: bool = self.routes == other.routes;
        let current_eq: bool = match (&self.current_profile, &other.current_profile) {
            (Some(a), Some(b)) => a == b,
            (None, None) => true,
            _ => false,
        };
        proof {
            assert(self.profiles.deep_view().len() == self.profiles@.len());
            assert(other.profiles.deep_view().len() == other.profiles@.len());
            assert(self.routes.deep_view().len() == self.routes@.len());
            assert(other.routes.deep_view().len() == other.routes@.len());
            if profiles_eq {
                assert(self.profiles.deep_view() =~= other.profiles.deep_view());
            }
            if self.profiles.deep_view() == other.profiles.deep_view() {
                assert forall|i: int|
                    0 <= i < self.profiles@.len() implies (#[trigger] self.profiles@[i]).deep_view()
                    == other.profiles@[i].deep_view() by {
                    crate::utils::lemma_vec_deep_view_index(self.profiles, i);
                    crate::utils::lemma_vec_deep_view_index(other.profiles, i);
                }
            }
            if routes_eq {
                assert(self.routes.deep_view() =~= other.routes.deep_view());
            }
            if self.routes.deep_view() == other.routes.deep_view() {
                assert forall|i: int|
                    0 <= i < self.routes@.len() implies (#[trigger] self.routes@[i]).deep_view()
                    == other.routes@[i].deep_view() by {
                    crate::utils::lemma_vec_deep_view_index(self.routes, i);
                    crate::utils::lemma_vec_deep_view_index(other.routes, i);
                }
            }
        }
        self.id == other.id && profiles_eq && current_eq && routes_eq && self.name == other.name
    }
}

impl vstd::std_specs::cmp::PartialEqSpecImpl for Device {
    open spec fn obeys_eq_spec() -> bool {
        true
    }

    open spec fn eq_spec(&self, other: &Device) -> bool {
        self.deep_view() == other.deep_view()
    }
}

} // verus!
