//! The properties the extraction promises as a whole, each stated over the
//! same spec functions the extraction functions' contracts use.
use vstd::prelude::*;

use crate::device::spec_current_index;
use crate::device::spec_device_of;
use crate::device::spec_find_profile;
use crate::device::spec_params_of;
use crate::device::DeviceV;
use crate::json::Json;
use crate::parsers::spec_default_name;
use crate::parsers::spec_default_sink;
use crate::parsers::spec_devices_of;
use crate::parsers::spec_find_sink;
use crate::parsers::spec_records_of;
use crate::parsers::spec_sinks_of;
use crate::parsers::spec_value_name;
use crate::profile::ProfileV;
use crate::sink::spec_props_of;
use crate::sink::spec_sink_of;
use crate::sink::SinkV;
use crate::state::spec_state_of;
use crate::state::PipeWireState;
use crate::utils::spec_get_u32;

verus! {

/// Extraction is deterministic: two snapshots assembled from the same dump
/// value are element-wise equal.
pub proof fn lemma_extraction_idempotent(records: Seq<Json>, a: PipeWireState, b: PipeWireState)
    requires
        a.deep_view() == spec_state_of(records),
        b.deep_view() == spec_state_of(records),
    ensures
        a.deep_view().devices == b.deep_view().devices,
        a.deep_view().sinks == b.deep_view().sinks,
        a.deep_view().default_sink_name == b.deep_view().default_sink_name,
{
}

/// A profile found by index was among the profiles searched.
proof fn lemma_find_profile_found(profiles: Seq<ProfileV>, idx: u32, p: ProfileV)
    requires
        spec_find_profile(profiles, idx) == Option::Some(p),
    ensures
        p.index == idx,
        exists|i: int| 0 <= i < profiles.len() && #[trigger] profiles[i] == p,
    decreases profiles.len(),
{
    if profiles.len() > 0 {
        if profiles[0].index == idx {
            assert(profiles[0] == p);
        } else {
            lemma_find_profile_found(profiles.drop_first(), idx, p);
            let j = choose|j: int|
                0 <= j < profiles.drop_first().len() && #[trigger] profiles.drop_first()[j] == p;
            assert(profiles[j + 1] == p);
        }
    }
}

/// Every extracted device is consistent: when its current profile is
/// present, its index equals the index of some entry of the device's own
/// profile list.
pub proof fn lemma_current_profile_among_profiles(r: Json, d: DeviceV)
    requires
        spec_device_of(r) == Option::Some(d),
    ensures
        (match d.current_profile {
            Option::Some(p) => exists|i: int|
                0 <= i < d.profiles.len() && (#[trigger] d.profiles[i]).index == p.index,
            Option::None => true,
        }),
{
    match d.current_profile {
        Option::Some(p) => {
            match spec_params_of(r) {
                Option::Some(ps) => match spec_current_index(ps) {
                    Option::Some(ci) => {
                        assert(spec_find_profile(d.profiles, ci) == Option::Some(p));
                        lemma_find_profile_found(d.profiles, ci, p);
                        let i = choose|i: int|
                            0 <= i < d.profiles.len() && #[trigger] d.profiles[i] == p;
                        assert(d.profiles[i].index == p.index);
                    },
                    Option::None => {
                        assert(false);
                    },
                },
                Option::None => {
                    assert(false);
                },
            }
        },
        Option::None => {},
    }
}

/// Every extracted sink carries every required field: a record yields a sink
/// only when it is a sink record and its id, owning-device id, port, name
/// and description are all present, and the sink holds exactly those values.
pub proof fn lemma_sink_has_all_fields(r: Json, s: SinkV)
    requires
        spec_sink_of(r) == Option::Some(s),
    ensures
        crate::sink::spec_is_sink_record(r),
        spec_get_u32(r, "id"@) == Option::Some(s.id),
        (match spec_props_of(r) {
            Option::Some(props) => spec_get_u32(props, "device.id"@) == Option::Some(s.device)
                && spec_get_u32(props, "card.profile.device"@) == Option::Some(s.port)
                && props.spec_get_text("node.name"@) == Option::Some(s.name)
                && props.spec_get_text("node.description"@) == Option::Some(s.description),
            Option::None => false,
        }),
{
}

/// A node record whose media class is not the audio-sink class never yields
/// a sink, whatever else it carries.
pub proof fn lemma_wrong_class_yields_no_sink(r: Json)
    requires
        (match spec_props_of(r) {
            Option::Some(props) => props.spec_get_text("media.class"@) != Option::Some(
                "Audio/Sink"@,
            ),
            Option::None => true,
        }),
    ensures
        spec_sink_of(r) is None,
{
}

/// A device record whose media class is not the audio-device class never
/// yields a device, whatever else it carries.
pub proof fn lemma_wrong_class_yields_no_device(r: Json)
    requires
        (match spec_props_of(r) {
            Option::Some(props) => props.spec_get_text("media.class"@) != Option::Some(
                "Audio/Device"@,
            ),
            Option::None => true,
        }),
    ensures
        spec_device_of(r) is None,
{
}

/// Every device of a snapshot came out of some record of the dump.
pub proof fn lemma_device_from_some_record(records: Seq<Json>, i: int)
    requires
        0 <= i < spec_devices_of(records).len(),
    ensures
        exists|k: int|
            0 <= k < records.len() && spec_device_of(#[trigger] records[k]) == Option::Some(
                spec_devices_of(records)[i],
            ),
    decreases records.len(),
{
    let d = spec_devices_of(records)[i];
    match spec_device_of(records[0]) {
        Option::Some(d0) => {
            if i == 0 {
                assert(spec_device_of(records[0]) == Option::Some(d));
            } else {
                lemma_device_from_some_record(records.drop_first(), i - 1);
                let k = choose|k: int|
                    0 <= k < records.drop_first().len() && spec_device_of(
                        #[trigger] records.drop_first()[k],
                    ) == Option::Some(spec_devices_of(records.drop_first())[i - 1]);
                assert(spec_device_of(records[k + 1]) == Option::Some(d));
            }
        },
        Option::None => {
            lemma_device_from_some_record(records.drop_first(), i);
            let k = choose|k: int|
                0 <= k < records.drop_first().len() && spec_device_of(
                    #[trigger] records.drop_first()[k],
                ) == Option::Some(spec_devices_of(records.drop_first())[i]);
            assert(spec_device_of(records[k + 1]) == Option::Some(d));
        },
    }
}

/// Every sink of a snapshot came out of some record of the dump — one that,
/// by `lemma_sink_has_all_fields`, carried every required field.
pub proof fn lemma_sink_from_some_record(records: Seq<Json>, i: int)
    requires
        0 <= i < spec_sinks_of(records).len(),
    ensures
        exists|k: int|
            0 <= k < records.len() && spec_sink_of(#[trigger] records[k]) == Option::Some(
                spec_sinks_of(records)[i],
            ),
    decreases records.len(),
{
    let s = spec_sinks_of(records)[i];
    match spec_sink_of(records[0]) {
        Option::Some(s0) => {
            if i == 0 {
                assert(spec_sink_of(records[0]) == Option::Some(s));
            } else {
                lemma_sink_from_some_record(records.drop_first(), i - 1);
                let k = choose|k: int|
                    0 <= k < records.drop_first().len() && spec_sink_of(
                        #[trigger] records.drop_first()[k],
                    ) == Option::Some(spec_sinks_of(records.drop_first())[i - 1]);
                assert(spec_sink_of(records[k + 1]) == Option::Some(s));
            }
        },
        Option::None => {
            lemma_sink_from_some_record(records.drop_first(), i);
            let k = choose|k: int|
                0 <= k < records.drop_first().len() && spec_sink_of(
                    #[trigger] records.drop_first()[k],
                ) == Option::Some(spec_sinks_of(records.drop_first())[i]);
            assert(spec_sink_of(records[k + 1]) == Option::Some(s));
        },
    }
}

/// Every device of a snapshot is consistent: a present current profile has
/// the index of some entry of that device's own profile list.
pub proof fn lemma_snapshot_devices_consistent(records: Seq<Json>, i: int)
    requires
        0 <= i < spec_state_of(records).devices.len(),
    ensures
        (match spec_state_of(records).devices[i].current_profile {
            Option::Some(p) => exists|j: int|
                0 <= j < spec_state_of(records).devices[i].profiles.len() && (
                #[trigger] spec_state_of(records).devices[i].profiles[j]).index == p.index,
            Option::None => true,
        }),
{
    lemma_device_from_some_record(records, i);
    let k = choose|k: int|
        0 <= k < records.len() && spec_device_of(#[trigger] records[k]) == Option::Some(
            spec_devices_of(records)[i],
        );
    lemma_current_profile_among_profiles(records[k], spec_devices_of(records)[i]);
}

/// A sink found by name was among the sinks searched.
proof fn lemma_find_sink_found(sinks: Seq<SinkV>, name: Seq<char>, s: SinkV)
    requires
        spec_find_sink(sinks, name) == Option::Some(s),
    ensures
        s.name == name,
        exists|i: int| 0 <= i < sinks.len() && #[trigger] sinks[i] == s,
    decreases sinks.len(),
{
    if sinks.len() > 0 {
        if sinks[0].name == name {
            assert(sinks[0] == s);
        } else {
            lemma_find_sink_found(sinks.drop_first(), name, s);
            let j = choose|j: int|
                0 <= j < sinks.drop_first().len() && #[trigger] sinks.drop_first()[j] == s;
            assert(sinks[j + 1] == s);
        }
    }
}

/// A resolved default sink really is one of the dump's sinks, and bears the
/// resolved default-sink name.
pub proof fn lemma_default_sink_consistent(data: Json, s: SinkV)
    requires
        spec_default_sink(data) == Option::Some(s),
    ensures
        spec_default_name(data) == Option::Some(s.name),
        exists|i: int|
            0 <= i < spec_sinks_of(spec_records_of(data)).len() && #[trigger] spec_sinks_of(
                spec_records_of(data),
            )[i] == s,
{
    match spec_default_name(data) {
        Option::Some(nm) => {
            lemma_find_sink_found(spec_sinks_of(spec_records_of(data)), nm, s);
        },
        Option::None => {
            assert(false);
        },
    }
}

/// A default-sink value encoded as a bare string and one encoded as a
/// structured value carrying an equal name resolve to the same name.
pub proof fn lemma_default_value_encodings(name: String, obj: Json)
    requires
        obj matches Json::Object(_),
        obj.spec_get_text("name"@) == Option::Some(name@),
    ensures
        spec_value_name(Json::Text(name)) == spec_value_name(obj),
        spec_value_name(obj) == Option::Some(name@),
{
}

} // verus!
