//! The single pass over a dump: classify every record independently, collect
//! the devices and sinks that extract successfully, and resolve the default
//! sink by name from the metadata records.
use vstd::prelude::*;

use crate::device::spec_device_of;
use crate::device::Device;
use crate::device::DeviceV;
use crate::json::Json;
use crate::sink::spec_sink_of;
use crate::sink::Sink;
use crate::sink::SinkV;
use crate::text::str_eq;

verus! {

/// The records of a dump value: the elements when it is an array, nothing
/// otherwise.
pub open spec fn spec_records_of(data: Json) -> Seq<Json> {
    match data.spec_as_list() {
        Option::Some(items) => items,
        Option::None => Seq::empty(),
    }
}

/// The devices a record sequence yields, in input order, each record
/// extracted independently.
pub open spec fn spec_devices_of(records: Seq<Json>) -> Seq<DeviceV>
    decreases records.len(),
{
    if records.len() == 0 {
        Seq::empty()
    } else {
        match spec_device_of(records[0]) {
            Option::Some(d) => seq![d] + spec_devices_of(records.drop_first()),
            Option::None => spec_devices_of(records.drop_first()),
        }
    }
}

/// The sinks a record sequence yields, in input order, each record extracted
/// independently.
pub open spec fn spec_sinks_of(records: Seq<Json>) -> Seq<SinkV>
    decreases records.len(),
{
    if records.len() == 0 {
        Seq::empty()
    } else {
        match spec_sink_of(records[0]) {
            Option::Some(s) => seq![s] + spec_sinks_of(records.drop_first()),
            Option::None => spec_sinks_of(records.drop_first()),
        }
    }
}

/// Whether a record is the metadata record named `default`.
pub open spec fn spec_is_default_metadata(r: Json) -> bool {
    &&& r.spec_get_text("type"@) == Option::Some("PipeWire:Interface:Metadata"@)
    &&& (match r.spec_get("props"@) {
        Option::Some(p) => p.spec_get_text("metadata.name"@) == Option::Some("default"@),
        Option::None => false,
    })
}

/// The first metadata record named `default` among the records.
pub open spec fn spec_find_metadata(records: Seq<Json>) -> Option<Json>
    decreases records.len(),
{
    if records.len() == 0 {
        Option::None
    } else if spec_is_default_metadata(records[0]) {
        Option::Some(records[0])
    } else {
        spec_find_metadata(records.drop_first())
    }
}

/// Whether a metadata entry carries the default-audio-sink key.
pub open spec fn spec_is_default_sink_key(e: Json) -> bool {
    e.spec_get_text("key"@) == Option::Some("default.audio.sink"@)
}

/// The first metadata entry carrying the default-audio-sink key.
pub open spec fn spec_find_entry(entries: Seq<Json>) -> Option<Json>
    decreases entries.len(),
{
    if entries.len() == 0 {
        Option::None
    } else if spec_is_default_sink_key(entries[0]) {
        Option::Some(entries[0])
    } else {
        spec_find_entry(entries.drop_first())
    }
}

/// The sink name a metadata entry value carries: the value itself when it is
/// encoded as a bare string, its name member when it is encoded as a
/// structured value; any other encoding carries none.
pub open spec fn spec_value_name(v: Json) -> Option<Seq<char>> {
    match v {
        Json::Text(s) => Option::Some(s@),
        Json::Object(_) => v.spec_get_text("name"@),
        _ => Option::None,
    }
}

/// The default sink name the records resolve: read from the value bound to
/// the default-audio-sink key of the metadata record named `default`.
pub open spec fn spec_default_name_of(records: Seq<Json>) -> Option<Seq<char>> {
    match spec_find_metadata(records) {
        Option::None => Option::None,
        Option::Some(md) => match md.spec_get("metadata"@) {
            Option::None => Option::None,
            Option::Some(m) => match m.spec_as_list() {
                Option::None => Option::None,
                Option::Some(entries) => match spec_find_entry(entries) {
                    Option::None => Option::None,
                    Option::Some(e) => match e.spec_get("value"@) {
                        Option::None => Option::None,
                        Option::Some(v) => spec_value_name(v),
                    },
                },
            },
        },
    }
}

/// The default sink name a whole dump value resolves; nothing when the dump
/// is not an array.
pub open spec fn spec_default_name(data: Json) -> Option<Seq<char>> {
    match data.spec_as_list() {
        Option::Some(_) => spec_default_name_of(spec_records_of(data)),
        Option::None => Option::None,
    }
}

/// The first sink whose name equals `name`, if any.
pub open spec fn spec_find_sink(sinks: Seq<SinkV>, name: Seq<char>) -> Option<SinkV>
    decreases sinks.len(),
{
    if sinks.len() == 0 {
        Option::None
    } else if sinks[0].name == name {
        Option::Some(sinks[0])
    } else {
        spec_find_sink(sinks.drop_first(), name)
    }
}

/// The default sink a whole dump value resolves: the first extracted sink
/// whose name equals the resolved default sink name.
pub open spec fn spec_default_sink(data: Json) -> Option<SinkV> {
    match spec_default_name(data) {
        Option::Some(nm) => spec_find_sink(spec_sinks_of(spec_records_of(data)), nm),
        Option::None => Option::None,
    }
}

/// Extracts every device of the dump, in input order; a dump that is not an
/// array yields none.
pub fn devices(data: &Json) -> (r: Vec<Device>)
    ensures
        r.deep_view() == spec_devices_of(spec_records_of(*data)),
{
    let mut r: Vec<Device> = Vec::new();
    let records: &Vec<Json> = match data.as_array() {
        Some(a) => a,
        None => {
            proof {
                assert(r.deep_view() =~= Seq::<DeviceV>::empty());
            }
            return r;
        },
    };
    let n = records.len();
    proof {
        assert(r.deep_view() =~= Seq::<DeviceV>::empty());
        assert(records@.skip(0) =~= records@);
        assert(Seq::<DeviceV>::empty() + spec_devices_of(records@) =~= spec_devices_of(
            records@,
        ));
    }
    let mut i: usize = 0;
    while i < n
        invariant
            i <= n,
            n == records@.len(),
            spec_devices_of(records@) == r.deep_view() + spec_devices_of(
                records@.skip(i as int),
            ),
        decreases n - i,
    {
        let ghost prev = r.deep_view();
        proof {
            assert(records@.skip(i as int)[0] == records@[i as int]);
            assert(records@.skip(i as int).drop_first() =~= records@.skip(i + 1));
        }
        match Device::new(&records[i]) {
            Some(d) => {
                let ghost dv = d.deep_view();
                r.push(d);
                proof {
                    assert(r.deep_view() =~= prev.push(dv));
                    assert(prev + spec_devices_of(records@.skip(i as int)) =~= r.deep_view()
                        + spec_devices_of(records@.skip(i + 1)));
                }
            },
            None => {},
        }
        i += 1;
    }
    proof {
        assert(records@.skip(n as int) =~= Seq::<Json>::empty());
        assert(r.deep_view() + Seq::<DeviceV>::empty() =~= r.deep_view());
    }
    r
}

/// Extracts every audio sink of the dump, in input order; a dump that is not
/// an array yields none.
pub fn audio_sinks(data: &Json) -> (r: Vec<Sink>)
    ensures
        r.deep_view() == spec_sinks_of(spec_records_of(*data)),
{
    let mut r: Vec<Sink> = Vec::new();
    let records: &Vec<Json> = match data.as_array() {
        Some(a) => a,
        None => {
            proof {
                assert(r.deep_view() =~= Seq::<SinkV>::empty());
            }
            return r;
        },
    };
    let n = records.len();
    proof {
        assert(r.deep_view() =~= Seq::<SinkV>::empty());
        assert(records@.skip(0) =~= records@);
        assert(Seq::<SinkV>::empty() + spec_sinks_of(records@) =~= spec_sinks_of(records@));
    }
    let mut i: usize = 0;
    while i < n
        invariant
            i <= n,
            n == records@.len(),
            spec_sinks_of(records@) == r.deep_view() + spec_sinks_of(records@.skip(i as int)),
        decreases n - i,
    {
        let ghost prev = r.deep_view();
        proof {
            assert(records@.skip(i as int)[0] == records@[i as int]);
            assert(records@.skip(i as int).drop_first() =~= records@.skip(i + 1));
        }
        match Sink::new(&records[i]) {
            Some(s) => {
                let ghost sv = s.deep_view();
                r.push(s);
                proof {
                    assert(r.deep_view() =~= prev.push(sv));
                    assert(prev + spec_sinks_of(records@.skip(i as int)) =~= r.deep_view()
                        + spec_sinks_of(records@.skip(i + 1)));
                }
            },
            None => {},
        }
        i += 1;
    }
    proof {
        assert(records@.skip(n as int) =~= Seq::<Json>::empty());
        assert(r.deep_view() + Seq::<SinkV>::empty() =~= r.deep_view());
    }
    r
}

/// Extracts every audio sink of the dump; the name `sinks` is the one state
/// assembly uses.
pub fn sinks(data: &Json) -> (r: Vec<Sink>)
    ensures
        r.deep_view() == spec_sinks_of(spec_records_of(*data)),
{
    audio_sinks(data)
}

/// Whether this record is the metadata record named `default`.
fn is_default_metadata(r: &Json) -> (b: bool)
    ensures
        b == spec_is_default_metadata(*r),
{
    let type_ok: bool = match r.get_str("type") {
        Some(t) => str_eq(t, "PipeWire:Interface:Metadata"),
        None => false,
    };
    let name_ok: bool = match r.get("props") {
        Some(p) => match p.get_str("metadata.name") {
            Some(t) => str_eq(t, "default"),
            None => false,
        },
        None => false,
    };
    type_ok && name_ok
}

/// Skipping a prefix without the metadata record leaves the search
/// unchanged.
proof fn lemma_find_metadata_skip(records: Seq<Json>, i: int)
    requires
        0 <= i <= records.len(),
        forall|k: int| 0 <= k < i ==> !spec_is_default_metadata(#[trigger] records[k]),
    ensures
        spec_find_metadata(records) == spec_find_metadata(records.skip(i)),
    decreases i,
{
    if i > 0 {
        lemma_find_metadata_skip(records.drop_first(), i - 1);
        assert(records.drop_first().skip(i - 1) =~= records.skip(i));
    } else {
        assert(records.skip(0) =~= records);
    }
}

/// Skipping a prefix without the entry leaves the search unchanged.
proof fn lemma_find_entry_skip(entries: Seq<Json>, i: int)
    requires
        0 <= i <= entries.len(),
        forall|k: int| 0 <= k < i ==> !spec_is_default_sink_key(#[trigger] entries[k]),
    ensures
        spec_find_entry(entries) == spec_find_entry(entries.skip(i)),
    decreases i,
{
    if i > 0 {
        lemma_find_entry_skip(entries.drop_first(), i - 1);
        assert(entries.drop_first().skip(i - 1) =~= entries.skip(i));
    } else {
        assert(entries.skip(0) =~= entries);
    }
}

/// Skipping a prefix without the name leaves the search unchanged.
proof fn lemma_find_sink_skip(sinks: Seq<SinkV>, name: Seq<char>, i: int)
    requires
        0 <= i <= sinks.len(),
        forall|k: int| 0 <= k < i ==> (#[trigger] sinks[k]).name != name,
    ensures
        spec_find_sink(sinks, name) == spec_find_sink(sinks.skip(i), name),
    decreases i,
{
    if i > 0 {
        lemma_find_sink_skip(sinks.drop_first(), name, i - 1);
        assert(sinks.drop_first().skip(i - 1) =~= sinks.skip(i));
    } else {
        assert(sinks.skip(0) =~= sinks);
    }
}

/// The name a metadata entry value carries, in either accepted encoding.
fn value_name(v: &Json) -> (r: Option<String>)
    ensures
        (match r {
            Option::Some(s) => spec_value_name(*v) == Option::Some(s@),
            Option::None => spec_value_name(*v) is None,
        }),
{
    match v {
        Json::Text(s) => Some(s.clone()),
        Json::Object(_) => match v.get_str("name") {
            Some(t) => Some(t.to_owned()),
            None => None,
        },
        _ => None,
    }
}

/// Resolves the name of the default sink out of the dump's metadata: the
/// value bound to the default-audio-sink key of the metadata record named
/// `default`, accepted as a bare string or as a structured value carrying a
/// name. Anything else, a missing record or a missing key yields nothing.
pub fn default_sink_name(data: &Json) -> (r: Option<String>)
    ensures
        (match r {
            Option::Some(s) => spec_default_name(*data) == Option::Some(s@),
            Option::None => spec_default_name(*data) is None,
        }),
{
    let records: &Vec<Json> = match data.as_array() {
        Some(a) => a,
        None => { return None },
    };
    // first pass: the metadata record named `default`
    let n = records.len();
    let mut i: usize = 0;
    let mut found: Option<&Json> = None;
    while i < n
        invariant_except_break
            i <= n,
            n == records@.len(),
            found is None,
            forall|k: int| 0 <= k < i ==> !spec_is_default_metadata(#[trigger] records@[k]),
        ensures
            i <= n,
            n == records@.len(),
            forall|k: int| 0 <= k < i ==> !spec_is_default_metadata(#[trigger] records@[k]),
            (match found {
                Option::Some(md) => i < n && *md == records@[i as int]
                    && spec_is_default_metadata(*md),
                Option::None => i == n,
            }),
        decreases n - i,
    {
        if is_default_metadata(&records[i]) {
            found = Some(&records[i]);
            break;
        }
        i += 1;
    }
    let md: &Json = match found {
        Some(md) => {
            proof {
                lemma_find_metadata_skip(records@, i as int);
                assert(records@.skip(i as int)[0] == records@[i as int]);
            }
            md
        },
        None => {
            proof {
                lemma_find_metadata_skip(records@, n as int);
                assert(records@.skip(n as int) =~= Seq::<Json>::empty());
            }
            return None;
        },
    };
    // second pass: the entry carrying the default-audio-sink key
    let entries: &Vec<Json> = match md.get("metadata") {
        Some(m) => match m.as_array() {
            Some(a) => a,
            None => { return None },
        },
        None => { return None },
    };
    let en = entries.len();
    let mut j: usize = 0;
    let mut entry: Option<&Json> = None;
    while j < en
        invariant_except_break
            j <= en,
            en == entries@.len(),
            entry is None,
            forall|k: int| 0 <= k < j ==> !spec_is_default_sink_key(#[trigger] entries@[k]),
        ensures
            j <= en,
            en == entries@.len(),
            forall|k: int| 0 <= k < j ==> !spec_is_default_sink_key(#[trigger] entries@[k]),
            (match entry {
                Option::Some(e) => j < en && *e == entries@[j as int] && spec_is_default_sink_key(
                    *e,
                ),
                Option::None => j == en,
            }),
        decreases en - j,
    {
        let key_ok: bool = match entries[j].get_str("key") {
            Some(t) => str_eq(t, "default.audio.sink"),
            None => false,
        };
        if key_ok {
            entry = Some(&entries[j]);
            break;
        }
        j += 1;
    }
    let e: &Json = match entry {
        Some(e) => {
            proof {
                lemma_find_entry_skip(entries@, j as int);
                assert(entries@.skip(j as int)[0] == entries@[j as int]);
            }
            e
        },
        None => {
            proof {
                lemma_find_entry_skip(entries@, en as int);
                assert(entries@.skip(en as int) =~= Seq::<Json>::empty());
            }
            return None;
        },
    };
    match e.get("value") {
        Some(v) => value_name(v),
        None => None,
    }
}

/// Resolves the default sink itself: the first extracted sink whose name
/// equals the resolved default sink name. No match is valid — the default
/// sink may not be enumerable right now — and yields nothing.
pub fn default_sink(data: &Json) -> (r: Option<Sink>)
    ensures
        (match r {
            Option::Some(s) => spec_default_sink(*data) == Option::Some(s.deep_view()),
            Option::None => spec_default_sink(*data) is None,
        }),
{
    let name: String = match default_sink_name(data) {
        Some(nm) => nm,
        None => { return None },
    };
    let sinks_found: Vec<Sink> = audio_sinks(data);
    let ghost sv = sinks_found.deep_view();
    let n = sinks_found.len();
    proof {
        assert(sv.len() == n);
    }
    let mut i: usize = 0;
    while i < n
        invariant
            i <= n,
            n == sinks_found@.len(),
            sv == sinks_found.deep_view(),
            sv.len() == n,
            sv == spec_sinks_of(spec_records_of(*data)),
            spec_default_name(*data) == Option::Some(name@),
            forall|k: int| 0 <= k < i ==> (#[trigger] sv[k]).name != name@,
        decreases n - i,
    {
        proof {
            assert(sv[i as int] == sinks_found@[i as int].deep_view());
        }
        if str_eq(sinks_found[i].name.as_str(), name.as_str()) {
            proof {
                lemma_find_sink_skip(sv, name@, i as int);
                assert(sv.skip(i as int)[0] == sv[i as int]);
            }
            return Some(sinks_found[i].duplicate());
        }
        i += 1;
    }
    proof {
        lemma_find_sink_skip(sv, name@, n as int);
        assert(sv.skip(n as int) =~= Seq::<SinkV>::empty());
    }
    None
}

} // verus!
