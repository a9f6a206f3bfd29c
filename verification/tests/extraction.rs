use pipewire_quick_settings::device::Device;
use pipewire_quick_settings::json::Json;
use pipewire_quick_settings::parsers::audio_sinks;
use pipewire_quick_settings::parsers::default_sink;
use pipewire_quick_settings::parsers::default_sink_name;
use pipewire_quick_settings::parsers::devices;
use pipewire_quick_settings::profile::EnumProfile;
use pipewire_quick_settings::route::EnumRoute;
use pipewire_quick_settings::sink::Sink;
use pipewire_quick_settings::state::DumpError;
use pipewire_quick_settings::state::PipeWireState;

fn obj(fields: Vec<(&str, Json)>) -> Json {
    Json::Object(fields.into_iter().map(|(k, v)| (k.to_string(), v)).collect())
}

fn text(s: &str) -> Json {
    Json::Text(s.to_string())
}

fn sink_record() -> Json {
    obj(vec![
        ("id", Json::UInt(42)),
        ("type", text("PipeWire:Interface:Node")),
        (
            "info",
            obj(vec![(
                "props",
                obj(vec![
                    ("media.class", text("Audio/Sink")),
                    ("device.id", Json::UInt(7)),
                    ("card.profile.device", Json::UInt(0)),
                    ("node.name", text("alsa_output.foo")),
                    ("node.description", text("Speakers")),
                ]),
            )]),
        ),
    ])
}

fn metadata_record(value: Json) -> Json {
    obj(vec![
        ("type", text("PipeWire:Interface:Metadata")),
        ("props", obj(vec![("metadata.name", text("default"))])),
        (
            "metadata",
            Json::List(vec![obj(vec![
                ("key", text("default.audio.sink")),
                ("value", value),
            ])]),
        ),
    ])
}

fn device_record(profile_indices: &[u32], selected: Option<u32>) -> Json {
    let profiles: Vec<Json> = profile_indices
        .iter()
        .map(|i| {
            obj(vec![
                ("index", Json::UInt(u64::from(*i))),
                ("description", text("Analog")),
                ("priority", Json::UInt(100)),
                ("available", text("yes")),
            ])
        })
        .collect();
    let mut params = vec![("EnumProfile", Json::List(profiles))];
    if let Some(sel) = selected {
        params.push((
            "Profile",
            Json::List(vec![obj(vec![("index", Json::UInt(u64::from(sel)))])]),
        ));
    }
    obj(vec![
        ("id", Json::UInt(30)),
        ("type", text("PipeWire:Interface:Device")),
        (
            "info",
            obj(vec![
                (
                    "props",
                    obj(vec![
                        ("media.class", text("Audio/Device")),
                        ("device.product.name", text("Test Card")),
                    ]),
                ),
                ("params", obj(params)),
            ]),
        ),
    ])
}

#[test]
fn single_node_record_yields_exactly_one_sink() {
    let dump = Json::List(vec![sink_record()]);
    let sinks = audio_sinks(&dump);
    assert_eq!(sinks.len(), 1);
    let s = &sinks[0];
    assert_eq!(s.id, 42);
    assert_eq!(s.device, 7);
    assert_eq!(s.port, 0);
    assert_eq!(s.name, "alsa_output.foo".to_string());
    assert_eq!(s.description, "Speakers".to_string());
    assert_eq!(s.volume, 0);
    assert!(!s.muted);
}

#[test]
fn metadata_record_resolves_default_to_that_sink() {
    let dump = Json::List(vec![sink_record(), metadata_record(text("alsa_output.foo"))]);
    let name = default_sink_name(&dump);
    assert_eq!(name, Some("alsa_output.foo".to_string()));
    let resolved = default_sink(&dump).expect("the default sink should resolve");
    assert_eq!(resolved.id, 42);
    assert_eq!(resolved.name, "alsa_output.foo".to_string());
    let state = PipeWireState::new(&dump).expect("an array dump must build");
    assert!(state.is_default_sink(&resolved));
}

#[test]
fn empty_dump_yields_empty_snapshot_without_error() {
    let dump = Json::List(vec![]);
    let state = PipeWireState::new(&dump).expect("an empty array is a valid dump");
    assert_eq!(state.devices.len(), 0);
    assert_eq!(state.sinks.len(), 0);
    assert_eq!(state.default_sink_name, None);
}

#[test]
fn unmatched_selected_profile_index_resolves_to_absent() {
    let dump = Json::List(vec![device_record(&[1, 2], Some(3))]);
    let ds = devices(&dump);
    assert_eq!(ds.len(), 1);
    assert!(ds[0].current_profile.is_none());
    assert_eq!(ds[0].profiles.len(), 2);
}

#[test]
fn matched_selected_profile_index_resolves_to_that_profile() {
    let dump = Json::List(vec![device_record(&[1, 2], Some(2))]);
    let ds = devices(&dump);
    assert_eq!(ds.len(), 1);
    let current = ds[0].current_profile.as_ref().expect("index 2 is present");
    assert_eq!(current.index, 2);
}

#[test]
fn node_with_other_media_class_yields_no_sink() {
    let mut record = sink_record();
    if let Json::Object(ref mut fields) = record {
        for f in fields.iter_mut() {
            if f.0 == "info" {
                f.1 = obj(vec![(
                    "props",
                    obj(vec![
                        ("media.class", text("Audio/Source")),
                        ("device.id", Json::UInt(7)),
                        ("card.profile.device", Json::UInt(0)),
                        ("node.name", text("alsa_output.foo")),
                        ("node.description", text("Speakers")),
                    ]),
                )]);
            }
        }
    }
    let dump = Json::List(vec![record]);
    assert_eq!(audio_sinks(&dump).len(), 0);
}

#[test]
fn device_with_other_media_class_yields_no_device() {
    let record = obj(vec![
        ("id", Json::UInt(30)),
        ("type", text("PipeWire:Interface:Device")),
        (
            "info",
            obj(vec![(
                "props",
                obj(vec![
                    ("media.class", text("Video/Device")),
                    ("device.product.name", text("Webcam")),
                ]),
            )]),
        ),
    ]);
    let dump = Json::List(vec![record]);
    assert_eq!(devices(&dump).len(), 0);
}

#[test]
fn bare_string_and_structured_default_values_resolve_alike() {
    let bare = Json::List(vec![sink_record(), metadata_record(text("alsa_output.foo"))]);
    let structured = Json::List(vec![
        sink_record(),
        metadata_record(obj(vec![("name", text("alsa_output.foo"))])),
    ]);
    assert_eq!(default_sink_name(&bare), default_sink_name(&structured));
    assert_eq!(default_sink_name(&bare), Some("alsa_output.foo".to_string()));
}

#[test]
fn extracting_twice_yields_equal_snapshots() {
    let dump = Json::List(vec![
        device_record(&[1, 2], Some(1)),
        sink_record(),
        metadata_record(text("alsa_output.foo")),
    ]);
    let a = PipeWireState::new(&dump).expect("array dump");
    let b = PipeWireState::new(&dump).expect("array dump");
    assert_eq!(a, b);
}

#[test]
fn non_array_dump_is_rejected_whole() {
    let dump = obj(vec![("id", Json::UInt(1))]);
    assert_eq!(PipeWireState::new(&dump).unwrap_err(), DumpError::NotAnArray);
}

#[test]
fn sink_missing_required_field_is_dropped() {
    let record = obj(vec![
        ("id", Json::UInt(42)),
        ("type", text("PipeWire:Interface:Node")),
        (
            "info",
            obj(vec![(
                "props",
                obj(vec![
                    ("media.class", text("Audio/Sink")),
                    ("device.id", Json::UInt(7)),
                    ("card.profile.device", Json::UInt(0)),
                    ("node.name", text("alsa_output.foo")),
                ]),
            )]),
        ),
    ]);
    let dump = Json::List(vec![record]);
    assert_eq!(audio_sinks(&dump).len(), 0);
}

#[test]
fn device_name_falls_back_in_order() {
    let with_description = obj(vec![
        ("id", Json::UInt(1)),
        ("type", text("PipeWire:Interface:Device")),
        (
            "info",
            obj(vec![(
                "props",
                obj(vec![
                    ("media.class", text("Audio/Device")),
                    ("device.description", text("By Description")),
                    ("device.alias", text("By Alias")),
                ]),
            )]),
        ),
    ]);
    let dump = Json::List(vec![with_description]);
    let ds = devices(&dump);
    assert_eq!(ds.len(), 1);
    assert_eq!(ds[0].name, "By Description".to_string());
}

#[test]
fn device_without_any_name_candidate_is_dropped() {
    let record = obj(vec![
        ("id", Json::UInt(1)),
        ("type", text("PipeWire:Interface:Device")),
        (
            "info",
            obj(vec![(
                "props",
                obj(vec![("media.class", text("Audio/Device"))]),
            )]),
        ),
    ]);
    let dump = Json::List(vec![record]);
    assert_eq!(devices(&dump).len(), 0);
}

#[test]
fn profile_entry_missing_a_field_is_dropped_alone() {
    let good = obj(vec![
        ("index", Json::UInt(1)),
        ("description", text("Good")),
        ("priority", Json::UInt(10)),
        ("available", text("yes")),
    ]);
    let bad = obj(vec![("index", Json::UInt(2)), ("priority", Json::UInt(5))]);
    assert!(EnumProfile::new(&good).is_some());
    assert!(EnumProfile::new(&bad).is_none());
    assert!(EnumRoute::new(&good).is_some());
    assert!(EnumRoute::new(&bad).is_none());
}

#[test]
fn profile_priority_accepts_numeric_strings() {
    let entry = obj(vec![
        ("index", Json::UInt(1)),
        ("description", text("Analog")),
        ("priority", text("42")),
        ("available", text("yes")),
    ]);
    let p = EnumProfile::new(&entry).expect("string priorities parse");
    assert_eq!(p.priority, 42);
}

#[test]
fn profile_index_is_read_truncated() {
    let entry = obj(vec![
        ("index", Json::UInt(4_294_967_301)),
        ("description", text("Analog")),
        ("priority", Json::UInt(1)),
        ("available", text("yes")),
    ]);
    let p = EnumProfile::new(&entry).expect("the index is truncated, not rejected");
    assert_eq!(p.index, 5);
}

#[test]
fn missing_default_sink_name_matches_no_sink() {
    let dump = Json::List(vec![sink_record(), metadata_record(text("alsa_output.gone"))]);
    assert_eq!(
        default_sink_name(&dump),
        Some("alsa_output.gone".to_string())
    );
    assert!(default_sink(&dump).is_none());
    let state = PipeWireState::new(&dump).expect("array dump");
    assert!(!state.is_default_sink(&state.sinks[0].clone()));
}

#[test]
fn default_value_in_other_encoding_yields_absence() {
    let dump = Json::List(vec![metadata_record(Json::UInt(5))]);
    assert_eq!(default_sink_name(&dump), None);
}

#[test]
fn sink_and_device_extractors_accept_equal_copies() {
    let dump = Json::List(vec![sink_record()]);
    let s: Sink = audio_sinks(&dump).remove(0);
    assert_eq!(s, s.clone());
    let dump2 = Json::List(vec![device_record(&[1], Some(1))]);
    let d: Device = devices(&dump2).remove(0);
    assert_eq!(d, d.clone());
}
