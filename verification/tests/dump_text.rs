use pipewire_quick_settings::clients::parse_pw_clients;
use pipewire_quick_settings::clients::parse_pw_sinks;
use pipewire_quick_settings::state::DumpError;
use pipewire_quick_settings::state::PipeWireState;

const SINK_DUMP: &str = r#"[
  {
    "id": 42,
    "type": "PipeWire:Interface:Node",
    "info": {
      "props": {
        "media.class": "Audio/Sink",
        "device.id": 7,
        "card.profile.device": 0,
        "node.name": "alsa_output.foo",
        "node.description": "Speakers"
      }
    }
  },
  {
    "id": 9,
    "type": "PipeWire:Interface:Metadata",
    "props": { "metadata.name": "default" },
    "metadata": [
      { "key": "default.audio.sink", "value": "alsa_output.foo" }
    ]
  }
]"#;

#[test]
fn snapshot_builds_from_dump_text() {
    let state = PipeWireState::from_text(SINK_DUMP).expect("well-formed array dump");
    assert_eq!(state.sinks.len(), 1);
    assert_eq!(state.sinks[0].id, 42);
    assert_eq!(state.sinks[0].device, 7);
    assert_eq!(state.sinks[0].name, "alsa_output.foo".to_string());
    assert_eq!(state.devices.len(), 0);
    assert_eq!(state.default_sink_name, Some("alsa_output.foo".to_string()));
}

#[test]
fn empty_array_text_builds_an_empty_snapshot() {
    let state = PipeWireState::from_text("[]").expect("an empty array is valid");
    assert_eq!(state.devices.len(), 0);
    assert_eq!(state.sinks.len(), 0);
    assert_eq!(state.default_sink_name, None);
}

#[test]
fn malformed_text_fails_whole() {
    assert_eq!(
        PipeWireState::from_text("not a dump").unwrap_err(),
        DumpError::InvalidJson
    );
    assert_eq!(
        PipeWireState::from_text("[1, 2").unwrap_err(),
        DumpError::InvalidJson
    );
}

#[test]
fn non_array_text_fails_whole() {
    assert_eq!(
        PipeWireState::from_text("{\"id\": 1}").unwrap_err(),
        DumpError::NotAnArray
    );
    assert_eq!(
        PipeWireState::from_text("\"just a string\"").unwrap_err(),
        DumpError::NotAnArray
    );
}

#[test]
fn clients_list_by_id() {
    let dump = r#"[
      {
        "id": 33,
        "type": "PipeWire:Interface:Client",
        "info": { "props": { "application.name": "Music Player" } }
      },
      {
        "id": 44,
        "type": "PipeWire:Interface:Node",
        "info": { "props": { "application.name": "Not A Client" } }
      }
    ]"#;
    let clients = parse_pw_clients(dump.to_string()).expect("well-formed text");
    assert_eq!(clients.len(), 1);
    assert_eq!(clients.get(&33), Some(&"Music Player".to_string()));
}

#[test]
fn clients_of_invalid_text_fail_whole() {
    assert_eq!(
        parse_pw_clients("oops".to_string()).unwrap_err(),
        DumpError::InvalidJson
    );
    assert_eq!(
        parse_pw_sinks("oops".to_string()).unwrap_err(),
        DumpError::InvalidJson
    );
}

#[test]
fn clients_of_non_array_text_are_empty() {
    let clients = parse_pw_clients("{\"id\": 3}".to_string()).expect("an object parses");
    assert_eq!(clients.len(), 0);
}

#[test]
fn sink_descriptions_fall_back_in_order() {
    let dump = r#"[
      {
        "id": 1,
        "type": "PipeWire:Interface:Node",
        "info": { "props": {
          "media.class": "Audio/Sink",
          "node.description": "Front Speakers",
          "node.nick": "front"
        } }
      },
      {
        "id": 2,
        "type": "PipeWire:Interface:Node",
        "info": { "props": { "media.class": "Audio/Sink", "node.nick": "hdmi" } }
      },
      {
        "id": 3,
        "type": "PipeWire:Interface:Node",
        "info": { "props": { "media.class": "Audio/Sink" } }
      },
      {
        "id": 4,
        "type": "PipeWire:Interface:Node",
        "info": { "props": { "media.class": "Audio/Source" } }
      }
    ]"#;
    let sinks = parse_pw_sinks(dump.to_string()).expect("well-formed text");
    assert_eq!(sinks.len(), 3);
    assert_eq!(sinks.get(&1), Some(&"Front Speakers".to_string()));
    assert_eq!(sinks.get(&2), Some(&"hdmi".to_string()));
    assert_eq!(sinks.get(&3), Some(&"Unknown Sink".to_string()));
    assert_eq!(sinks.get(&4), None);
}

#[test]
fn later_records_with_equal_ids_replace_earlier_ones() {
    let dump = r#"[
      {
        "id": 5,
        "type": "PipeWire:Interface:Client",
        "info": { "props": { "application.name": "First" } }
      },
      {
        "id": 5,
        "type": "PipeWire:Interface:Client",
        "info": { "props": { "application.name": "Second" } }
      }
    ]"#;
    let clients = parse_pw_clients(dump.to_string()).expect("well-formed text");
    assert_eq!(clients.len(), 1);
    assert_eq!(clients.get(&5), Some(&"Second".to_string()));
}

#[test]
fn numeric_encodings_survive_the_text_boundary() {
    let dump = r#"[
      {
        "id": "42",
        "type": "PipeWire:Interface:Node",
        "info": { "props": {
          "media.class": "Audio/Sink",
          "device.id": "7",
          "card.profile.device": 0,
          "node.name": "alsa_output.bar",
          "node.description": "Headphones"
        } }
      }
    ]"#;
    let state = PipeWireState::from_text(dump).expect("well-formed array dump");
    assert_eq!(state.sinks.len(), 1);
    assert_eq!(state.sinks[0].id, 42);
    assert_eq!(state.sinks[0].device, 7);
}
