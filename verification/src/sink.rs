//! An audio output endpoint, extracted from a node record of the dump.
//! Unlike devices, sinks have no fallback chains: every identifying field is
//! required, because mutation commands downstream need the exact identifiers.
use vstd::prelude::*;

use crate::control::parse_mute_response;
use crate::control::parse_volume_response;
use crate::control::spec_contains_mute_marker;
use crate::control::spec_volume_pct;
use crate::json::Json;
use crate::text::str_eq;
use crate::utils::spec_get_u32;
use crate::utils::value_as_u32;

verus! {

/// One audio output endpoint: its identity, a weak reference to the owning
/// device by id, its port, its stable machine name, its human description,
/// and the current volume percentage and mute state.
#[derive(Debug, Clone)]
pub struct Sink {
    pub id: u32,
    pub device: u32,
    pub port: u32,
    pub name: String,
    pub description: String,
    pub volume: u32,
    pub muted: bool,
}

/// The mathematical content of a `Sink`.
pub struct SinkV {
    pub id: u32,
    pub device: u32,
    pub port: u32,
    pub name: Seq<char>,
    pub description: Seq<char>,
    pub volume: u32,
    pub muted: bool,
}

impl DeepView for Sink {
    type V = SinkV;

    open spec fn deep_view(&self) -> SinkV {
        SinkV {
            id: self.id,
            device: self.device,
            port: self.port,
            name: self.name@,
            description: self.description@,
            volume: self.volume,
            muted: self.muted,
        }
    }
}

/// The nested property object of a record, behind `info` then `props`.
pub open spec fn spec_props_of(r: Json) -> Option<Json> {
    match r.spec_get("info"@) {
        Option::Some(info) => info.spec_get("props"@),
        Option::None => Option::None,
    }
}

/// Whether a record declares itself a node whose media class is an audio
/// sink: the two discriminators sink extraction requires.
pub open spec fn spec_is_sink_record(r: Json) -> bool {
    &&& r.spec_get_text("type"@) == Option::Some("PipeWire:Interface:Node"@)
    &&& (match spec_props_of(r) {
        Option::Some(props) => props.spec_get_text("media.class"@) == Option::Some(
            "Audio/Sink"@,
        ),
        Option::None => false,
    })
}

/// The sink a record yields: present exactly when the record is a sink
/// record and all of id, owning-device id, port, name and description are
/// present. Volume and mute state start at their quiet defaults; the
/// control-query enrichment sets them separately.
pub open spec fn spec_sink_of(r: Json) -> Option<SinkV> {
    if !spec_is_sink_record(r) {
        Option::None
    } else {
        match spec_props_of(r) {
            Option::Some(props) => match (
                spec_get_u32(r, "id"@),
                spec_get_u32(props, "device.id"@),
                spec_get_u32(props, "card.profile.device"@),
                props.spec_get_text("node.name"@),
                props.spec_get_text("node.description"@),
            ) {
                (
                    Option::Some(id),
                    Option::Some(device),
                    Option::Some(port),
                    Option::Some(name),
                    Option::Some(description),
                ) => Option::Some(
                    SinkV { id, device, port, name, description, volume: 0, muted: false },
                ),
                _ => Option::None,
            },
            Option::None => Option::None,
        }
    }
}

/// The volume and mute state a control-query response carries: the parsed
/// percentage when the response holds one, and whether the mute marker
/// appears. A missing or unreadable response falls back to the quiet
/// defaults of zero volume and unmuted.
pub open spec fn spec_levels_of(response: Option<Seq<char>>) -> (u32, bool) {
    match response {
        Option::Some(text) => (
            (match spec_volume_pct(text) {
                Option::Some(pct) => pct,
                Option::None => 0u32,
            }),
            spec_contains_mute_marker(text),
        ),
        Option::None => (0u32, false),
    }
}

impl Sink {
    /// Extracts one sink from one record; a record that is not a sink record
    /// or misses any required field yields nothing. Volume and mute state are
    /// left at their quiet defaults.
    pub fn new(data: &Json) -> (r: Option<Sink>)
        ensures
            (match r {
                Option::Some(s) => spec_sink_of(*data) == Option::Some(s.deep_view()),
                Option::None => spec_sink_of(*data) is None,
            }),
    {
        let type_ok: bool = match data.get("type") {
            Some(v) => match v.as_str() {
                Some(t) => str_eq(t, "PipeWire:Interface:Node"),
                None => false,
            },
            None => false,
        };
        let props_opt: Option<&Json> = match data.get("info") {
            Some(info) => info.get("props"),
            None => None,
        };
        let class_ok: bool = match props_opt {
            Some(p) => match p.get("media.class") {
                Some(v) => match v.as_str() {
                    Some(t) => str_eq(t, "Audio/Sink"),
                    None => false,
                },
                None => false,
            },
            None => false,
        };
        if !(type_ok && class_ok) {
            return None;
        }
        let props: &Json = match props_opt {
            Some(p) => p,
            None => { return None },
        };
        let id: u32 = match data.get("id") {
            Some(v) => match value_as_u32(v) {
                Some(n) => n,
                None => { return None },
            },
            None => { return None },
        };
        let device: u32 = match props.get("device.id") {
            Some(v) => match value_as_u32(v) {
                Some(n) => n,
                None => { return None },
            },
            None => { return None },
        };
        let port: u32 = match props.get("card.profile.device") {
            Some(v) => match value_as_u32(v) {
                Some(n) => n,
                None => { return None },
            },
            None => { return None },
        };
        let name: String = match props.get("node.name") {
            Some(v) => match v.as_str() {
                Some(t) => t.to_owned(),
                None => { return None },
            },
            None => { return None },
        };
        let description: String = match props.get("node.description") {
            Some(v) => match v.as_str() {
                Some(t) => t.to_owned(),
                None => { return None },
            },
            None => { return None },
        };
        Some(Sink { id, device, port, name, description, volume: 0, muted: false })
    }

    /// An equal copy, field by field.
    pub fn duplicate(&self) -> (r: Sink)
        ensures
            r.deep_view() == self.deep_view(),
    {
        Sink {
            id: self.id,
            device: self.device,
            port: self.port,
            name: self.name.clone(),
            description: self.description.clone(),
            volume: self.volume,
            muted: self.muted,
        }
    }

    /// Applies the volume and mute state read from a control-query response,
    /// handed over as plain text by whatever performed the query; `None`
    /// means the query itself failed. On any failure the sink keeps the
    /// quiet defaults: zero volume, unmuted.
    pub fn with_levels(self, response: Option<&str>) -> (r: Sink)
        ensures
            r.deep_view() == (SinkV {
                volume: spec_levels_of(
                    (match response {
                        Option::Some(t) => Option::Some(t@),
                        Option::None => Option::None,
                    }),
                ).0,
                muted: spec_levels_of(
                    (match response {
                        Option::Some(t) => Option::Some(t@),
                        Option::None => Option::None,
                    }),
                ).1,
                ..self.deep_view()
            }),
    {
        match response {
            Some(text) => {
                let volume: u32 = match parse_volume_response(text) {
                    Some(pct) => pct,
                    None => 0,
                };
                let muted: bool = parse_mute_response(text);
                Sink { volume, muted, ..self }
            },
            None => Sink { volume: 0, muted: false, ..self },
        }
    }
}

impl PartialEq for Sink {
    fn eq(&self, other: &Sink) -> (r: bool) {
        self.id == other.id && self.device == other.device && self.port == other.port && self.name
            == other.name && self.description == other.description && self.volume == other.volume
            && self.muted == other.muted
    }
}

impl vstd::std_specs::cmp::PartialEqSpecImpl for Sink {
    open spec fn obeys_eq_spec() -> bool {
        true
    }

    open spec fn eq_spec(&self, other: &Sink) -> bool {
        self.deep_view() == other.deep_view()
    }
}

} // verus!
