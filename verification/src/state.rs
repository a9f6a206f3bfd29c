//! One immutable snapshot of the audio topology: every device and sink one
//! dump yields, plus the resolved default-sink name. Built whole from one
//! dump and never updated in place.
use vstd::prelude::*;

use crate::decode::json_of;
use crate::decode::parse_json_text;
use crate::device::Device;
use crate::device::DeviceV;
use crate::json::Json;
use crate::parsers::default_sink_name;
use crate::parsers::devices;
use crate::parsers::sinks;
use crate::parsers::spec_default_name_of;
use crate::parsers::spec_devices_of;
use crate::parsers::spec_records_of;
use crate::parsers::spec_sinks_of;
use crate::sink::Sink;
use crate::sink::SinkV;
use crate::text::str_eq;

verus! {

/// Why a whole dump was rejected. Per-record failures are never errors;
/// only a dump that is not well-formed, or whose outer shape is not an
/// array of records, fails as a whole.
#[derive(Debug, Clone, Copy, PartialEq, Eq, Structural)]
pub enum DumpError {
    InvalidJson,
    NotAnArray,
}

/// One snapshot of the audio topology.
#[derive(Debug, Clone)]
pub struct PipeWireState {
    pub devices: Vec<Device>,
    pub sinks: Vec<Sink>,
    pub default_sink_name: Option<String>,
}

/// The mathematical content of a snapshot.
pub struct StateV {
    pub devices: Seq<DeviceV>,
    pub sinks: Seq<SinkV>,
    pub default_sink_name: Option<Seq<char>>,
}

impl DeepView for PipeWireState {
    type V = StateV;

    open spec fn deep_view(&self) -> StateV {
        StateV {
            devices: self.devices.deep_view(),
            sinks: self.sinks.deep_view(),
            default_sink_name: self.default_sink_name.deep_view(),
        }
    }
}

/// The snapshot a record sequence yields: all devices, all sinks, and the
/// resolved default-sink name, each by one independent pass.
pub open spec fn spec_state_of(records: Seq<Json>) -> StateV {
    StateV {
        devices: spec_devices_of(records),
        sinks: spec_sinks_of(records),
        default_sink_name: spec_default_name_of(records),
    }
}

impl PipeWireState {
    /// Assembles one snapshot from a dump value. A dump whose outer shape is
    /// not an array fails whole; records inside it are classified and
    /// extracted independently, and a dump with no extractable record yields
    /// a valid, empty snapshot.
    pub fn new(data: &Json) -> (r: Result<PipeWireState, DumpError>)
        ensures
            (match r {
                Result::Ok(st) => (*data) matches Json::List(_) && st.deep_view() == spec_state_of(
                    spec_records_of(*data),
                ),
                Result::Err(e) => !((*data) matches Json::List(_)) && e == DumpError::NotAnArray,
            }),
    {
        match data.as_array() {
            Some(_) => Ok(
                PipeWireState {
                    devices: devices(data),
                    sinks: sinks(data),
                    default_sink_name: default_sink_name(data),
                },
            ),
            None => Err(DumpError::NotAnArray),
        }
    }

    /// Assembles one snapshot straight from dump text: text that is not
    /// well-formed fails whole, as does a well-formed dump that is not an
    /// array of records.
    pub fn from_text(text: &str) -> (r: Result<PipeWireState, DumpError>)
        ensures
            (match r {
                Result::Ok(st) => json_of(text@) matches Option::Some(j) && j matches Json::List(_)
                    && st.deep_view() == spec_state_of(spec_records_of(j)),
                Result::Err(e) => match json_of(text@) {
                    Option::Some(j) => !(j matches Json::List(_)) && e == DumpError::NotAnArray,
                    Option::None => e == DumpError::InvalidJson,
                },
            }),
    {
        match parse_json_text(text) {
            Some(j) => PipeWireState::new(&j),
            None => Err(DumpError::InvalidJson),
        }
    }

    /// Whether `sink` is the one the snapshot's default-sink name names.
    pub fn is_default_sink(&self, sink: &Sink) -> (r: bool)
        ensures
            r == (match self.default_sink_name.deep_view() {
                Option::Some(n) => n == sink.name@,
                Option::None => false,
            }),
    {
        match &self.default_sink_name {
            Some(n) => str_eq(n.as_str(), sink.name.as_str()),
            None => false,
        }
    }
}

impl PartialEq for PipeWireState {
    fn eq(&self, other: &PipeWireState) -> (r: bool) {
        let devices_eq: bool = self.devices == other.devices;
        let sinks_eq: bool = self.sinks == other.sinks;
        let name_eq: bool = match (&self.default_sink_name, &other.default_sink_name) {
            (Some(a), Some(b)) => str_eq(a.as_str(), b.as_str()),
            (None, None) => true,
            _ => false,
        };
        proof {
            assert(self.devices.deep_view().len() == self.devices@.len());
            assert(other.devices.deep_view().len() == other.devices@.len());
            assert(self.sinks.deep_view().len() == self.sinks@.len());
            assert(other.sinks.deep_view().len() == other.sinks@.len());
            if devices_eq {
                assert(self.devices.deep_view() =~= other.devices.deep_view());
            }
            if self.devices.deep_view() == other.devices.deep_view() {
                assert forall|i: int|
                    0 <= i < self.devices@.len() implies (#[trigger] self.devices@[i]).deep_view()
                    == other.devices@[i].deep_view() by {
                    crate::utils::lemma_vec_deep_view_index(self.devices, i);
                    crate::utils::lemma_vec_deep_view_index(other.devices, i);
                }
            }
            if sinks_eq {
                assert(self.sinks.deep_view() =~= other.sinks.deep_view());
            }
            if self.sinks.deep_view() == other.sinks.deep_view() {
                assert forall|i: int|
                    0 <= i < self.sinks@.len() implies (#[trigger] self.sinks@[i]).deep_view()
                    == other.sinks@[i].deep_view() by {
                    crate::utils::lemma_vec_deep_view_index(self.sinks, i);
                    crate::utils::lemma_vec_deep_view_index(other.sinks, i);
                }
            }
        }
        devices_eq && sinks_eq && name_eq
    }
}

impl vstd::std_specs::cmp::PartialEqSpecImpl for PipeWireState {
    open spec fn obeys_eq_spec() -> bool {
        true
    }

    open spec fn eq_spec(&self, other: &PipeWireState) -> bool {
        self.deep_view() == other.deep_view()
    }
}

} // verus!
