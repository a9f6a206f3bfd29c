//! Quick per-id listings over one dump text: the application names of its
//! client records and the descriptions of its audio-sink node records,
//! each keyed by record id. Later records with the same id replace earlier
//! ones.
use vstd::prelude::*;

use std::collections::HashMap;

use crate::decode::json_of;
use crate::decode::parse_json_text;
use crate::json::Json;
use crate::parsers::spec_records_of;
use crate::sink::spec_props_of;
use crate::state::DumpError;
use crate::text::str_eq;

verus! {

broadcast use vstd::std_specs::hash::group_hash_axioms;

/// The id and application name a client record yields: present exactly when
/// the record declares itself a client and carries a numeric id and an
/// application name.
pub open spec fn spec_client_of(r: Json) -> Option<(i32, Seq<char>)> {
    if r.spec_get_text("type"@) == Option::Some("PipeWire:Interface:Client"@) {
        match r.spec_get("id"@) {
            Option::Some(idv) => match idv.spec_as_i64() {
                Option::Some(id) => match spec_props_of(r) {
                    Option::Some(props) => match props.spec_get_text("application.name"@) {
                        Option::Some(nm) => Option::Some((id as i32, nm)),
                        Option::None => Option::None,
                    },
                    Option::None => Option::None,
                },
                Option::None => Option::None,
            },
            Option::None => Option::None,
        }
    } else {
        Option::None
    }
}

/// The id and description an audio-sink node record yields: the description
/// falls back from the node description to the node nickname to a fixed
/// placeholder.
pub open spec fn spec_pw_sink_of(r: Json) -> Option<(i32, Seq<char>)> {
    if r.spec_get_text("type"@) == Option::Some("PipeWire:Interface:Node"@) {
        match r.spec_get("id"@) {
            Option::Some(idv) => match idv.spec_as_i64() {
                Option::Some(id) => match spec_props_of(r) {
                    Option::Some(props) => if props.spec_get_text("media.class"@)
                        == Option::Some("Audio/Sink"@) {
                        Option::Some(
                            (
                                id as i32,
                                (match props.spec_get_text("node.description"@) {
                                    Option::Some(de) => de,
                                    Option::None => match props.spec_get_text("node.nick"@) {
                                        Option::Some(nk) => nk,
                                        Option::None => "Unknown Sink"@,
                                    },
                                }),
                            ),
                        )
                    } else {
                        Option::None
                    },
                    Option::None => Option::None,
                },
                Option::None => Option::None,
            },
            Option::None => Option::None,
        }
    } else {
        Option::None
    }
}

/// The client map a record sequence yields, later records replacing earlier
/// ones of the same id.
pub open spec fn spec_clients_of(records: Seq<Json>) -> Map<i32, Seq<char>>
    decreases records.len(),
{
    if records.len() == 0 {
        Map::empty()
    } else {
        let m = spec_clients_of(records.drop_last());
        match spec_client_of(records.last()) {
            Option::Some(kv) => m.insert(kv.0, kv.1),
            Option::None => m,
        }
    }
}

/// The sink-description map a record sequence yields, later records
/// replacing earlier ones of the same id.
pub open spec fn spec_pw_sinks_of(records: Seq<Json>) -> Map<i32, Seq<char>>
    decreases records.len(),
{
    if records.len() == 0 {
        Map::empty()
    } else {
        let m = spec_pw_sinks_of(records.drop_last());
        match spec_pw_sink_of(records.last()) {
            Option::Some(kv) => m.insert(kv.0, kv.1),
            Option::None => m,
        }
    }
}

/// Inserting into the map inserts into its deep view.
proof fn lemma_deepview_insert(
    pre: HashMap<i32, String>,
    post: HashMap<i32, String>,
    k: i32,
    v: String,
)
    requires
        post@ == pre@.insert(k, v),
    ensures
        post.deep_view() =~= pre.deep_view().insert(k, v@),
{
    assert(vstd::relations::injective(|x: i32| x.deep_view()));
    vstd::std_specs::hash::lemma_hashmap_deepview_properties(pre);
    vstd::std_specs::hash::lemma_hashmap_deepview_properties(post);
    vstd::std_specs::hash::lemma_hashmap_deepview_dom(pre);
    vstd::std_specs::hash::lemma_hashmap_deepview_dom(post);
    assert forall|dk: i32| post.deep_view().contains_key(dk) implies pre.deep_view().insert(
        k,
        v@,
    ).contains_key(dk) && post.deep_view()[dk] == pre.deep_view().insert(k, v@)[dk] by {
        assert(post@.contains_key(dk));
        assert(post.deep_view()[dk] == post@[dk]@);
    }
    assert forall|dk: i32| pre.deep_view().insert(k, v@).contains_key(dk) implies post.deep_view()
        .contains_key(dk) by {
        if dk == k {
            assert(post@.contains_key(k));
        } else {
            assert(pre@.contains_key(dk));
            assert(post@.contains_key(dk));
        }
    }
}

/// A fresh map's deep view is empty.
proof fn lemma_deepview_empty(m: HashMap<i32, String>)
    requires
        m@ == Map::<i32, String>::empty(),
    ensures
        m.deep_view() =~= Map::<i32, Seq<char>>::empty(),
{
    assert(vstd::relations::injective(|x: i32| x.deep_view()));
    vstd::std_specs::hash::lemma_hashmap_deepview_properties(m);
    assert forall|dk: i32| !(#[trigger] m.deep_view().contains_key(dk)) by {
        if m.deep_view().contains_key(dk) {
            let k = choose|k: i32| k.deep_view() == dk && #[trigger] m@.contains_key(k);
            assert(m@.contains_key(k));
        }
    }
}

/// The id and application name of one client record.
fn client_of(r: &Json) -> (res: Option<(i32, String)>)
    ensures
        (match res {
            Option::Some(kv) => spec_client_of(*r) == Option::Some((kv.0, kv.1@)),
            Option::None => spec_client_of(*r) is None,
        }),
{
    let type_ok: bool = match r.get_str("type") {
        Some(t) => str_eq(t, "PipeWire:Interface:Client"),
        None => false,
    };
    if !type_ok {
        return None;
    }
    let id: i32 = match r.get("id") {
        Some(v) => match v.as_i64() {
            Some(i) => #[verifier::truncate] (i as i32),
            None => { return None },
        },
        None => { return None },
    };
    let props: &Json = match r.get("info") {
        Some(info) => match info.get("props") {
            Some(p) => p,
            None => { return None },
        },
        None => { return None },
    };
    let name: String = match props.get_str("application.name") {
        Some(t) => t.to_owned(),
        None => { return None },
    };
    Some((id, name))
}

/// The id and description of one audio-sink node record.
fn pw_sink_of(r: &Json) -> (res: Option<(i32, String)>)
    ensures
        (match res {
            Option::Some(kv) => spec_pw_sink_of(*r) == Option::Some((kv.0, kv.1@)),
            Option::None => spec_pw_sink_of(*r) is None,
        }),
{
    let type_ok: bool = match r.get_str("type") {
        Some(t) => str_eq(t, "PipeWire:Interface:Node"),
        None => false,
    };
    if !type_ok {
        return None;
    }
    let id: i32 = match r.get("id") {
        Some(v) => match v.as_i64() {
            Some(i) => #[verifier::truncate] (i as i32),
            None => { return None },
        },
        None => { return None },
    };
    let props: &Json = match r.get("info") {
        Some(info) => match info.get("props") {
            Some(p) => p,
            None => { return None },
        },
        None => { return None },
    };
    let class_ok: bool = match props.get_str("media.class") {
        Some(t) => str_eq(t, "Audio/Sink"),
        None => false,
    };
    if !class_ok {
        return None;
    }
    let description: String = match props.get_str("node.description") {
        Some(t) => t.to_owned(),
        None => match props.get_str("node.nick") {
            Some(t) => t.to_owned(),
            None => "Unknown Sink".to_owned(),
        },
    };
    Some((id, description))
}

/// Lists the application name of every client record of one dump text,
/// keyed by record id. Text that is not well-formed fails whole; any other
/// shape, an array or not, yields its clients, possibly none.
pub fn parse_pw_clients(pw_dump: String) -> (r: Result<HashMap<i32, String>, DumpError>)
    ensures
        (match r {
            Result::Ok(m) => json_of(pw_dump@) matches Option::Some(j) && m.deep_view()
                == spec_clients_of(spec_records_of(j)),
            Result::Err(e) => json_of(pw_dump@) is None && e == DumpError::InvalidJson,
        }),
{
    let parsed: Json = match parse_json_text(pw_dump.as_str()) {
        Some(j) => j,
        None => { return Err(DumpError::InvalidJson) },
    };
    let mut m: HashMap<i32, String> = HashMap::new();
    proof {
        lemma_deepview_empty(m);
    }
    let records: &Vec<Json> = match parsed.as_array() {
        Some(a) => a,
        None => {
            proof {
                assert(spec_records_of(parsed) =~= Seq::<Json>::empty());
                assert(spec_records_of(parsed).take(0) =~= spec_records_of(parsed));
            }
            return Ok(m);
        },
    };
    let n = records.len();
    let mut i: usize = 0;
    proof {
        assert(records@.take(0) =~= Seq::<Json>::empty());
    }
    while i < n
        invariant
            i <= n,
            n == records@.len(),
            m.deep_view() == spec_clients_of(records@.take(i as int)),
        decreases n - i,
    {
        proof {
            assert(records@.take(i + 1).drop_last() =~= records@.take(i as int));
            assert(records@.take(i + 1).last() == records@[i as int]);
        }
        match client_of(&records[i]) {
            Some(kv) => {
                let ghost prem = m;
                let ghost vv = kv.1;
                m.insert(kv.0, kv.1);
                proof {
                    lemma_deepview_insert(prem, m, kv.0, vv);
                }
            },
            None => {},
        }
        i += 1;
    }
    proof {
        assert(records@.take(n as int) =~= records@);
    }
    Ok(m)
}

/// Lists the description of every audio-sink node record of one dump text,
/// keyed by record id, with the description fallback chain. Text that is
/// not well-formed fails whole.
pub fn parse_pw_sinks(pw_dump: String) -> (r: Result<HashMap<i32, String>, DumpError>)
    ensures
        (match r {
            Result::Ok(m) => json_of(pw_dump@) matches Option::Some(j) && m.deep_view()
                == spec_pw_sinks_of(spec_records_of(j)),
            Result::Err(e) => json_of(pw_dump@) is None && e == DumpError::InvalidJson,
        }),
{
    let parsed: Json = match parse_json_text(pw_dump.as_str()) {
        Some(j) => j,
        None => { return Err(DumpError::InvalidJson) },
    };
    let mut m: HashMap<i32, String> = HashMap::new();
    proof {
        lemma_deepview_empty(m);
    }
    let records: &Vec<Json> = match parsed.as_array() {
        Some(a) => a,
        None => {
            proof {
                assert(spec_records_of(parsed) =~= Seq::<Json>::empty());
                assert(spec_records_of(parsed).take(0) =~= spec_records_of(parsed));
            }
            return Ok(m);
        },
    };
    let n = records.len();
    let mut i: usize = 0;
    proof {
        assert(records@.take(0) =~= Seq::<Json>::empty());
    }
    while i < n
        invariant
            i <= n,
            n == records@.len(),
            m.deep_view() == spec_pw_sinks_of(records@.take(i as int)),
        decreases n - i,
    {
        proof {
            assert(records@.take(i + 1).drop_last() =~= records@.take(i as int));
            assert(records@.take(i + 1).last() == records@[i as int]);
        }
        match pw_sink_of(&records[i]) {
            Some(kv) => {
                let ghost prem = m;
                let ghost vv = kv.1;
                m.insert(kv.0, kv.1);
                proof {
                    lemma_deepview_insert(prem, m, kv.0, vv);
                }
            },
            None => {},
        }
        i += 1;
    }
    proof {
        assert(records@.take(n as int) =~= records@);
    }
    Ok(m)
}

} // verus!
