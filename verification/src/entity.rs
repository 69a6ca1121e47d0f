//! The `Entity` record of the schema: a placed structure and its many
//! prototype-specific members, with the same wire mapping discipline as the
//! rest of the model.

use vstd::prelude::*;
use crate::error::BpError;
use crate::json::{
    Json, JsonV, fields_jv, arr_jv, obj_get, lookup, push_field, get_req_str, get_req_num,
    get_req_u64, get_req_bool, get_req_arr, get_req_obj, lemma_obj_jv, lemma_arr_jv, clone_members,
    u64_dec, u64_to_dec, parse_u64, dec_val, is_digits,
};
use crate::enums::{SignalType, IoType, IoPriority, FilterMode, CircuitConnectorId};
use crate::schema::{
    NumToken, Position, Color, SignalId, Inventory, InfinitySettings, ItemFilter, LogisticFilter,
    SpeakerParameter, SpeakerAlertParameter, Connection, items_jv, items_wf, items_to_json, items_from_json,
    connmap_jv, connmap_wf, connmap_to_json, connmap_from_json, u64s_jv, u64s_pos, u64vec_to_json,
    u64vec_from_json, itemfilter_seq_jv, itemfilter_seq_wf, itemfilter_vec_to_json,
    itemfilter_vec_from_json,
};

verus! {

broadcast use crate::json::lemma_u64_dec_val, crate::version::lemma_unpack_pack, vstd::string::group_string_axioms;

/// Append the member `(key, value)` where a value is present; append nothing
/// where it is absent.
fn push_opt_field(fields: &mut Vec<(String, Json)>, key: &str, value: Option<Json>)
    ensures
        fields_jv(final(fields)@) == match value {
            Some(j) => fields_jv(old(fields)@).push((key@, j.jv())),
            None => fields_jv(old(fields)@),
        },
{
    match value {
        Some(j) => push_field(fields, key, j),
        None => (),
    }
}

/// The wire value of an optional integer member.
fn opt_u64_json(v: &Option<u64>) -> (r: Option<Json>)
    ensures
        match *v {
            Some(n) => (r matches Some(j) && j.jv() == JsonV::Num(u64_dec(n as nat))),
            None => r is None,
        },
{
    match v {
        Some(n) => Some(Json::Num(u64_to_dec(*n))),
        None => None,
    }
}

/// The wire value of an optional small-integer member.
fn opt_u8_json(v: &Option<u8>) -> (r: Option<Json>)
    ensures
        match *v {
            Some(n) => (r matches Some(j) && j.jv() == JsonV::Num(u64_dec(n as nat))),
            None => r is None,
        },
{
    match v {
        Some(n) => Some(Json::Num(u64_to_dec(*n as u64))),
        None => None,
    }
}

/// The wire value of an optional number-token member.
fn opt_numtok_json(v: &Option<NumToken>) -> (r: Option<Json>)
    ensures
        match *v {
            Some(t) => (r matches Some(j) && j.jv() == JsonV::Num(t@)),
            None => r is None,
        },
{
    match v {
        Some(t) => Some(Json::Num(t.clone())),
        None => None,
    }
}

/// The wire value of an optional string member.
fn opt_str_json(v: &Option<String>) -> (r: Option<Json>)
    ensures
        match *v {
            Some(t) => (r matches Some(j) && j.jv() == JsonV::Str(t@)),
            None => r is None,
        },
{
    match v {
        Some(t) => Some(Json::Str(t.clone())),
        None => None,
    }
}

/// The wire value of an optional splitter-priority member.
fn opt_io_priority_json(v: &Option<IoPriority>) -> (r: Option<Json>)
    ensures
        match *v {
            Some(p) => (r matches Some(j) && j.jv() == JsonV::Str(p.spec_wire())),
            None => r is None,
        },
{
    match v {
        Some(p) => Some(Json::Str(String::from_str(p.wire_name()))),
        None => None,
    }
}

/// The wire value of an optional logistics-request member.
fn opt_logistic_json(v: &Option<LogisticFilter>) -> (r: Option<Json>)
    ensures
        match *v {
            Some(p) => (r matches Some(j) && j.jv() == p.wire_jv()),
            None => r is None,
        },
{
    match v {
        Some(p) => Some(p.to_json()),
        None => None,
    }
}

/// The wire value of an optional item-filter-list member.
fn opt_itemfilter_vec_json(v: &Option<Vec<ItemFilter>>) -> (r: Option<Json>)
    ensures
        match *v {
            Some(p) => (r matches Some(j) && j.jv() == JsonV::Arr(itemfilter_seq_jv(p@))),
            None => r is None,
        },
{
    match v {
        Some(p) => Some(itemfilter_vec_to_json(p)),
        None => None,
    }
}

/// The wire value of an optional entity-number-list member.
fn opt_u64vec_json(v: &Option<Vec<u64>>) -> (r: Option<Json>)
    ensures
        match *v {
            Some(p) => (r matches Some(j) && j.jv() == JsonV::Arr(u64s_jv(p@))),
            None => r is None,
        },
{
    match v {
        Some(p) => Some(u64vec_to_json(p)),
        None => None,
    }
}

/// The wire value of an optional connector-map member.
fn opt_connmap_json(v: &Option<Vec<(u64, Connection)>>) -> (r: Option<Json>)
    ensures
        match *v {
            Some(p) => (r matches Some(j) && j.jv() == JsonV::Obj(connmap_jv(p@))),
            None => r is None,
        },
{
    match v {
        Some(p) => Some(connmap_to_json(p)),
        None => None,
    }
}

/// Read the optional integer member `key`.
fn get_opt_u64(fields: &Vec<(String, Json)>, key: &str) -> (r: Result<Option<u64>, BpError>)
    ensures
        r matches Ok(o) ==> match o {
            Some(n) => (obj_get(fields_jv(fields@), key@) matches Some(v) && v matches
                JsonV::Num(t) && is_digits(t) && t.len() >= 1 && dec_val(t) == n),
            None => obj_get(fields_jv(fields@), key@) is None,
        },
        ((obj_get(fields_jv(fields@), key@) matches Some(v) && v matches JsonV::Num(t)
            && is_digits(t) && t.len() >= 1 && dec_val(t) <= u64::MAX) || obj_get(
            fields_jv(fields@),
            key@,
        ) is None) ==> r is Ok,
        r matches Err(e) ==> e is SchemaError,
{
    match lookup(fields, key) {
        None => Ok(None),
        Some(jx) => match jx {
            Json::Num(t) => match parse_u64(t.as_str()) {
                Some(nv) => Ok(Some(nv)),
                None => Err(BpError::SchemaError(String::from_str("member is not an integer"))),
            },
            _ => Err(BpError::SchemaError(String::from_str("member is not a number"))),
        },
    }
}

/// Read the optional small-integer member `key`.
fn get_opt_u8(fields: &Vec<(String, Json)>, key: &str) -> (r: Result<Option<u8>, BpError>)
    ensures
        r matches Ok(o) ==> match o {
            Some(n) => (obj_get(fields_jv(fields@), key@) matches Some(v) && v matches
                JsonV::Num(t) && is_digits(t) && t.len() >= 1 && dec_val(t) == n),
            None => obj_get(fields_jv(fields@), key@) is None,
        },
        ((obj_get(fields_jv(fields@), key@) matches Some(v) && v matches JsonV::Num(t)
            && is_digits(t) && t.len() >= 1 && dec_val(t) <= 255) || obj_get(
            fields_jv(fields@),
            key@,
        ) is None) ==> r is Ok,
        r matches Err(e) ==> e is SchemaError,
{
    match get_opt_u64(fields, key) {
        Ok(None) => Ok(None),
        Ok(Some(n)) => {
            if n > 255 {
                Err(BpError::SchemaError(String::from_str("member out of range")))
            } else {
                Ok(Some(n as u8))
            }
        },
        Err(e) => Err(e),
    }
}

/// Read the optional number-token member `key`.
fn get_opt_numtok(fields: &Vec<(String, Json)>, key: &str) -> (r: Result<
    Option<NumToken>,
    BpError,
>)
    ensures
        r matches Ok(o) ==> match o {
            Some(t) => obj_get(fields_jv(fields@), key@) == Some(JsonV::Num(t@)),
            None => obj_get(fields_jv(fields@), key@) is None,
        },
        ((obj_get(fields_jv(fields@), key@) matches Some(v) && v is Num) || obj_get(
            fields_jv(fields@),
            key@,
        ) is None) ==> r is Ok,
        r matches Err(e) ==> e is SchemaError,
{
    match lookup(fields, key) {
        None => Ok(None),
        Some(jx) => match jx {
            Json::Num(t) => Ok(Some(t.clone())),
            _ => Err(BpError::SchemaError(String::from_str("member is not a number"))),
        },
    }
}

/// Read the optional string member `key`.
fn get_opt_str(fields: &Vec<(String, Json)>, key: &str) -> (r: Result<Option<String>, BpError>)
    ensures
        r matches Ok(o) ==> match o {
            Some(t) => obj_get(fields_jv(fields@), key@) == Some(JsonV::Str(t@)),
            None => obj_get(fields_jv(fields@), key@) is None,
        },
        ((obj_get(fields_jv(fields@), key@) matches Some(v) && v is Str) || obj_get(
            fields_jv(fields@),
            key@,
        ) is None) ==> r is Ok,
        r matches Err(e) ==> e is SchemaError,
{
    match lookup(fields, key) {
        None => Ok(None),
        Some(jx) => match jx {
            Json::Str(t) => Ok(Some(t.clone())),
            _ => Err(BpError::SchemaError(String::from_str("member is not a string"))),
        },
    }
}

/// Read the optional splitter-priority member `key`.
fn get_opt_io_priority(fields: &Vec<(String, Json)>, key: &str) -> (r: Result<
    Option<IoPriority>,
    BpError,
>)
    ensures
        r matches Ok(o) ==> match o {
            Some(w) => obj_get(fields_jv(fields@), key@) == Some(JsonV::Str(w.spec_wire())),
            None => obj_get(fields_jv(fields@), key@) is None,
        },
        ((obj_get(fields_jv(fields@), key@) matches Some(v) && v matches JsonV::Str(t) && (
        exists|w: IoPriority| t == (#[trigger] w.spec_wire()))) || obj_get(
            fields_jv(fields@),
            key@,
        ) is None) ==> r is Ok,
        r matches Err(e) ==> e is SchemaError,
{
    match lookup(fields, key) {
        None => Ok(None),
        Some(jx) => match jx {
            Json::Str(t) => match IoPriority::from_wire(t.as_str()) {
                Ok(w) => Ok(Some(w)),
                Err(e) => Err(e),
            },
            _ => Err(BpError::SchemaError(String::from_str("member is not a string"))),
        },
    }
}

/// Read the optional logistics-request member `key`.
fn get_opt_logistic(fields: &Vec<(String, Json)>, key: &str) -> (r: Result<
    Option<LogisticFilter>,
    BpError,
>)
    ensures
        obj_get(fields_jv(fields@), key@) is None ==> (r matches Ok(o) && o is None),
        forall|p: LogisticFilter|
            (obj_get(fields_jv(fields@), key@) == Some((#[trigger] p.wire_jv())) && p.wf()) ==> (
            r matches Ok(o) && o matches Some(p2) && p2.wire_jv() == p.wire_jv()),
        r matches Ok(o) ==> (o matches Some(p) ==> p.wf()),
        r matches Ok(o) ==> (o is None ==> obj_get(fields_jv(fields@), key@) is None),
        r matches Err(e) ==> e is SchemaError,
{
    match lookup(fields, key) {
        None => Ok(None),
        Some(jx) => match LogisticFilter::from_json(jx) {
            Ok(p) => Ok(Some(p)),
            Err(e) => Err(e),
        },
    }
}

/// Read the optional item-filter-list member `key`.
fn get_opt_itemfilter_vec(fields: &Vec<(String, Json)>, key: &str) -> (r: Result<
    Option<Vec<ItemFilter>>,
    BpError,
>)
    ensures
        obj_get(fields_jv(fields@), key@) is None ==> (r matches Ok(o) && o is None),
        forall|ds: Seq<ItemFilter>|
            (obj_get(fields_jv(fields@), key@) == Some(
                JsonV::Arr((#[trigger] itemfilter_seq_jv(ds))),
            ) && itemfilter_seq_wf(ds)) ==> (r matches Ok(o) && o matches Some(p2)
            && itemfilter_seq_jv(p2@) == itemfilter_seq_jv(ds)),
        r matches Ok(o) ==> (o matches Some(p) ==> itemfilter_seq_wf(p@)),
        r matches Ok(o) ==> (o is None ==> obj_get(fields_jv(fields@), key@) is None),
        r matches Err(e) ==> e is SchemaError,
{
    match lookup(fields, key) {
        None => Ok(None),
        Some(jx) => match jx {
            Json::Arr(av) => {
                proof {
                    lemma_arr_jv(*av);
                }
                match itemfilter_vec_from_json(av) {
                    Ok(p) => Ok(Some(p)),
                    Err(e) => Err(e),
                }
            },
            _ => Err(BpError::SchemaError(String::from_str("member is not an array"))),
        },
    }
}

/// Read the optional entity-number-list member `key`.
fn get_opt_u64vec(fields: &Vec<(String, Json)>, key: &str) -> (r: Result<
    Option<Vec<u64>>,
    BpError,
>)
    ensures
        obj_get(fields_jv(fields@), key@) is None ==> (r matches Ok(o) && o is None),
        forall|ds: Seq<u64>|
            (obj_get(fields_jv(fields@), key@) == Some(JsonV::Arr((#[trigger] u64s_jv(ds))))
                && u64s_pos(ds)) ==> (r matches Ok(o) && o matches Some(p2) && u64s_jv(p2@)
                == u64s_jv(ds)),
        r matches Ok(o) ==> (o matches Some(p) ==> u64s_pos(p@)),
        r matches Ok(o) ==> (o is None ==> obj_get(fields_jv(fields@), key@) is None),
        r matches Err(e) ==> e is SchemaError,
{
    match lookup(fields, key) {
        None => Ok(None),
        Some(jx) => match jx {
            Json::Arr(av) => {
                proof {
                    lemma_arr_jv(*av);
                }
                match u64vec_from_json(av) {
                    Ok(p) => Ok(Some(p)),
                    Err(e) => Err(e),
                }
            },
            _ => Err(BpError::SchemaError(String::from_str("member is not an array"))),
        },
    }
}

/// Read the optional connector-map member `key`.
fn get_opt_connmap(fields: &Vec<(String, Json)>, key: &str) -> (r: Result<
    Option<Vec<(u64, Connection)>>,
    BpError,
>)
    ensures
        obj_get(fields_jv(fields@), key@) is None ==> (r matches Ok(o) && o is None),
        forall|ds: Seq<(u64, Connection)>|
            (obj_get(fields_jv(fields@), key@) == Some(JsonV::Obj((#[trigger] connmap_jv(ds))))
                && connmap_wf(ds)) ==> (r matches Ok(o) && o matches Some(p2) && connmap_jv(p2@)
                == connmap_jv(ds)),
        r matches Ok(o) ==> (o matches Some(p) ==> connmap_wf(p@)),
        r matches Ok(o) ==> (o is None ==> obj_get(fields_jv(fields@), key@) is None),
        r matches Err(e) ==> e is SchemaError,
{
    match lookup(fields, key) {
        None => Ok(None),
        Some(jx) => match jx {
            Json::Obj(ov) => {
                proof {
                    lemma_obj_jv(*ov);
                }
                match connmap_from_json(ov) {
                    Ok(p) => Ok(Some(p)),
                    Err(e) => Err(e),
                }
            },
            _ => Err(BpError::SchemaError(String::from_str("member is not an object"))),
        },
    }
}


/// A placed structure, keyed by its positive entity number. Only the members relevant to an entity's prototype are meaningful; the optional ones are omitted from the wire form when absent.
#[derive(Debug, Clone)]
pub struct Entity {
    /// Identity of the placed structure: positive and unique within its blueprint.
    pub entity_number: u64,
    /// Prototype name of the entity.
    pub name: String,
    /// Position of the entity within the blueprint.
    pub position: Position,
    /// Direction the entity faces, where it has one.
    pub direction: Option<u64>,
    /// Orientation of a wagon or locomotive, as its wire token, where it has one.
    pub orientation: Option<NumToken>,
    /// Circuit connections, keyed by positive connector number, where wired.
    pub connections: Option<Vec<(u64, Connection)>>,
    /// Copper-wire references to other entity numbers; wire member `neighbours`.
    pub neighbors: Option<Vec<u64>>,
    /// Item requests placed with the entity.
    pub items: Vec<(String, u32)>,
    /// Name of the recipe prototype an assembling machine is set to.
    pub recipe: String,
    /// Index of the first inaccessible item slot due to limiting.
    pub bar: u16,
    /// Cargo wagon inventory configuration.
    pub inventory: Inventory,
    /// Infinity container settings.
    pub infinity_settings: InfinitySettings,
    /// Type of an underground belt or loader; wire member `type`.
    pub io_type: IoType,
    /// Input priority of a splitter, where set.
    pub input_priority: Option<IoPriority>,
    /// Output priority of a splitter, where set.
    pub output_priority: Option<IoPriority>,
    /// Item filter of a splitter, where set.
    pub filter: Option<String>,
    /// Filters of a filter inserter or loader, where set.
    pub filters: Option<Vec<ItemFilter>>,
    /// Filter mode of a filter inserter.
    pub filter_mode: FilterMode,
    /// Stack size an inserter is overridden to, where set.
    pub override_stack_size: Option<u8>,
    /// Drop position an inserter is set to.
    pub drop_position: Position,
    /// Pickup position an inserter is set to.
    pub pickup_position: Position,
    /// Logistics request of a logistic container, where set.
    pub request_filters: Option<LogisticFilter>,
    /// Whether a requester chest can request from buffer chests.
    pub request_from_buffers: bool,
    /// Programmable speaker parameters.
    pub parameters: SpeakerParameter,
    /// Programmable speaker alert parameters.
    pub alert_parameters: SpeakerAlertParameter,
    /// Whether a rocket silo launches automatically.
    pub auto_launch: bool,
    /// Graphics variation of a simple entity.
    pub variation: u8,
    /// Color of the entity or train station.
    pub color: Color,
    /// Name of the train station.
    pub station: String,
}

#[verifier::rlimit(100)]
proof fn lemma_entity_obj_get_a1(d: Entity, fs: Seq<(Seq<char>, JsonV)>)
    requires
        fs == d.wire_jv()->Obj_0,
        d.wf(),
    ensures
        obj_get(fs, "entity_number"@) == Some(JsonV::Num(u64_dec(d.entity_number as nat))),
        obj_get(fs, "name"@) == Some(JsonV::Str(d.name@)),
        obj_get(fs, "position"@) == Some(d.position.wire_jv()),
        (d.direction is Some ==> obj_get(fs, "direction"@) == Some(JsonV::Num(u64_dec(d.direction.unwrap() as nat)))),
{
    broadcast use crate::json::lemma_obj_get_push;
    reveal_strlit("entity_number");
    assert("entity_number"@.len() == 13 && "entity_number"@[0] == 'e');
    reveal_strlit("name");
    assert("name"@.len() == 4 && "name"@[0] == 'n');
    reveal_strlit("position");
    assert("position"@.len() == 8 && "position"@[0] == 'p');
    reveal_strlit("direction");
    assert("direction"@.len() == 9 && "direction"@[0] == 'd');
    reveal_strlit("orientation");
    assert("orientation"@.len() == 11 && "orientation"@[0] == 'o');
    reveal_strlit("connections");
    assert("connections"@.len() == 11 && "connections"@[0] == 'c');
    reveal_strlit("neighbours");
    assert("neighbours"@.len() == 10 && "neighbours"@[0] == 'n');
    reveal_strlit("items");
    assert("items"@.len() == 5 && "items"@[0] == 'i');
    reveal_strlit("recipe");
    assert("recipe"@.len() == 6 && "recipe"@[0] == 'r');
    reveal_strlit("bar");
    assert("bar"@.len() == 3 && "bar"@[0] == 'b');
    reveal_strlit("inventory");
    assert("inventory"@.len() == 9 && "inventory"@[0] == 'i');
    reveal_strlit("infinity_settings");
    assert("infinity_settings"@.len() == 17 && "infinity_settings"@[0] == 'i');
    reveal_strlit("type");
    assert("type"@.len() == 4 && "type"@[0] == 't');
    reveal_strlit("input_priority");
    assert("input_priority"@.len() == 14 && "input_priority"@[0] == 'i');
    reveal_strlit("output_priority");
    assert("output_priority"@.len() == 15 && "output_priority"@[0] == 'o');
    reveal_strlit("filter");
    assert("filter"@.len() == 6 && "filter"@[0] == 'f');
    reveal_strlit("filters");
    assert("filters"@.len() == 7 && "filters"@[0] == 'f');
    reveal_strlit("filter_mode");
    assert("filter_mode"@.len() == 11 && "filter_mode"@[0] == 'f');
    reveal_strlit("override_stack_size");
    assert("override_stack_size"@.len() == 19 && "override_stack_size"@[0] == 'o');
    reveal_strlit("drop_position");
    assert("drop_position"@.len() == 13 && "drop_position"@[0] == 'd');
    reveal_strlit("pickup_position");
    assert("pickup_position"@.len() == 15 && "pickup_position"@[0] == 'p');
    reveal_strlit("request_filters");
    assert("request_filters"@.len() == 15 && "request_filters"@[0] == 'r');
    reveal_strlit("request_from_buffers");
    assert("request_from_buffers"@.len() == 20 && "request_from_buffers"@[0] == 'r');
    reveal_strlit("parameters");
    assert("parameters"@.len() == 10 && "parameters"@[0] == 'p');
    reveal_strlit("alert_parameters");
    assert("alert_parameters"@.len() == 16 && "alert_parameters"@[0] == 'a');
    reveal_strlit("auto_launch");
    assert("auto_launch"@.len() == 11 && "auto_launch"@[0] == 'a');
    reveal_strlit("variation");
    assert("variation"@.len() == 9 && "variation"@[0] == 'v');
    reveal_strlit("color");
    assert("color"@.len() == 5 && "color"@[0] == 'c');
    reveal_strlit("station");
    assert("station"@.len() == 7 && "station"@[0] == 's');
}

#[verifier::rlimit(100)]
proof fn lemma_entity_obj_get_a1b(d: Entity, fs: Seq<(Seq<char>, JsonV)>)
    requires
        fs == d.wire_jv()->Obj_0,
        d.wf(),
    ensures
        (d.direction is None ==> obj_get(fs, "direction"@) is None),
        (d.orientation is Some ==> obj_get(fs, "orientation"@) == Some(JsonV::Num(d.orientation.unwrap()@))),
        (d.orientation is None ==> obj_get(fs, "orientation"@) is None),
{
    broadcast use crate::json::lemma_obj_get_push;
    reveal_strlit("entity_number");
    assert("entity_number"@.len() == 13 && "entity_number"@[0] == 'e');
    reveal_strlit("name");
    assert("name"@.len() == 4 && "name"@[0] == 'n');
    reveal_strlit("position");
    assert("position"@.len() == 8 && "position"@[0] == 'p');
    reveal_strlit("direction");
    assert("direction"@.len() == 9 && "direction"@[0] == 'd');
    reveal_strlit("orientation");
    assert("orientation"@.len() == 11 && "orientation"@[0] == 'o');
    reveal_strlit("connections");
    assert("connections"@.len() == 11 && "connections"@[0] == 'c');
    reveal_strlit("neighbours");
    assert("neighbours"@.len() == 10 && "neighbours"@[0] == 'n');
    reveal_strlit("items");
    assert("items"@.len() == 5 && "items"@[0] == 'i');
    reveal_strlit("recipe");
    assert("recipe"@.len() == 6 && "recipe"@[0] == 'r');
    reveal_strlit("bar");
    assert("bar"@.len() == 3 && "bar"@[0] == 'b');
    reveal_strlit("inventory");
    assert("inventory"@.len() == 9 && "inventory"@[0] == 'i');
    reveal_strlit("infinity_settings");
    assert("infinity_settings"@.len() == 17 && "infinity_settings"@[0] == 'i');
    reveal_strlit("type");
    assert("type"@.len() == 4 && "type"@[0] == 't');
    reveal_strlit("input_priority");
    assert("input_priority"@.len() == 14 && "input_priority"@[0] == 'i');
    reveal_strlit("output_priority");
    assert("output_priority"@.len() == 15 && "output_priority"@[0] == 'o');
    reveal_strlit("filter");
    assert("filter"@.len() == 6 && "filter"@[0] == 'f');
    reveal_strlit("filters");
    assert("filters"@.len() == 7 && "filters"@[0] == 'f');
    reveal_strlit("filter_mode");
    assert("filter_mode"@.len() == 11 && "filter_mode"@[0] == 'f');
    reveal_strlit("override_stack_size");
    assert("override_stack_size"@.len() == 19 && "override_stack_size"@[0] == 'o');
    reveal_strlit("drop_position");
    assert("drop_position"@.len() == 13 && "drop_position"@[0] == 'd');
    reveal_strlit("pickup_position");
    assert("pickup_position"@.len() == 15 && "pickup_position"@[0] == 'p');
    reveal_strlit("request_filters");
    assert("request_filters"@.len() == 15 && "request_filters"@[0] == 'r');
    reveal_strlit("request_from_buffers");
    assert("request_from_buffers"@.len() == 20 && "request_from_buffers"@[0] == 'r');
    reveal_strlit("parameters");
    assert("parameters"@.len() == 10 && "parameters"@[0] == 'p');
    reveal_strlit("alert_parameters");
    assert("alert_parameters"@.len() == 16 && "alert_parameters"@[0] == 'a');
    reveal_strlit("auto_launch");
    assert("auto_launch"@.len() == 11 && "auto_launch"@[0] == 'a');
    reveal_strlit("variation");
    assert("variation"@.len() == 9 && "variation"@[0] == 'v');
    reveal_strlit("color");
    assert("color"@.len() == 5 && "color"@[0] == 'c');
    reveal_strlit("station");
    assert("station"@.len() == 7 && "station"@[0] == 's');
}

#[verifier::rlimit(100)]
proof fn lemma_entity_obj_get_a2(d: Entity, fs: Seq<(Seq<char>, JsonV)>)
    requires
        fs == d.wire_jv()->Obj_0,
        d.wf(),
    ensures
        (d.connections is Some ==> obj_get(fs, "connections"@) == Some(JsonV::Obj(connmap_jv(d.connections.unwrap()@)))),
        (d.connections is None ==> obj_get(fs, "connections"@) is None),
        (d.neighbors is Some ==> obj_get(fs, "neighbours"@) == Some(JsonV::Arr(u64s_jv(d.neighbors.unwrap()@)))),
        (d.neighbors is None ==> obj_get(fs, "neighbours"@) is None),
        obj_get(fs, "items"@) == Some(JsonV::Obj(items_jv(d.items@))),
        obj_get(fs, "recipe"@) == Some(JsonV::Str(d.recipe@)),
{
    broadcast use crate::json::lemma_obj_get_push;
    reveal_strlit("entity_number");
    assert("entity_number"@.len() == 13 && "entity_number"@[0] == 'e');
    reveal_strlit("name");
    assert("name"@.len() == 4 && "name"@[0] == 'n');
    reveal_strlit("position");
    assert("position"@.len() == 8 && "position"@[0] == 'p');
    reveal_strlit("direction");
    assert("direction"@.len() == 9 && "direction"@[0] == 'd');
    reveal_strlit("orientation");
    assert("orientation"@.len() == 11 && "orientation"@[0] == 'o');
    reveal_strlit("connections");
    assert("connections"@.len() == 11 && "connections"@[0] == 'c');
    reveal_strlit("neighbours");
    assert("neighbours"@.len() == 10 && "neighbours"@[0] == 'n');
    reveal_strlit("items");
    assert("items"@.len() == 5 && "items"@[0] == 'i');
    reveal_strlit("recipe");
    assert("recipe"@.len() == 6 && "recipe"@[0] == 'r');
    reveal_strlit("bar");
    assert("bar"@.len() == 3 && "bar"@[0] == 'b');
    reveal_strlit("inventory");
    assert("inventory"@.len() == 9 && "inventory"@[0] == 'i');
    reveal_strlit("infinity_settings");
    assert("infinity_settings"@.len() == 17 && "infinity_settings"@[0] == 'i');
    reveal_strlit("type");
    assert("type"@.len() == 4 && "type"@[0] == 't');
    reveal_strlit("input_priority");
    assert("input_priority"@.len() == 14 && "input_priority"@[0] == 'i');
    reveal_strlit("output_priority");
    assert("output_priority"@.len() == 15 && "output_priority"@[0] == 'o');
    reveal_strlit("filter");
    assert("filter"@.len() == 6 && "filter"@[0] == 'f');
    reveal_strlit("filters");
    assert("filters"@.len() == 7 && "filters"@[0] == 'f');
    reveal_strlit("filter_mode");
    assert("filter_mode"@.len() == 11 && "filter_mode"@[0] == 'f');
    reveal_strlit("override_stack_size");
    assert("override_stack_size"@.len() == 19 && "override_stack_size"@[0] == 'o');
    reveal_strlit("drop_position");
    assert("drop_position"@.len() == 13 && "drop_position"@[0] == 'd');
    reveal_strlit("pickup_position");
    assert("pickup_position"@.len() == 15 && "pickup_position"@[0] == 'p');
    reveal_strlit("request_filters");
    assert("request_filters"@.len() == 15 && "request_filters"@[0] == 'r');
    reveal_strlit("request_from_buffers");
    assert("request_from_buffers"@.len() == 20 && "request_from_buffers"@[0] == 'r');
    reveal_strlit("parameters");
    assert("parameters"@.len() == 10 && "parameters"@[0] == 'p');
    reveal_strlit("alert_parameters");
    assert("alert_parameters"@.len() == 16 && "alert_parameters"@[0] == 'a');
    reveal_strlit("auto_launch");
    assert("auto_launch"@.len() == 11 && "auto_launch"@[0] == 'a');
    reveal_strlit("variation");
    assert("variation"@.len() == 9 && "variation"@[0] == 'v');
    reveal_strlit("color");
    assert("color"@.len() == 5 && "color"@[0] == 'c');
    reveal_strlit("station");
    assert("station"@.len() == 7 && "station"@[0] == 's');
}

#[verifier::rlimit(100)]
proof fn lemma_entity_obj_get_b(d: Entity, fs: Seq<(Seq<char>, JsonV)>)
    requires
        fs == d.wire_jv()->Obj_0,
        d.wf(),
    ensures
        obj_get(fs, "bar"@) == Some(JsonV::Num(u64_dec(d.bar as nat))),
        obj_get(fs, "inventory"@) == Some(d.inventory.wire_jv()),
        obj_get(fs, "infinity_settings"@) == Some(d.infinity_settings.wire_jv()),
        obj_get(fs, "type"@) == Some(JsonV::Str(d.io_type.spec_wire())),
        (d.input_priority is Some ==> obj_get(fs, "input_priority"@) == Some(JsonV::Str(d.input_priority.unwrap().spec_wire()))),
        (d.input_priority is None ==> obj_get(fs, "input_priority"@) is None),
        (d.output_priority is Some ==> obj_get(fs, "output_priority"@) == Some(JsonV::Str(d.output_priority.unwrap().spec_wire()))),
        (d.output_priority is None ==> obj_get(fs, "output_priority"@) is None),
        (d.filter is Some ==> obj_get(fs, "filter"@) == Some(JsonV::Str(d.filter.unwrap()@))),
        (d.filter is None ==> obj_get(fs, "filter"@) is None),
        (d.filters is Some ==> obj_get(fs, "filters"@) == Some(JsonV::Arr(itemfilter_seq_jv(d.filters.unwrap()@)))),
        (d.filters is None ==> obj_get(fs, "filters"@) is None),
        obj_get(fs, "filter_mode"@) == Some(JsonV::Str(d.filter_mode.spec_wire())),
{
    broadcast use crate::json::lemma_obj_get_push;
    reveal_strlit("entity_number");
    assert("entity_number"@.len() == 13 && "entity_number"@[0] == 'e');
    reveal_strlit("name");
    assert("name"@.len() == 4 && "name"@[0] == 'n');
    reveal_strlit("position");
    assert("position"@.len() == 8 && "position"@[0] == 'p');
    reveal_strlit("direction");
    assert("direction"@.len() == 9 && "direction"@[0] == 'd');
    reveal_strlit("orientation");
    assert("orientation"@.len() == 11 && "orientation"@[0] == 'o');
    reveal_strlit("connections");
    assert("connections"@.len() == 11 && "connections"@[0] == 'c');
    reveal_strlit("neighbours");
    assert("neighbours"@.len() == 10 && "neighbours"@[0] == 'n');
    reveal_strlit("items");
    assert("items"@.len() == 5 && "items"@[0] == 'i');
    reveal_strlit("recipe");
    assert("recipe"@.len() == 6 && "recipe"@[0] == 'r');
    reveal_strlit("bar");
    assert("bar"@.len() == 3 && "bar"@[0] == 'b');
    reveal_strlit("inventory");
    assert("inventory"@.len() == 9 && "inventory"@[0] == 'i');
    reveal_strlit("infinity_settings");
    assert("infinity_settings"@.len() == 17 && "infinity_settings"@[0] == 'i');
    reveal_strlit("type");
    assert("type"@.len() == 4 && "type"@[0] == 't');
    reveal_strlit("input_priority");
    assert("input_priority"@.len() == 14 && "input_priority"@[0] == 'i');
    reveal_strlit("output_priority");
    assert("output_priority"@.len() == 15 && "output_priority"@[0] == 'o');
    reveal_strlit("filter");
    assert("filter"@.len() == 6 && "filter"@[0] == 'f');
    reveal_strlit("filters");
    assert("filters"@.len() == 7 && "filters"@[0] == 'f');
    reveal_strlit("filter_mode");
    assert("filter_mode"@.len() == 11 && "filter_mode"@[0] == 'f');
    reveal_strlit("override_stack_size");
    assert("override_stack_size"@.len() == 19 && "override_stack_size"@[0] == 'o');
    reveal_strlit("drop_position");
    assert("drop_position"@.len() == 13 && "drop_position"@[0] == 'd');
    reveal_strlit("pickup_position");
    assert("pickup_position"@.len() == 15 && "pickup_position"@[0] == 'p');
    reveal_strlit("request_filters");
    assert("request_filters"@.len() == 15 && "request_filters"@[0] == 'r');
    reveal_strlit("request_from_buffers");
    assert("request_from_buffers"@.len() == 20 && "request_from_buffers"@[0] == 'r');
    reveal_strlit("parameters");
    assert("parameters"@.len() == 10 && "parameters"@[0] == 'p');
    reveal_strlit("alert_parameters");
    assert("alert_parameters"@.len() == 16 && "alert_parameters"@[0] == 'a');
    reveal_strlit("auto_launch");
    assert("auto_launch"@.len() == 11 && "auto_launch"@[0] == 'a');
    reveal_strlit("variation");
    assert("variation"@.len() == 9 && "variation"@[0] == 'v');
    reveal_strlit("color");
    assert("color"@.len() == 5 && "color"@[0] == 'c');
    reveal_strlit("station");
    assert("station"@.len() == 7 && "station"@[0] == 's');
}

#[verifier::rlimit(100)]
proof fn lemma_entity_obj_get_c(d: Entity, fs: Seq<(Seq<char>, JsonV)>)
    requires
        fs == d.wire_jv()->Obj_0,
        d.wf(),
    ensures
        (d.override_stack_size is Some ==> obj_get(fs, "override_stack_size"@) == Some(JsonV::Num(u64_dec(d.override_stack_size.unwrap() as nat)))),
        (d.override_stack_size is None ==> obj_get(fs, "override_stack_size"@) is None),
        obj_get(fs, "drop_position"@) == Some(d.drop_position.wire_jv()),
        obj_get(fs, "pickup_position"@) == Some(d.pickup_position.wire_jv()),
        (d.request_filters is Some ==> obj_get(fs, "request_filters"@) == Some(d.request_filters.unwrap().wire_jv())),
        (d.request_filters is None ==> obj_get(fs, "request_filters"@) is None),
        obj_get(fs, "request_from_buffers"@) == Some(JsonV::Bool(d.request_from_buffers)),
        obj_get(fs, "parameters"@) == Some(d.parameters.wire_jv()),
        obj_get(fs, "alert_parameters"@) == Some(d.alert_parameters.wire_jv()),
        obj_get(fs, "auto_launch"@) == Some(JsonV::Bool(d.auto_launch)),
        obj_get(fs, "variation"@) == Some(JsonV::Num(u64_dec(d.variation as nat))),
        obj_get(fs, "color"@) == Some(d.color.wire_jv()),
        obj_get(fs, "station"@) == Some(JsonV::Str(d.station@)),
{
    broadcast use crate::json::lemma_obj_get_push;
    reveal_strlit("entity_number");
    assert("entity_number"@.len() == 13 && "entity_number"@[0] == 'e');
    reveal_strlit("name");
    assert("name"@.len() == 4 && "name"@[0] == 'n');
    reveal_strlit("position");
    assert("position"@.len() == 8 && "position"@[0] == 'p');
    reveal_strlit("direction");
    assert("direction"@.len() == 9 && "direction"@[0] == 'd');
    reveal_strlit("orientation");
    assert("orientation"@.len() == 11 && "orientation"@[0] == 'o');
    reveal_strlit("connections");
    assert("connections"@.len() == 11 && "connections"@[0] == 'c');
    reveal_strlit("neighbours");
    assert("neighbours"@.len() == 10 && "neighbours"@[0] == 'n');
    reveal_strlit("items");
    assert("items"@.len() == 5 && "items"@[0] == 'i');
    reveal_strlit("recipe");
    assert("recipe"@.len() == 6 && "recipe"@[0] == 'r');
    reveal_strlit("bar");
    assert("bar"@.len() == 3 && "bar"@[0] == 'b');
    reveal_strlit("inventory");
    assert("inventory"@.len() == 9 && "inventory"@[0] == 'i');
    reveal_strlit("infinity_settings");
    assert("infinity_settings"@.len() == 17 && "infinity_settings"@[0] == 'i');
    reveal_strlit("type");
    assert("type"@.len() == 4 && "type"@[0] == 't');
    reveal_strlit("input_priority");
    assert("input_priority"@.len() == 14 && "input_priority"@[0] == 'i');
    reveal_strlit("output_priority");
    assert("output_priority"@.len() == 15 && "output_priority"@[0] == 'o');
    reveal_strlit("filter");
    assert("filter"@.len() == 6 && "filter"@[0] == 'f');
    reveal_strlit("filters");
    assert("filters"@.len() == 7 && "filters"@[0] == 'f');
    reveal_strlit("filter_mode");
    assert("filter_mode"@.len() == 11 && "filter_mode"@[0] == 'f');
    reveal_strlit("override_stack_size");
    assert("override_stack_size"@.len() == 19 && "override_stack_size"@[0] == 'o');
    reveal_strlit("drop_position");
    assert("drop_position"@.len() == 13 && "drop_position"@[0] == 'd');
    reveal_strlit("pickup_position");
    assert("pickup_position"@.len() == 15 && "pickup_position"@[0] == 'p');
    reveal_strlit("request_filters");
    assert("request_filters"@.len() == 15 && "request_filters"@[0] == 'r');
    reveal_strlit("request_from_buffers");
    assert("request_from_buffers"@.len() == 20 && "request_from_buffers"@[0] == 'r');
    reveal_strlit("parameters");
    assert("parameters"@.len() == 10 && "parameters"@[0] == 'p');
    reveal_strlit("alert_parameters");
    assert("alert_parameters"@.len() == 16 && "alert_parameters"@[0] == 'a');
    reveal_strlit("auto_launch");
    assert("auto_launch"@.len() == 11 && "auto_launch"@[0] == 'a');
    reveal_strlit("variation");
    assert("variation"@.len() == 9 && "variation"@[0] == 'v');
    reveal_strlit("color");
    assert("color"@.len() == 5 && "color"@[0] == 'c');
    reveal_strlit("station");
    assert("station"@.len() == 7 && "station"@[0] == 's');
}

impl Entity {
    /// Structural well-formedness: entity-number references are positive
    /// and nested values are themselves well-formed.
    pub open spec fn wf(self) -> bool {
        self.entity_number >= 1
            && items_wf(self.items@)
            && self.position.wf()
            && (self.connections matches Some(x) ==> connmap_wf(x@))
            && (self.neighbors matches Some(x) ==> u64s_pos(x@))
            && self.inventory.wf()
            && self.infinity_settings.wf()
            && (self.filters matches Some(x) ==> itemfilter_seq_wf(x@))
            && self.drop_position.wf()
            && self.pickup_position.wf()
            && (self.request_filters matches Some(x) ==> x.wf())
            && self.parameters.wf()
            && self.alert_parameters.wf()
            && self.color.wf()
    }

    /// The wire shape of this value.
    pub open spec fn wire_jv(self) -> JsonV {
        let f = Seq::empty();
        let f = f.push(("entity_number"@, JsonV::Num(u64_dec(self.entity_number as nat))));
        let f = f.push(("name"@, JsonV::Str(self.name@)));
        let f = f.push(("position"@, self.position.wire_jv()));
        let f = if self.direction is Some {
            f.push(("direction"@, JsonV::Num(u64_dec(self.direction.unwrap() as nat))))
        } else {
            f
        };
        let f = if self.orientation is Some {
            f.push(("orientation"@, JsonV::Num(self.orientation.unwrap()@)))
        } else {
            f
        };
        let f = if self.connections is Some {
            f.push(("connections"@, JsonV::Obj(connmap_jv(self.connections.unwrap()@))))
        } else {
            f
        };
        let f = if self.neighbors is Some {
            f.push(("neighbours"@, JsonV::Arr(u64s_jv(self.neighbors.unwrap()@))))
        } else {
            f
        };
        let f = f.push(("items"@, JsonV::Obj(items_jv(self.items@))));
        let f = f.push(("recipe"@, JsonV::Str(self.recipe@)));
        let f = f.push(("bar"@, JsonV::Num(u64_dec(self.bar as nat))));
        let f = f.push(("inventory"@, self.inventory.wire_jv()));
        let f = f.push(("infinity_settings"@, self.infinity_settings.wire_jv()));
        let f = f.push(("type"@, JsonV::Str(self.io_type.spec_wire())));
        let f = if self.input_priority is Some {
            f.push(("input_priority"@, JsonV::Str(self.input_priority.unwrap().spec_wire())))
        } else {
            f
        };
        let f = if self.output_priority is Some {
            f.push(("output_priority"@, JsonV::Str(self.output_priority.unwrap().spec_wire())))
        } else {
            f
        };
        let f = if self.filter is Some {
            f.push(("filter"@, JsonV::Str(self.filter.unwrap()@)))
        } else {
            f
        };
        let f = if self.filters is Some {
            f.push(("filters"@, JsonV::Arr(itemfilter_seq_jv(self.filters.unwrap()@))))
        } else {
            f
        };
        let f = f.push(("filter_mode"@, JsonV::Str(self.filter_mode.spec_wire())));
        let f = if self.override_stack_size is Some {
            f.push(("override_stack_size"@, JsonV::Num(u64_dec(self.override_stack_size.unwrap() as nat))))
        } else {
            f
        };
        let f = f.push(("drop_position"@, self.drop_position.wire_jv()));
        let f = f.push(("pickup_position"@, self.pickup_position.wire_jv()));
        let f = if self.request_filters is Some {
            f.push(("request_filters"@, self.request_filters.unwrap().wire_jv()))
        } else {
            f
        };
        let f = f.push(("request_from_buffers"@, JsonV::Bool(self.request_from_buffers)));
        let f = f.push(("parameters"@, self.parameters.wire_jv()));
        let f = f.push(("alert_parameters"@, self.alert_parameters.wire_jv()));
        let f = f.push(("auto_launch"@, JsonV::Bool(self.auto_launch)));
        let f = f.push(("variation"@, JsonV::Num(u64_dec(self.variation as nat))));
        let f = f.push(("color"@, self.color.wire_jv()));
        let f = f.push(("station"@, JsonV::Str(self.station@)));
        JsonV::Obj(f)
    }

    /// Render to the wire shape.
    #[verifier::rlimit(100)]
    #[verifier::spinoff_prover]
    pub fn to_json(&self) -> (r: Json)
        ensures
            r.jv() == self.wire_jv(),
    {
        let mut fields: Vec<(String, Json)> = Vec::new();
        let ghost g_base: Seq<(Seq<char>, JsonV)> = Seq::empty();
        push_field(&mut fields, "entity_number", Json::Num(u64_to_dec(self.entity_number)));
        let ghost g0: Seq<(Seq<char>, JsonV)> = g_base.push(("entity_number"@, JsonV::Num(u64_dec(self.entity_number as nat))));
        proof {
            assert(fields_jv(fields@) == g0);
        }
        push_field(&mut fields, "name", Json::Str(self.name.clone()));
        let ghost g1: Seq<(Seq<char>, JsonV)> = g0.push(("name"@, JsonV::Str(self.name@)));
        proof {
            assert(fields_jv(fields@) == g1);
        }
        push_field(&mut fields, "position", self.position.to_json());
        let ghost g2: Seq<(Seq<char>, JsonV)> = g1.push(("position"@, self.position.wire_jv()));
        proof {
            assert(fields_jv(fields@) == g2);
        }
        push_opt_field(&mut fields, "direction", opt_u64_json(&self.direction));
        let ghost g3: Seq<(Seq<char>, JsonV)> = if self.direction is Some {
            g2.push(("direction"@, JsonV::Num(u64_dec(self.direction.unwrap() as nat))))
        } else {
            g2
        };
        proof {
            assert(fields_jv(fields@) == g3);
        }
        push_opt_field(&mut fields, "orientation", opt_numtok_json(&self.orientation));
        let ghost g4: Seq<(Seq<char>, JsonV)> = if self.orientation is Some {
            g3.push(("orientation"@, JsonV::Num(self.orientation.unwrap()@)))
        } else {
            g3
        };
        proof {
            assert(fields_jv(fields@) == g4);
        }
        push_opt_field(&mut fields, "connections", opt_connmap_json(&self.connections));
        let ghost g5: Seq<(Seq<char>, JsonV)> = if self.connections is Some {
            g4.push(("connections"@, JsonV::Obj(connmap_jv(self.connections.unwrap()@))))
        } else {
            g4
        };
        proof {
            assert(fields_jv(fields@) == g5);
        }
        push_opt_field(&mut fields, "neighbours", opt_u64vec_json(&self.neighbors));
        let ghost g6: Seq<(Seq<char>, JsonV)> = if self.neighbors is Some {
            g5.push(("neighbours"@, JsonV::Arr(u64s_jv(self.neighbors.unwrap()@))))
        } else {
            g5
        };
        proof {
            assert(fields_jv(fields@) == g6);
        }
        push_field(&mut fields, "items", items_to_json(&self.items));
        let ghost g7: Seq<(Seq<char>, JsonV)> = g6.push(("items"@, JsonV::Obj(items_jv(self.items@))));
        proof {
            assert(fields_jv(fields@) == g7);
        }
        push_field(&mut fields, "recipe", Json::Str(self.recipe.clone()));
        let ghost g8: Seq<(Seq<char>, JsonV)> = g7.push(("recipe"@, JsonV::Str(self.recipe@)));
        proof {
            assert(fields_jv(fields@) == g8);
        }
        push_field(&mut fields, "bar", Json::Num(u64_to_dec(self.bar as u64)));
        let ghost g9: Seq<(Seq<char>, JsonV)> = g8.push(("bar"@, JsonV::Num(u64_dec(self.bar as nat))));
        proof {
            assert(fields_jv(fields@) == g9);
        }
        push_field(&mut fields, "inventory", self.inventory.to_json());
        let ghost g10: Seq<(Seq<char>, JsonV)> = g9.push(("inventory"@, self.inventory.wire_jv()));
        proof {
            assert(fields_jv(fields@) == g10);
        }
        push_field(&mut fields, "infinity_settings", self.infinity_settings.to_json());
        let ghost g11: Seq<(Seq<char>, JsonV)> = g10.push(("infinity_settings"@, self.infinity_settings.wire_jv()));
        proof {
            assert(fields_jv(fields@) == g11);
        }
        push_field(&mut fields, "type", Json::Str(String::from_str(self.io_type.wire_name())));
        let ghost g12: Seq<(Seq<char>, JsonV)> = g11.push(("type"@, JsonV::Str(self.io_type.spec_wire())));
        proof {
            assert(fields_jv(fields@) == g12);
        }
        push_opt_field(&mut fields, "input_priority", opt_io_priority_json(&self.input_priority));
        let ghost g13: Seq<(Seq<char>, JsonV)> = if self.input_priority is Some {
            g12.push(("input_priority"@, JsonV::Str(self.input_priority.unwrap().spec_wire())))
        } else {
            g12
        };
        proof {
            assert(fields_jv(fields@) == g13);
        }
        push_opt_field(&mut fields, "output_priority", opt_io_priority_json(&self.output_priority));
        let ghost g14: Seq<(Seq<char>, JsonV)> = if self.output_priority is Some {
            g13.push(("output_priority"@, JsonV::Str(self.output_priority.unwrap().spec_wire())))
        } else {
            g13
        };
        proof {
            assert(fields_jv(fields@) == g14);
        }
        push_opt_field(&mut fields, "filter", opt_str_json(&self.filter));
        let ghost g15: Seq<(Seq<char>, JsonV)> = if self.filter is Some {
            g14.push(("filter"@, JsonV::Str(self.filter.unwrap()@)))
        } else {
            g14
        };
        proof {
            assert(fields_jv(fields@) == g15);
        }
        push_opt_field(&mut fields, "filters", opt_itemfilter_vec_json(&self.filters));
        let ghost g16: Seq<(Seq<char>, JsonV)> = if self.filters is Some {
            g15.push(("filters"@, JsonV::Arr(itemfilter_seq_jv(self.filters.unwrap()@))))
        } else {
            g15
        };
        proof {
            assert(fields_jv(fields@) == g16);
        }
        push_field(&mut fields, "filter_mode", Json::Str(String::from_str(self.filter_mode.wire_name())));
        let ghost g17: Seq<(Seq<char>, JsonV)> = g16.push(("filter_mode"@, JsonV::Str(self.filter_mode.spec_wire())));
        proof {
            assert(fields_jv(fields@) == g17);
        }
        push_opt_field(&mut fields, "override_stack_size", opt_u8_json(&self.override_stack_size));
        let ghost g18: Seq<(Seq<char>, JsonV)> = if self.override_stack_size is Some {
            g17.push(("override_stack_size"@, JsonV::Num(u64_dec(self.override_stack_size.unwrap() as nat))))
        } else {
            g17
        };
        proof {
            assert(fields_jv(fields@) == g18);
        }
        push_field(&mut fields, "drop_position", self.drop_position.to_json());
        let ghost g19: Seq<(Seq<char>, JsonV)> = g18.push(("drop_position"@, self.drop_position.wire_jv()));
        proof {
            assert(fields_jv(fields@) == g19);
        }
        push_field(&mut fields, "pickup_position", self.pickup_position.to_json());
        let ghost g20: Seq<(Seq<char>, JsonV)> = g19.push(("pickup_position"@, self.pickup_position.wire_jv()));
        proof {
            assert(fields_jv(fields@) == g20);
        }
        push_opt_field(&mut fields, "request_filters", opt_logistic_json(&self.request_filters));
        let ghost g21: Seq<(Seq<char>, JsonV)> = if self.request_filters is Some {
            g20.push(("request_filters"@, self.request_filters.unwrap().wire_jv()))
        } else {
            g20
        };
        proof {
            assert(fields_jv(fields@) == g21);
        }
        push_field(&mut fields, "request_from_buffers", Json::Bool(self.request_from_buffers));
        let ghost g22: Seq<(Seq<char>, JsonV)> = g21.push(("request_from_buffers"@, JsonV::Bool(self.request_from_buffers)));
        proof {
            assert(fields_jv(fields@) == g22);
        }
        push_field(&mut fields, "parameters", self.parameters.to_json());
        let ghost g23: Seq<(Seq<char>, JsonV)> = g22.push(("parameters"@, self.parameters.wire_jv()));
        proof {
            assert(fields_jv(fields@) == g23);
        }
        push_field(&mut fields, "alert_parameters", self.alert_parameters.to_json());
        let ghost g24: Seq<(Seq<char>, JsonV)> = g23.push(("alert_parameters"@, self.alert_parameters.wire_jv()));
        proof {
            assert(fields_jv(fields@) == g24);
        }
        push_field(&mut fields, "auto_launch", Json::Bool(self.auto_launch));
        let ghost g25: Seq<(Seq<char>, JsonV)> = g24.push(("auto_launch"@, JsonV::Bool(self.auto_launch)));
        proof {
            assert(fields_jv(fields@) == g25);
        }
        push_field(&mut fields, "variation", Json::Num(u64_to_dec(self.variation as u64)));
        let ghost g26: Seq<(Seq<char>, JsonV)> = g25.push(("variation"@, JsonV::Num(u64_dec(self.variation as nat))));
        proof {
            assert(fields_jv(fields@) == g26);
        }
        push_field(&mut fields, "color", self.color.to_json());
        let ghost g27: Seq<(Seq<char>, JsonV)> = g26.push(("color"@, self.color.wire_jv()));
        proof {
            assert(fields_jv(fields@) == g27);
        }
        push_field(&mut fields, "station", Json::Str(self.station.clone()));
        let ghost g28: Seq<(Seq<char>, JsonV)> = g27.push(("station"@, JsonV::Str(self.station@)));
        proof {
            assert(fields_jv(fields@) == g28);
        }
        proof {
            lemma_obj_jv(fields);
            assert(fields_jv(fields@) =~= self.wire_jv()->Obj_0);
        }
        Json::Obj(fields)
    }

    /// Parse from the wire shape. The contract carries the mapping round
    /// trip: the rendered shape of any well-formed value parses back to a
    /// value with the same shape.
    #[verifier::rlimit(100)]
    #[verifier::spinoff_prover]
    pub fn from_json(j: &Json) -> (r: Result<Entity, BpError>)
        ensures
            forall|d: Entity|
                ((#[trigger] d.wire_jv()) == j.jv() && d.wf()) ==> (r matches Ok(d2)
                    && d2.wire_jv() == j.jv()),
            r matches Ok(d2) ==> d2.wf(),
            r matches Err(e) ==> e is SchemaError,
    {
        match j {
            Json::Obj(fields) => {
                proof {
                    lemma_obj_jv(*fields);
                }
                proof {
                    assert forall|d: Entity| ((#[trigger] d.wire_jv()) == j.jv() && d.wf()) implies ({
                        &&& obj_get(fields_jv(fields@), "entity_number"@) == Some(JsonV::Num(u64_dec(d.entity_number as nat)))
                        &&& obj_get(fields_jv(fields@), "name"@) == Some(JsonV::Str(d.name@))
                        &&& obj_get(fields_jv(fields@), "position"@) == Some(d.position.wire_jv())
                        &&& (d.direction is Some ==> obj_get(fields_jv(fields@), "direction"@) == Some(JsonV::Num(u64_dec(d.direction.unwrap() as nat))))
                        &&& (d.direction is None ==> obj_get(fields_jv(fields@), "direction"@) is None)
                        &&& (d.orientation is Some ==> obj_get(fields_jv(fields@), "orientation"@) == Some(JsonV::Num(d.orientation.unwrap()@)))
                        &&& (d.orientation is None ==> obj_get(fields_jv(fields@), "orientation"@) is None)
                        &&& (d.connections is Some ==> obj_get(fields_jv(fields@), "connections"@) == Some(JsonV::Obj(connmap_jv(d.connections.unwrap()@))))
                        &&& (d.connections is None ==> obj_get(fields_jv(fields@), "connections"@) is None)
                        &&& (d.neighbors is Some ==> obj_get(fields_jv(fields@), "neighbours"@) == Some(JsonV::Arr(u64s_jv(d.neighbors.unwrap()@))))
                        &&& (d.neighbors is None ==> obj_get(fields_jv(fields@), "neighbours"@) is None)
                        &&& obj_get(fields_jv(fields@), "items"@) == Some(JsonV::Obj(items_jv(d.items@)))
                        &&& obj_get(fields_jv(fields@), "recipe"@) == Some(JsonV::Str(d.recipe@))
                    }) by {
                        assert(fields_jv(fields@) == d.wire_jv()->Obj_0);
                        lemma_entity_obj_get_a1(d, fields_jv(fields@));
                        lemma_entity_obj_get_a1b(d, fields_jv(fields@));
                        lemma_entity_obj_get_a2(d, fields_jv(fields@));
                    }
                }
                proof {
                    assert forall|d: Entity| ((#[trigger] d.wire_jv()) == j.jv() && d.wf()) implies ({
                        &&& obj_get(fields_jv(fields@), "bar"@) == Some(JsonV::Num(u64_dec(d.bar as nat)))
                        &&& obj_get(fields_jv(fields@), "inventory"@) == Some(d.inventory.wire_jv())
                        &&& obj_get(fields_jv(fields@), "infinity_settings"@) == Some(d.infinity_settings.wire_jv())
                        &&& obj_get(fields_jv(fields@), "type"@) == Some(JsonV::Str(d.io_type.spec_wire()))
                        &&& (d.input_priority is Some ==> obj_get(fields_jv(fields@), "input_priority"@) == Some(JsonV::Str(d.input_priority.unwrap().spec_wire())))
                        &&& (d.input_priority is None ==> obj_get(fields_jv(fields@), "input_priority"@) is None)
                        &&& (d.output_priority is Some ==> obj_get(fields_jv(fields@), "output_priority"@) == Some(JsonV::Str(d.output_priority.unwrap().spec_wire())))
                        &&& (d.output_priority is None ==> obj_get(fields_jv(fields@), "output_priority"@) is None)
                        &&& (d.filter is Some ==> obj_get(fields_jv(fields@), "filter"@) == Some(JsonV::Str(d.filter.unwrap()@)))
                        &&& (d.filter is None ==> obj_get(fields_jv(fields@), "filter"@) is None)
                        &&& (d.filters is Some ==> obj_get(fields_jv(fields@), "filters"@) == Some(JsonV::Arr(itemfilter_seq_jv(d.filters.unwrap()@))))
                        &&& (d.filters is None ==> obj_get(fields_jv(fields@), "filters"@) is None)
                        &&& obj_get(fields_jv(fields@), "filter_mode"@) == Some(JsonV::Str(d.filter_mode.spec_wire()))
                    }) by {
                        assert(fields_jv(fields@) == d.wire_jv()->Obj_0);
                        lemma_entity_obj_get_b(d, fields_jv(fields@));
                    }
                }
                proof {
                    assert forall|d: Entity| ((#[trigger] d.wire_jv()) == j.jv() && d.wf()) implies ({
                        &&& (d.override_stack_size is Some ==> obj_get(fields_jv(fields@), "override_stack_size"@) == Some(JsonV::Num(u64_dec(d.override_stack_size.unwrap() as nat))))
                        &&& (d.override_stack_size is None ==> obj_get(fields_jv(fields@), "override_stack_size"@) is None)
                        &&& obj_get(fields_jv(fields@), "drop_position"@) == Some(d.drop_position.wire_jv())
                        &&& obj_get(fields_jv(fields@), "pickup_position"@) == Some(d.pickup_position.wire_jv())
                        &&& (d.request_filters is Some ==> obj_get(fields_jv(fields@), "request_filters"@) == Some(d.request_filters.unwrap().wire_jv()))
                        &&& (d.request_filters is None ==> obj_get(fields_jv(fields@), "request_filters"@) is None)
                        &&& obj_get(fields_jv(fields@), "request_from_buffers"@) == Some(JsonV::Bool(d.request_from_buffers))
                        &&& obj_get(fields_jv(fields@), "parameters"@) == Some(d.parameters.wire_jv())
                        &&& obj_get(fields_jv(fields@), "alert_parameters"@) == Some(d.alert_parameters.wire_jv())
                        &&& obj_get(fields_jv(fields@), "auto_launch"@) == Some(JsonV::Bool(d.auto_launch))
                        &&& obj_get(fields_jv(fields@), "variation"@) == Some(JsonV::Num(u64_dec(d.variation as nat)))
                        &&& obj_get(fields_jv(fields@), "color"@) == Some(d.color.wire_jv())
                        &&& obj_get(fields_jv(fields@), "station"@) == Some(JsonV::Str(d.station@))
                    }) by {
                        assert(fields_jv(fields@) == d.wire_jv()->Obj_0);
                        lemma_entity_obj_get_c(d, fields_jv(fields@));
                    }
                }
                let v_entity_number = match get_req_u64(fields, "entity_number") {
                    Ok(v) => v,
                    Err(e) => {
                        return Err(e);
                    },
                };
                if v_entity_number == 0 {
                    return Err(BpError::SchemaError(String::from_str("member must be positive: entity_number")));
                }
                let v_name = match get_req_str(fields, "name") {
                    Ok(v) => v,
                    Err(e) => {
                        return Err(e);
                    },
                };
                let v_position = match lookup(fields, "position") {
                    Some(jx) => match Position::from_json(jx) {
                        Ok(v) => v,
                        Err(e) => {
                            return Err(e);
                        },
                    },
                    None => {
                    return Err(BpError::SchemaError(String::from_str("missing member: position")));
                },
                };
                let v_direction = match get_opt_u64(fields, "direction") {
                    Ok(v) => v,
                    Err(e) => {
                        return Err(e);
                    },
                };
                let v_orientation = match get_opt_numtok(fields, "orientation") {
                    Ok(v) => v,
                    Err(e) => {
                        return Err(e);
                    },
                };
                let v_connections = match get_opt_connmap(fields, "connections") {
                    Ok(v) => v,
                    Err(e) => {
                        return Err(e);
                    },
                };
                let v_neighbors = match get_opt_u64vec(fields, "neighbours") {
                    Ok(v) => v,
                    Err(e) => {
                        return Err(e);
                    },
                };
                let o_items = match get_req_obj(fields, "items") {
                    Ok(v) => v,
                    Err(e) => {
                        return Err(e);
                    },
                };
                let v_items = match items_from_json(o_items) {
                    Ok(v) => v,
                    Err(e) => {
                        return Err(e);
                    },
                };
                let v_recipe = match get_req_str(fields, "recipe") {
                    Ok(v) => v,
                    Err(e) => {
                        return Err(e);
                    },
                };
                let r_bar = match get_req_u64(fields, "bar") {
                    Ok(v) => v,
                    Err(e) => {
                        return Err(e);
                    },
                };
                if r_bar > 65535 {
                    return Err(BpError::SchemaError(String::from_str("member out of range: bar")));
                }
                let v_bar: u16 = r_bar as u16;
                let v_inventory = match lookup(fields, "inventory") {
                    Some(jx) => match Inventory::from_json(jx) {
                        Ok(v) => v,
                        Err(e) => {
                            return Err(e);
                        },
                    },
                    None => {
                    return Err(BpError::SchemaError(String::from_str("missing member: inventory")));
                },
                };
                let v_infinity_settings = match lookup(fields, "infinity_settings") {
                    Some(jx) => match InfinitySettings::from_json(jx) {
                        Ok(v) => v,
                        Err(e) => {
                            return Err(e);
                        },
                    },
                    None => {
                    return Err(BpError::SchemaError(String::from_str("missing member: infinity_settings")));
                },
                };
                let s_io_type = match get_req_str(fields, "type") {
                    Ok(v) => v,
                    Err(e) => {
                        return Err(e);
                    },
                };
                let v_io_type = match IoType::from_wire(s_io_type.as_str()) {
                    Ok(v) => v,
                    Err(e) => {
                        return Err(e);
                    },
                };
                let v_input_priority = match get_opt_io_priority(fields, "input_priority") {
                    Ok(v) => v,
                    Err(e) => {
                        return Err(e);
                    },
                };
                let v_output_priority = match get_opt_io_priority(fields, "output_priority") {
                    Ok(v) => v,
                    Err(e) => {
                        return Err(e);
                    },
                };
                let v_filter = match get_opt_str(fields, "filter") {
                    Ok(v) => v,
                    Err(e) => {
                        return Err(e);
                    },
                };
                let v_filters = match get_opt_itemfilter_vec(fields, "filters") {
                    Ok(v) => v,
                    Err(e) => {
                        return Err(e);
                    },
                };
                let s_filter_mode = match get_req_str(fields, "filter_mode") {
                    Ok(v) => v,
                    Err(e) => {
                        return Err(e);
                    },
                };
                let v_filter_mode = match FilterMode::from_wire(s_filter_mode.as_str()) {
                    Ok(v) => v,
                    Err(e) => {
                        return Err(e);
                    },
                };
                let v_override_stack_size = match get_opt_u8(fields, "override_stack_size") {
                    Ok(v) => v,
                    Err(e) => {
                        return Err(e);
                    },
                };
                let v_drop_position = match lookup(fields, "drop_position") {
                    Some(jx) => match Position::from_json(jx) {
                        Ok(v) => v,
                        Err(e) => {
                            return Err(e);
                        },
                    },
                    None => {
                    return Err(BpError::SchemaError(String::from_str("missing member: drop_position")));
                },
                };
                let v_pickup_position = match lookup(fields, "pickup_position") {
                    Some(jx) => match Position::from_json(jx) {
                        Ok(v) => v,
                        Err(e) => {
                            return Err(e);
                        },
                    },
                    None => {
                    return Err(BpError::SchemaError(String::from_str("missing member: pickup_position")));
                },
                };
                let v_request_filters = match get_opt_logistic(fields, "request_filters") {
                    Ok(v) => v,
                    Err(e) => {
                        return Err(e);
                    },
                };
                let v_request_from_buffers = match get_req_bool(fields, "request_from_buffers") {
                    Ok(v) => v,
                    Err(e) => {
                        return Err(e);
                    },
                };
                let v_parameters = match lookup(fields, "parameters") {
                    Some(jx) => match SpeakerParameter::from_json(jx) {
                        Ok(v) => v,
                        Err(e) => {
                            return Err(e);
                        },
                    },
                    None => {
                    return Err(BpError::SchemaError(String::from_str("missing member: parameters")));
                },
                };
                let v_alert_parameters = match lookup(fields, "alert_parameters") {
                    Some(jx) => match SpeakerAlertParameter::from_json(jx) {
                        Ok(v) => v,
                        Err(e) => {
                            return Err(e);
                        },
                    },
                    None => {
                    return Err(BpError::SchemaError(String::from_str("missing member: alert_parameters")));
                },
                };
                let v_auto_launch = match get_req_bool(fields, "auto_launch") {
                    Ok(v) => v,
                    Err(e) => {
                        return Err(e);
                    },
                };
                let r_variation = match get_req_u64(fields, "variation") {
                    Ok(v) => v,
                    Err(e) => {
                        return Err(e);
                    },
                };
                if r_variation > 255 {
                    return Err(BpError::SchemaError(String::from_str("member out of range: variation")));
                }
                let v_variation: u8 = r_variation as u8;
                let v_color = match lookup(fields, "color") {
                    Some(jx) => match Color::from_json(jx) {
                        Ok(v) => v,
                        Err(e) => {
                            return Err(e);
                        },
                    },
                    None => {
                    return Err(BpError::SchemaError(String::from_str("missing member: color")));
                },
                };
                let v_station = match get_req_str(fields, "station") {
                    Ok(v) => v,
                    Err(e) => {
                        return Err(e);
                    },
                };
                Ok(Entity { entity_number: v_entity_number, name: v_name, position: v_position, direction: v_direction, orientation: v_orientation, connections: v_connections, neighbors: v_neighbors, items: v_items, recipe: v_recipe, bar: v_bar, inventory: v_inventory, infinity_settings: v_infinity_settings, io_type: v_io_type, input_priority: v_input_priority, output_priority: v_output_priority, filter: v_filter, filters: v_filters, filter_mode: v_filter_mode, override_stack_size: v_override_stack_size, drop_position: v_drop_position, pickup_position: v_pickup_position, request_filters: v_request_filters, request_from_buffers: v_request_from_buffers, parameters: v_parameters, alert_parameters: v_alert_parameters, auto_launch: v_auto_launch, variation: v_variation, color: v_color, station: v_station })
            },
            _ => Err(BpError::SchemaError(String::from_str("expected an object"))),
        }
    }
}

/// The wire shapes of a sequence of [`Entity`] values.
pub open spec fn entity_seq_jv(s: Seq<Entity>) -> Seq<JsonV> {
    Seq::new(s.len(), |i: int| s[i].wire_jv())
}

/// Every element of the sequence is well-formed.
pub open spec fn entity_seq_wf(s: Seq<Entity>) -> bool {
    forall|i: int| 0 <= i < s.len() ==> (#[trigger] s[i]).wf()
}

/// Render each element into a wire array.
pub(crate) fn entity_vec_to_json(v: &Vec<Entity>) -> (r: Json)
    ensures
        r.jv() == JsonV::Arr(entity_seq_jv(v@)),
{
    let mut out: Vec<Json> = Vec::new();
    let n = v.len();
    for i in 0..n
        invariant
            n == v.len(),
            out@.len() == i,
            forall|k: int| 0 <= k < i ==> out@[k].jv() == entity_seq_jv(v@)[k],
    {
        let jx = v[i].to_json();
        out.push(jx);
    }
    proof {
        lemma_arr_jv(out);
        assert(arr_jv(out@) =~= entity_seq_jv(v@));
    }
    Json::Arr(out)
}

/// Parse each element of a wire array as a [`Entity`] value.
pub(crate) fn entity_vec_from_json(a: &Vec<Json>) -> (r: Result<Vec<Entity>, BpError>)
    ensures
        forall|ds: Seq<Entity>|
            ((#[trigger] entity_seq_jv(ds)) == arr_jv(a@) && entity_seq_wf(ds)) ==> (r matches Ok(v2)
                && entity_seq_jv(v2@) == arr_jv(a@) && entity_seq_wf(v2@)),
        r matches Ok(v2) ==> entity_seq_wf(v2@),
        r matches Err(e) ==> e is SchemaError,
{
    let mut out: Vec<Entity> = Vec::new();
    let n = a.len();
    for i in 0..n
        invariant
            n == a.len(),
            out@.len() == i,
            forall|k: int| 0 <= k < i ==> (#[trigger] out@[k]).wf(),
            forall|ds: Seq<Entity>|
                ((#[trigger] entity_seq_jv(ds)) == arr_jv(a@) && entity_seq_wf(ds)) ==> (forall|k: int|
                    0 <= k < i ==> (#[trigger] out@[k]).wire_jv() == arr_jv(a@)[k]),
    {
        let e = match Entity::from_json(&a[i]) {
            Ok(v) => v,
            Err(er) => {
                proof {
                    assert forall|ds: Seq<Entity>|
                        ((#[trigger] entity_seq_jv(ds)) == arr_jv(a@) && entity_seq_wf(ds)) implies false by {
                        assert(entity_seq_jv(ds).len() == ds.len());
                        assert(arr_jv(a@).len() == a@.len());
                        assert(entity_seq_jv(ds)[i as int] == ds[i as int].wire_jv());
                        assert(arr_jv(a@)[i as int] == a@[i as int].jv());
                        assert(ds[i as int].wf());
                    }
                }
                return Err(er);
            },
        };
        out.push(e);
        proof {
            assert forall|ds: Seq<Entity>|
                ((#[trigger] entity_seq_jv(ds)) == arr_jv(a@) && entity_seq_wf(ds)) implies (forall|k: int|
                0 <= k < i + 1 ==> (#[trigger] out@[k]).wire_jv() == arr_jv(a@)[k]) by {
                assert(entity_seq_jv(ds).len() == ds.len());
                assert(arr_jv(a@).len() == a@.len());
                assert(entity_seq_jv(ds)[i as int] == ds[i as int].wire_jv());
                assert(arr_jv(a@)[i as int] == a@[i as int].jv());
                assert(ds[i as int].wf());
                assert(out@[i as int].wire_jv() == arr_jv(a@)[i as int]);
                assert forall|k: int| 0 <= k < i + 1 implies (#[trigger] out@[k]).wire_jv()
                    == arr_jv(a@)[k] by {
                }
            }
        }
    }
    proof {
        assert forall|ds: Seq<Entity>|
            ((#[trigger] entity_seq_jv(ds)) == arr_jv(a@) && entity_seq_wf(ds)) implies (entity_seq_jv(out@) == arr_jv(
            a@,
        )) by {
            assert(entity_seq_jv(out@) =~= arr_jv(a@));
        }
    }
    Ok(out)
}



} // verus!
