//! The typed schema model and its JSON wire mapping. Every type states its
//! wire shape as a spec function (`wire_jv`), renders itself with `to_json`,
//! and parses itself with `from_json`. The parse contract carries the
//! mapping round trip: any well-formed value's rendered shape parses back
//! to a value with the same shape.
//!
//! Numbers that the game treats as fractional (positions, colors, volumes)
//! are carried as their decimal wire token, verbatim; integers are decoded.

use vstd::prelude::*;
use crate::error::BpError;
use crate::json::{
    Json, JsonV, fields_jv, arr_jv, obj_get, lookup, push_field, get_req_str, get_req_num,
    get_req_u64, get_req_bool, get_req_arr, get_req_obj, lemma_obj_jv, lemma_arr_jv, clone_members, digit_val,
    lemma_obj_get_push, u64_dec, u64_to_dec, parse_u64, dec_val, is_digits, lemma_u64_dec_val,
    clone_json,
};
use crate::enums::{
    SignalType, IoType, IoPriority, FilterMode, ConditionType, CompareType, InfinityFilterMode,
    CircuitConnectorId,
};
use crate::version::{Version, spec_pack, spec_unpack, lemma_unpack_pack};
use crate::entity::{Entity, entity_seq_jv, entity_seq_wf, entity_vec_to_json, entity_vec_from_json};

verus! {

broadcast use crate::json::lemma_obj_get_push, crate::json::lemma_u64_dec_val, crate::version::lemma_unpack_pack, vstd::string::group_string_axioms;

/// A coordinate or other fractional wire number, as its decimal token text.
pub type NumToken = String;

/// A position within a blueprint; `0` is the center.
#[derive(Debug, Clone)]
pub struct Position {
    /// X coordinate token.
    pub x: NumToken,
    /// Y coordinate token.
    pub y: NumToken,
}

impl Position {
    /// Structural well-formedness.
    pub open spec fn wf(self) -> bool {
        true
    }

    /// The wire shape of this value.
    pub open spec fn wire_jv(self) -> JsonV {
        JsonV::Obj(
            Seq::empty().push(("x"@, JsonV::Num(self.x@))).push(("y"@, JsonV::Num(self.y@))),
        )
    }

    /// Render to the wire shape.
    pub fn to_json(&self) -> (r: Json)
        ensures
            r.jv() == self.wire_jv(),
    {
        let mut fields: Vec<(String, Json)> = Vec::new();
        push_field(&mut fields, "x", Json::Num(self.x.clone()));
        push_field(&mut fields, "y", Json::Num(self.y.clone()));
        proof {
            lemma_obj_jv(fields);
            assert(fields_jv(fields@) =~= self.wire_jv()->Obj_0);
        }
        Json::Obj(fields)
    }

    /// Parse from the wire shape.
    pub fn from_json(j: &Json) -> (r: Result<Position, BpError>)
        ensures
            forall|d: Position|
                ((#[trigger] d.wire_jv()) == j.jv() && d.wf()) ==> (r matches Ok(d2)
                    && d2.wire_jv() == j.jv()),
            r matches Ok(d2) ==> d2.wf(),
            r matches Err(e) ==> e is SchemaError,
    {
        match j {
            Json::Obj(fields) => {
                proof {
                    lemma_obj_jv(*fields);
                    reveal_strlit("x");
                    reveal_strlit("y");
                    assert("x"@.len() == 1 && "x"@[0] == 'x');
                    assert("y"@.len() == 1 && "y"@[0] == 'y');
                }
                let x = match get_req_num(fields, "x") {
                    Ok(v) => v,
                    Err(e) => {
                        return Err(e);
                    },
                };
                let y = match get_req_num(fields, "y") {
                    Ok(v) => v,
                    Err(e) => {
                        return Err(e);
                    },
                };
                Ok(Position { x, y })
            },
            _ => Err(BpError::SchemaError(String::from_str("expected an object"))),
        }
    }
}

/// A color with red, green, blue and alpha components, each a wire token.
#[derive(Debug, Clone)]
pub struct Color {
    /// Red component token, 0 to 1.
    pub r: NumToken,
    /// Green component token, 0 to 1.
    pub g: NumToken,
    /// Blue component token, 0 to 1.
    pub b: NumToken,
    /// Transparency component token, 0 to 1.
    pub a: NumToken,
}

impl Color {
    /// Structural well-formedness.
    pub open spec fn wf(self) -> bool {
        true
    }

    /// The wire shape of this value.
    pub open spec fn wire_jv(self) -> JsonV {
        JsonV::Obj(
            Seq::empty().push(("r"@, JsonV::Num(self.r@))).push(("g"@, JsonV::Num(self.g@))).push(
                ("b"@, JsonV::Num(self.b@)),
            ).push(("a"@, JsonV::Num(self.a@))),
        )
    }

    /// Render to the wire shape.
    pub fn to_json(&self) -> (r: Json)
        ensures
            r.jv() == self.wire_jv(),
    {
        let mut fields: Vec<(String, Json)> = Vec::new();
        push_field(&mut fields, "r", Json::Num(self.r.clone()));
        push_field(&mut fields, "g", Json::Num(self.g.clone()));
        push_field(&mut fields, "b", Json::Num(self.b.clone()));
        push_field(&mut fields, "a", Json::Num(self.a.clone()));
        proof {
            lemma_obj_jv(fields);
            assert(fields_jv(fields@) =~= self.wire_jv()->Obj_0);
        }
        Json::Obj(fields)
    }

    /// Parse from the wire shape.
    pub fn from_json(j: &Json) -> (r: Result<Color, BpError>)
        ensures
            forall|d: Color|
                ((#[trigger] d.wire_jv()) == j.jv() && d.wf()) ==> (r matches Ok(d2)
                    && d2.wire_jv() == j.jv()),
            r matches Ok(d2) ==> d2.wf(),
            r matches Err(e) ==> e is SchemaError,
    {
        match j {
            Json::Obj(fields) => {
                proof {
                    lemma_obj_jv(*fields);
                    reveal_strlit("r");
                    reveal_strlit("g");
                    reveal_strlit("b");
                    reveal_strlit("a");
                    assert("r"@.len() == 1 && "r"@[0] == 'r');
                    assert("g"@.len() == 1 && "g"@[0] == 'g');
                    assert("b"@.len() == 1 && "b"@[0] == 'b');
                    assert("a"@.len() == 1 && "a"@[0] == 'a');
                }
                let r = match get_req_num(fields, "r") {
                    Ok(v) => v,
                    Err(e) => {
                        return Err(e);
                    },
                };
                let g = match get_req_num(fields, "g") {
                    Ok(v) => v,
                    Err(e) => {
                        return Err(e);
                    },
                };
                let b = match get_req_num(fields, "b") {
                    Ok(v) => v,
                    Err(e) => {
                        return Err(e);
                    },
                };
                let a = match get_req_num(fields, "a") {
                    Ok(v) => v,
                    Err(e) => {
                        return Err(e);
                    },
                };
                Ok(Color { r, g, b, a })
            },
            _ => Err(BpError::SchemaError(String::from_str("expected an object"))),
        }
    }
}

/// A circuit signal reference: prototype name plus signal kind. The kind's
/// wire member is named `type`.
#[derive(Debug, Clone)]
pub struct SignalId {
    /// Prototype name of the signal.
    pub name: String,
    /// Kind of the signal.
    pub signal_type: SignalType,
}

impl SignalId {
    /// Structural well-formedness.
    pub open spec fn wf(self) -> bool {
        true
    }

    /// The wire shape of this value.
    pub open spec fn wire_jv(self) -> JsonV {
        JsonV::Obj(
            Seq::empty().push(("name"@, JsonV::Str(self.name@))).push(
                ("type"@, JsonV::Str(self.signal_type.spec_wire())),
            ),
        )
    }

    /// Render to the wire shape.
    pub fn to_json(&self) -> (r: Json)
        ensures
            r.jv() == self.wire_jv(),
    {
        let mut fields: Vec<(String, Json)> = Vec::new();
        push_field(&mut fields, "name", Json::Str(self.name.clone()));
        push_field(
            &mut fields,
            "type",
            Json::Str(String::from_str(self.signal_type.wire_name())),
        );
        proof {
            lemma_obj_jv(fields);
            assert(fields_jv(fields@) =~= self.wire_jv()->Obj_0);
        }
        Json::Obj(fields)
    }

    /// Parse from the wire shape.
    pub fn from_json(j: &Json) -> (r: Result<SignalId, BpError>)
        ensures
            forall|d: SignalId|
                ((#[trigger] d.wire_jv()) == j.jv() && d.wf()) ==> (r matches Ok(d2)
                    && d2.wire_jv() == j.jv()),
            r matches Ok(d2) ==> d2.wf(),
            r matches Err(e) ==> e is SchemaError,
    {
        match j {
            Json::Obj(fields) => {
                proof {
                    lemma_obj_jv(*fields);
                    reveal_strlit("name");
                    reveal_strlit("type");
                    assert("name"@.len() == 4 && "name"@[0] == 'n');
                    assert("type"@.len() == 4 && "type"@[0] == 't');
                }
                let name = match get_req_str(fields, "name") {
                    Ok(v) => v,
                    Err(e) => {
                        return Err(e);
                    },
                };
                let ty = match get_req_str(fields, "type") {
                    Ok(v) => v,
                    Err(e) => {
                        return Err(e);
                    },
                };
                let signal_type = match SignalType::from_wire(ty.as_str()) {
                    Ok(v) => v,
                    Err(e) => {
                        return Err(e);
                    },
                };
                Ok(SignalId { name, signal_type })
            },
            _ => Err(BpError::SchemaError(String::from_str("expected an object"))),
        }
    }
}

/// The wire shapes of a sequence of entity-number references.
pub open spec fn u64s_jv(s: Seq<u64>) -> Seq<JsonV> {
    Seq::new(s.len(), |i: int| JsonV::Num(u64_dec(s[i] as nat)))
}

/// Every reference in the sequence is positive.
pub open spec fn u64s_pos(s: Seq<u64>) -> bool {
    forall|i: int| 0 <= i < s.len() ==> (#[trigger] s[i]) >= 1
}

/// Render each entity-number reference into a wire array.
pub(crate) fn u64vec_to_json(v: &Vec<u64>) -> (r: Json)
    ensures
        r.jv() == JsonV::Arr(u64s_jv(v@)),
{
    let mut out: Vec<Json> = Vec::new();
    let n = v.len();
    for i in 0..n
        invariant
            n == v.len(),
            out@.len() == i,
            forall|k: int| 0 <= k < i ==> out@[k].jv() == u64s_jv(v@)[k],
    {
        let jx = Json::Num(u64_to_dec(v[i]));
        out.push(jx);
    }
    proof {
        lemma_arr_jv(out);
        assert(arr_jv(out@) =~= u64s_jv(v@));
    }
    Json::Arr(out)
}

/// Parse a wire array of positive entity-number references.
pub(crate) fn u64vec_from_json(a: &Vec<Json>) -> (r: Result<Vec<u64>, BpError>)
    ensures
        forall|ds: Seq<u64>|
            ((#[trigger] u64s_jv(ds)) == arr_jv(a@) && u64s_pos(ds)) ==> (r matches Ok(v2)
                && u64s_jv(v2@) == arr_jv(a@) && u64s_pos(v2@)),
        r matches Ok(v2) ==> u64s_pos(v2@),
        r matches Err(e) ==> e is SchemaError,
{
    let mut out: Vec<u64> = Vec::new();
    let n = a.len();
    for i in 0..n
        invariant
            n == a.len(),
            out@.len() == i,
            forall|k: int| 0 <= k < i ==> (#[trigger] out@[k]) >= 1,
            forall|ds: Seq<u64>|
                ((#[trigger] u64s_jv(ds)) == arr_jv(a@) && u64s_pos(ds)) ==> (forall|k: int|
                    0 <= k < i ==> JsonV::Num(u64_dec((#[trigger] out@[k]) as nat)) == arr_jv(
                        a@,
                    )[k]),
    {
        proof {
            assert forall|ds: Seq<u64>|
                ((#[trigger] u64s_jv(ds)) == arr_jv(a@) && u64s_pos(ds)) implies (arr_jv(a@)[i as int]
                == JsonV::Num(u64_dec(ds[i as int] as nat)) && ds[i as int] >= 1) by {
                assert(u64s_jv(ds).len() == ds.len());
                assert(arr_jv(a@).len() == a@.len());
                assert(u64s_jv(ds)[i as int] == JsonV::Num(u64_dec(ds[i as int] as nat)));
            }
            assert(arr_jv(a@)[i as int] == a@[i as int].jv());
        }
        let e = match &a[i] {
            Json::Num(t) => match parse_u64(t.as_str()) {
                Some(nv) => nv,
                None => {
                    return Err(
                        BpError::SchemaError(String::from_str("reference is not an integer")),
                    );
                },
            },
            _ => {
                return Err(BpError::SchemaError(String::from_str("reference is not a number")));
            },
        };
        if e == 0 {
            return Err(BpError::SchemaError(String::from_str("reference must be positive")));
        }
        out.push(e);
    }
    proof {
        assert forall|ds: Seq<u64>|
            ((#[trigger] u64s_jv(ds)) == arr_jv(a@) && u64s_pos(ds)) implies (u64s_jv(out@) == arr_jv(a@)) by {
            assert(u64s_jv(out@) =~= arr_jv(a@));
        }
    }
    Ok(out)
}

/// The wire shape of an item-request map: item name to count.
pub open spec fn items_jv(s: Seq<(String, u32)>) -> Seq<(Seq<char>, JsonV)> {
    Seq::new(s.len(), |i: int| (s[i].0@, JsonV::Num(u64_dec(s[i].1 as nat))))
}

/// Every item name in the map is distinct, as keys of the wire object are.
pub open spec fn items_wf(s: Seq<(String, u32)>) -> bool {
    forall|a: int, b: int| 0 <= a < b < s.len() ==> (#[trigger] s[a]).0@ != (#[trigger] s[b]).0@
}

/// Whether some entry of the map already uses the name `key`.
fn items_contains_key(v: &Vec<(String, u32)>, key: &str) -> (r: bool)
    ensures
        r == (exists|k: int| 0 <= k < v@.len() && (#[trigger] v@[k]).0@ == key@),
{
    let n = v.len();
    for i in 0..n
        invariant
            n == v.len(),
            forall|k: int| 0 <= k < i ==> (#[trigger] v@[k]).0@ != key@,
    {
        if crate::json::str_eq(v[i].0.as_str(), key) {
            return true;
        }
    }
    false
}

/// Render an item-request map into a wire object.
pub(crate) fn items_to_json(v: &Vec<(String, u32)>) -> (r: Json)
    ensures
        r.jv() == JsonV::Obj(items_jv(v@)),
{
    let mut out: Vec<(String, Json)> = Vec::new();
    let n = v.len();
    for i in 0..n
        invariant
            n == v.len(),
            out@.len() == i,
            forall|k: int|
                0 <= k < i ==> out@[k].0@ == v@[k].0@ && out@[k].1.jv() == JsonV::Num(
                    u64_dec(v@[k].1 as nat),
                ),
    {
        let t = u64_to_dec(v[i].1 as u64);
        let key = v[i].0.clone();
        out.push((key, Json::Num(t)));
    }
    proof {
        lemma_obj_jv(out);
        assert(fields_jv(out@) =~= items_jv(v@));
    }
    Json::Obj(out)
}

/// Parse a wire object as an item-request map. A repeated item name is a
/// schema error: the map's names are its keys and stay unique.
pub(crate) fn items_from_json(o: &Vec<(String, Json)>) -> (r: Result<Vec<(String, u32)>, BpError>)
    ensures
        forall|ds: Seq<(String, u32)>|
            ((#[trigger] items_jv(ds)) == fields_jv(o@) && items_wf(ds)) ==> (r matches Ok(v2)
                && items_jv(v2@) == fields_jv(o@)),
        r matches Ok(v2) ==> items_wf(v2@),
        r matches Err(e) ==> e is SchemaError,
{
    let mut out: Vec<(String, u32)> = Vec::new();
    let n = o.len();
    for i in 0..n
        invariant
            n == o.len(),
            out@.len() == i,
            items_wf(out@),
            forall|ds: Seq<(String, u32)>|
                ((#[trigger] items_jv(ds)) == fields_jv(o@) && items_wf(ds)) ==> (forall|k: int|
                    0 <= k < i ==> (#[trigger] out@[k]).0@ == fields_jv(o@)[k].0 && JsonV::Num(
                        u64_dec(out@[k].1 as nat),
                    ) == fields_jv(o@)[k].1),
    {
        proof {
            assert forall|ds: Seq<(String, u32)>|
                ((#[trigger] items_jv(ds)) == fields_jv(o@) && items_wf(ds)) implies (fields_jv(
                o@,
            )[i as int] == (ds[i as int].0@, JsonV::Num(u64_dec(ds[i as int].1 as nat)))) by {
                assert(items_jv(ds).len() == ds.len());
                assert(fields_jv(o@).len() == o@.len());
                assert(items_jv(ds)[i as int] == (
                    ds[i as int].0@,
                    JsonV::Num(u64_dec(ds[i as int].1 as nat)),
                ));
            }
            assert(fields_jv(o@)[i as int] == (o@[i as int].0@, o@[i as int].1.jv()));
        }
        let count = match &o[i].1 {
            Json::Num(t) => match parse_u64(t.as_str()) {
                Some(nv) => nv,
                None => {
                    return Err(BpError::SchemaError(String::from_str("item count is not an integer")));
                },
            },
            _ => {
                return Err(BpError::SchemaError(String::from_str("item count is not a number")));
            },
        };
        if count > 4294967295 {
            return Err(BpError::SchemaError(String::from_str("item count out of range")));
        }
        if items_contains_key(&out, o[i].0.as_str()) {
            proof {
                assert forall|ds: Seq<(String, u32)>|
                    ((#[trigger] items_jv(ds)) == fields_jv(o@) && items_wf(ds)) implies false by {
                    let k = choose|k: int| 0 <= k < out@.len() && (#[trigger] out@[k]).0@ == o@[
                        i as int
                    ].0@;
                    assert(items_jv(ds).len() == ds.len());
                    assert(fields_jv(o@).len() == o@.len());
                    assert(items_jv(ds)[k] == (ds[k].0@, JsonV::Num(u64_dec(ds[k].1 as nat))));
                    assert(items_jv(ds)[i as int] == (
                        ds[i as int].0@,
                        JsonV::Num(u64_dec(ds[i as int].1 as nat)),
                    ));
                    assert(fields_jv(o@)[i as int] == (o@[i as int].0@, o@[i as int].1.jv()));
                    assert(ds[k].0@ == ds[i as int].0@);
                }
            }
            return Err(BpError::SchemaError(String::from_str("duplicate item name")));
        }
        let key = o[i].0.clone();
        out.push((key, count as u32));
        proof {
            assert forall|ds: Seq<(String, u32)>|
                ((#[trigger] items_jv(ds)) == fields_jv(o@) && items_wf(ds)) implies (forall|k: int|
                0 <= k < i + 1 ==> (#[trigger] out@[k]).0@ == fields_jv(o@)[k].0 && JsonV::Num(
                    u64_dec(out@[k].1 as nat),
                ) == fields_jv(o@)[k].1) by {
                assert(items_jv(ds).len() == ds.len());
                assert(fields_jv(o@).len() == o@.len());
                assert(items_jv(ds)[i as int] == (
                    ds[i as int].0@,
                    JsonV::Num(u64_dec(ds[i as int].1 as nat)),
                ));
                assert forall|k: int| 0 <= k < i + 1 implies (#[trigger] out@[k]).0@ == fields_jv(
                    o@,
                )[k].0 && JsonV::Num(u64_dec(out@[k].1 as nat)) == fields_jv(o@)[k].1 by {
                }
            }
        }
    }
    proof {
        assert forall|ds: Seq<(String, u32)>|
            ((#[trigger] items_jv(ds)) == fields_jv(o@) && items_wf(ds)) implies (items_jv(out@)
            == fields_jv(o@)) by {
            assert(items_jv(out@) =~= fields_jv(o@));
        }
    }
    Ok(out)
}


/// An icon shown for a blueprint: a 1-based slot index and a signal.
#[derive(Debug, Clone)]
pub struct Icon {
    /// 1-based index of the icon slot.
    pub index: u64,
    /// The signal displayed.
    pub signal: SignalId,
}

impl Icon {
    /// Structural well-formedness: entity-number references are positive
    /// and nested values are themselves well-formed.
    pub open spec fn wf(self) -> bool {
        self.index >= 1
            && self.signal.wf()
    }

    /// The wire shape of this value.
    pub open spec fn wire_jv(self) -> JsonV {
        let f = Seq::empty();
        let f = f.push(("index"@, JsonV::Num(u64_dec(self.index as nat))));
        let f = f.push(("signal"@, self.signal.wire_jv()));
        JsonV::Obj(f)
    }

    /// Render to the wire shape.
    pub fn to_json(&self) -> (r: Json)
        ensures
            r.jv() == self.wire_jv(),
    {
        let mut fields: Vec<(String, Json)> = Vec::new();
        push_field(&mut fields, "index", Json::Num(u64_to_dec(self.index)));
        push_field(&mut fields, "signal", self.signal.to_json());
        proof {
            lemma_obj_jv(fields);
            assert(fields_jv(fields@) =~= self.wire_jv()->Obj_0);
        }
        Json::Obj(fields)
    }

    /// Parse from the wire shape. The contract carries the mapping round
    /// trip: the rendered shape of any well-formed value parses back to a
    /// value with the same shape.
    pub fn from_json(j: &Json) -> (r: Result<Icon, BpError>)
        ensures
            forall|d: Icon|
                ((#[trigger] d.wire_jv()) == j.jv() && d.wf()) ==> (r matches Ok(d2)
                    && d2.wire_jv() == j.jv()),
            r matches Ok(d2) ==> d2.wf(),
            r matches Err(e) ==> e is SchemaError,
    {
        match j {
            Json::Obj(fields) => {
                proof {
                    lemma_obj_jv(*fields);
                    reveal_strlit("index");
                    assert("index"@.len() == 5 && "index"@[0] == 'i');
                    reveal_strlit("signal");
                    assert("signal"@.len() == 6 && "signal"@[0] == 's');
                }
                let v_index = match get_req_u64(fields, "index") {
                    Ok(v) => v,
                    Err(e) => {
                        return Err(e);
                    },
                };
                if v_index == 0 {
                    return Err(BpError::SchemaError(String::from_str("member must be positive: index")));
                }
                let v_signal = match lookup(fields, "signal") {
                    Some(jx) => match SignalId::from_json(jx) {
                        Ok(v) => v,
                        Err(e) => {
                            return Err(e);
                        },
                    },
                    None => {
                    return Err(BpError::SchemaError(String::from_str("missing member: signal")));
                },
                };
                Ok(Icon { index: v_index, signal: v_signal })
            },
            _ => Err(BpError::SchemaError(String::from_str("expected an object"))),
        }
    }
}

/// A floor tile: prototype name and position; no identity beyond position.
#[derive(Debug, Clone)]
pub struct Tile {
    /// Prototype name of the tile.
    pub name: String,
    /// Position of the tile within the blueprint.
    pub position: Position,
}

impl Tile {
    /// Structural well-formedness: entity-number references are positive
    /// and nested values are themselves well-formed.
    pub open spec fn wf(self) -> bool {
        self.position.wf()
    }

    /// The wire shape of this value.
    pub open spec fn wire_jv(self) -> JsonV {
        let f = Seq::empty();
        let f = f.push(("name"@, JsonV::Str(self.name@)));
        let f = f.push(("position"@, self.position.wire_jv()));
        JsonV::Obj(f)
    }

    /// Render to the wire shape.
    pub fn to_json(&self) -> (r: Json)
        ensures
            r.jv() == self.wire_jv(),
    {
        let mut fields: Vec<(String, Json)> = Vec::new();
        push_field(&mut fields, "name", Json::Str(self.name.clone()));
        push_field(&mut fields, "position", self.position.to_json());
        proof {
            lemma_obj_jv(fields);
            assert(fields_jv(fields@) =~= self.wire_jv()->Obj_0);
        }
        Json::Obj(fields)
    }

    /// Parse from the wire shape. The contract carries the mapping round
    /// trip: the rendered shape of any well-formed value parses back to a
    /// value with the same shape.
    pub fn from_json(j: &Json) -> (r: Result<Tile, BpError>)
        ensures
            forall|d: Tile|
                ((#[trigger] d.wire_jv()) == j.jv() && d.wf()) ==> (r matches Ok(d2)
                    && d2.wire_jv() == j.jv()),
            r matches Ok(d2) ==> d2.wf(),
            r matches Err(e) ==> e is SchemaError,
    {
        match j {
            Json::Obj(fields) => {
                proof {
                    lemma_obj_jv(*fields);
                    reveal_strlit("name");
                    assert("name"@.len() == 4 && "name"@[0] == 'n');
                    reveal_strlit("position");
                    assert("position"@.len() == 8 && "position"@[0] == 'p');
                }
                let v_name = match get_req_str(fields, "name") {
                    Ok(v) => v,
                    Err(e) => {
                        return Err(e);
                    },
                };
                let v_position = match lookup(fields, "position") {
                    Some(jx) => match Position::from_json(jx) {
                        Ok(v) => v,
                        Err(e) => {
                            return Err(e);
                        },
                    },
                    None => {
                    return Err(BpError::SchemaError(String::from_str("missing member: position")));
                },
                };
                Ok(Tile { name: v_name, position: v_position })
            },
            _ => Err(BpError::SchemaError(String::from_str("expected an object"))),
        }
    }
}

/// An item filter in a non-logistics container.
#[derive(Debug, Clone)]
pub struct ItemFilter {
    /// Name of the item prototype this filter is set to.
    pub name: String,
    /// 1-based index of the filter.
    pub index: u64,
}

impl ItemFilter {
    /// Structural well-formedness: entity-number references are positive
    /// and nested values are themselves well-formed.
    pub open spec fn wf(self) -> bool {
        self.index >= 1
    }

    /// The wire shape of this value.
    pub open spec fn wire_jv(self) -> JsonV {
        let f = Seq::empty();
        let f = f.push(("name"@, JsonV::Str(self.name@)));
        let f = f.push(("index"@, JsonV::Num(u64_dec(self.index as nat))));
        JsonV::Obj(f)
    }

    /// Render to the wire shape.
    pub fn to_json(&self) -> (r: Json)
        ensures
            r.jv() == self.wire_jv(),
    {
        let mut fields: Vec<(String, Json)> = Vec::new();
        push_field(&mut fields, "name", Json::Str(self.name.clone()));
        push_field(&mut fields, "index", Json::Num(u64_to_dec(self.index)));
        proof {
            lemma_obj_jv(fields);
            assert(fields_jv(fields@) =~= self.wire_jv()->Obj_0);
        }
        Json::Obj(fields)
    }

    /// Parse from the wire shape. The contract carries the mapping round
    /// trip: the rendered shape of any well-formed value parses back to a
    /// value with the same shape.
    pub fn from_json(j: &Json) -> (r: Result<ItemFilter, BpError>)
        ensures
            forall|d: ItemFilter|
                ((#[trigger] d.wire_jv()) == j.jv() && d.wf()) ==> (r matches Ok(d2)
                    && d2.wire_jv() == j.jv()),
            r matches Ok(d2) ==> d2.wf(),
            r matches Err(e) ==> e is SchemaError,
    {
        match j {
            Json::Obj(fields) => {
                proof {
                    lemma_obj_jv(*fields);
                    reveal_strlit("name");
                    assert("name"@.len() == 4 && "name"@[0] == 'n');
                    reveal_strlit("index");
                    assert("index"@.len() == 5 && "index"@[0] == 'i');
                }
                let v_name = match get_req_str(fields, "name") {
                    Ok(v) => v,
                    Err(e) => {
                        return Err(e);
                    },
                };
                let v_index = match get_req_u64(fields, "index") {
                    Ok(v) => v,
                    Err(e) => {
                        return Err(e);
                    },
                };
                if v_index == 0 {
                    return Err(BpError::SchemaError(String::from_str("member must be positive: index")));
                }
                Ok(ItemFilter { name: v_name, index: v_index })
            },
            _ => Err(BpError::SchemaError(String::from_str("expected an object"))),
        }
    }
}

/// The wire shapes of a sequence of [`ItemFilter`] values.
pub open spec fn itemfilter_seq_jv(s: Seq<ItemFilter>) -> Seq<JsonV> {
    Seq::new(s.len(), |i: int| s[i].wire_jv())
}

/// Every element of the sequence is well-formed.
pub open spec fn itemfilter_seq_wf(s: Seq<ItemFilter>) -> bool {
    forall|i: int| 0 <= i < s.len() ==> (#[trigger] s[i]).wf()
}

/// Render each element into a wire array.
pub(crate) fn itemfilter_vec_to_json(v: &Vec<ItemFilter>) -> (r: Json)
    ensures
        r.jv() == JsonV::Arr(itemfilter_seq_jv(v@)),
{
    let mut out: Vec<Json> = Vec::new();
    let n = v.len();
    for i in 0..n
        invariant
            n == v.len(),
            out@.len() == i,
            forall|k: int| 0 <= k < i ==> out@[k].jv() == itemfilter_seq_jv(v@)[k],
    {
        let jx = v[i].to_json();
        out.push(jx);
    }
    proof {
        lemma_arr_jv(out);
        assert(arr_jv(out@) =~= itemfilter_seq_jv(v@));
    }
    Json::Arr(out)
}

/// Parse each element of a wire array as a [`ItemFilter`] value.
pub(crate) fn itemfilter_vec_from_json(a: &Vec<Json>) -> (r: Result<Vec<ItemFilter>, BpError>)
    ensures
        forall|ds: Seq<ItemFilter>|
            ((#[trigger] itemfilter_seq_jv(ds)) == arr_jv(a@) && itemfilter_seq_wf(ds)) ==> (r matches Ok(v2)
                && itemfilter_seq_jv(v2@) == arr_jv(a@) && itemfilter_seq_wf(v2@)),
        r matches Ok(v2) ==> itemfilter_seq_wf(v2@),
        r matches Err(e) ==> e is SchemaError,
{
    let mut out: Vec<ItemFilter> = Vec::new();
    let n = a.len();
    for i in 0..n
        invariant
            n == a.len(),
            out@.len() == i,
            forall|k: int| 0 <= k < i ==> (#[trigger] out@[k]).wf(),
            forall|ds: Seq<ItemFilter>|
                ((#[trigger] itemfilter_seq_jv(ds)) == arr_jv(a@) && itemfilter_seq_wf(ds)) ==> (forall|k: int|
                    0 <= k < i ==> (#[trigger] out@[k]).wire_jv() == arr_jv(a@)[k]),
    {
        let e = match ItemFilter::from_json(&a[i]) {
            Ok(v) => v,
            Err(er) => {
                proof {
                    assert forall|ds: Seq<ItemFilter>|
                        ((#[trigger] itemfilter_seq_jv(ds)) == arr_jv(a@) && itemfilter_seq_wf(ds)) implies false by {
                        assert(itemfilter_seq_jv(ds).len() == ds.len());
                        assert(arr_jv(a@).len() == a@.len());
                        assert(itemfilter_seq_jv(ds)[i as int] == ds[i as int].wire_jv());
                        assert(arr_jv(a@)[i as int] == a@[i as int].jv());
                        assert(ds[i as int].wf());
                    }
                }
                return Err(er);
            },
        };
        out.push(e);
        proof {
            assert forall|ds: Seq<ItemFilter>|
                ((#[trigger] itemfilter_seq_jv(ds)) == arr_jv(a@) && itemfilter_seq_wf(ds)) implies (forall|k: int|
                0 <= k < i + 1 ==> (#[trigger] out@[k]).wire_jv() == arr_jv(a@)[k]) by {
                assert(itemfilter_seq_jv(ds).len() == ds.len());
                assert(arr_jv(a@).len() == a@.len());
                assert(itemfilter_seq_jv(ds)[i as int] == ds[i as int].wire_jv());
                assert(arr_jv(a@)[i as int] == a@[i as int].jv());
                assert(ds[i as int].wf());
                assert(out@[i as int].wire_jv() == arr_jv(a@)[i as int]);
                assert forall|k: int| 0 <= k < i + 1 implies (#[trigger] out@[k]).wire_jv()
                    == arr_jv(a@)[k] by {
                }
            }
        }
    }
    proof {
        assert forall|ds: Seq<ItemFilter>|
            ((#[trigger] itemfilter_seq_jv(ds)) == arr_jv(a@) && itemfilter_seq_wf(ds)) implies (itemfilter_seq_jv(out@) == arr_jv(
            a@,
        )) by {
            assert(itemfilter_seq_jv(out@) =~= arr_jv(a@));
        }
    }
    Ok(out)
}


/// A logistics request in a logistics container.
#[derive(Debug, Clone)]
pub struct LogisticFilter {
    /// Name of the item prototype this filter is set to.
    pub name: String,
    /// 1-based index of the filter.
    pub index: u64,
    /// Requested count; 0 for storage chests.
    pub count: u32,
}

impl LogisticFilter {
    /// Structural well-formedness: entity-number references are positive
    /// and nested values are themselves well-formed.
    pub open spec fn wf(self) -> bool {
        self.index >= 1
    }

    /// The wire shape of this value.
    pub open spec fn wire_jv(self) -> JsonV {
        let f = Seq::empty();
        let f = f.push(("name"@, JsonV::Str(self.name@)));
        let f = f.push(("index"@, JsonV::Num(u64_dec(self.index as nat))));
        let f = f.push(("count"@, JsonV::Num(u64_dec(self.count as nat))));
        JsonV::Obj(f)
    }

    /// Render to the wire shape.
    pub fn to_json(&self) -> (r: Json)
        ensures
            r.jv() == self.wire_jv(),
    {
        let mut fields: Vec<(String, Json)> = Vec::new();
        push_field(&mut fields, "name", Json::Str(self.name.clone()));
        push_field(&mut fields, "index", Json::Num(u64_to_dec(self.index)));
        push_field(&mut fields, "count", Json::Num(u64_to_dec(self.count as u64)));
        proof {
            lemma_obj_jv(fields);
            assert(fields_jv(fields@) =~= self.wire_jv()->Obj_0);
        }
        Json::Obj(fields)
    }

    /// Parse from the wire shape. The contract carries the mapping round
    /// trip: the rendered shape of any well-formed value parses back to a
    /// value with the same shape.
    pub fn from_json(j: &Json) -> (r: Result<LogisticFilter, BpError>)
        ensures
            forall|d: LogisticFilter|
                ((#[trigger] d.wire_jv()) == j.jv() && d.wf()) ==> (r matches Ok(d2)
                    && d2.wire_jv() == j.jv()),
            r matches Ok(d2) ==> d2.wf(),
            r matches Err(e) ==> e is SchemaError,
    {
        match j {
            Json::Obj(fields) => {
                proof {
                    lemma_obj_jv(*fields);
                    reveal_strlit("name");
                    assert("name"@.len() == 4 && "name"@[0] == 'n');
                    reveal_strlit("index");
                    assert("index"@.len() == 5 && "index"@[0] == 'i');
                    reveal_strlit("count");
                    assert("count"@.len() == 5 && "count"@[0] == 'c');
                }
                let v_name = match get_req_str(fields, "name") {
                    Ok(v) => v,
                    Err(e) => {
                        return Err(e);
                    },
                };
                let v_index = match get_req_u64(fields, "index") {
                    Ok(v) => v,
                    Err(e) => {
                        return Err(e);
                    },
                };
                if v_index == 0 {
                    return Err(BpError::SchemaError(String::from_str("member must be positive: index")));
                }
                let r_count = match get_req_u64(fields, "count") {
                    Ok(v) => v,
                    Err(e) => {
                        return Err(e);
                    },
                };
                if r_count > 4294967295 {
                    return Err(BpError::SchemaError(String::from_str("member out of range: count")));
                }
                let v_count: u32 = r_count as u32;
                Ok(LogisticFilter { name: v_name, index: v_index, count: v_count })
            },
            _ => Err(BpError::SchemaError(String::from_str("expected an object"))),
        }
    }
}

/// A filter for items in an infinity container.
#[derive(Debug, Clone)]
pub struct InfinityFilter {
    /// Name of the item prototype the filter is set to.
    pub name: String,
    /// Count the filter is set to.
    pub count: u32,
    /// Mode of the filter.
    pub mode: InfinityFilterMode,
    /// 1-based index of the filter.
    pub index: u64,
}

impl InfinityFilter {
    /// Structural well-formedness: entity-number references are positive
    /// and nested values are themselves well-formed.
    pub open spec fn wf(self) -> bool {
        self.index >= 1
    }

    /// The wire shape of this value.
    pub open spec fn wire_jv(self) -> JsonV {
        let f = Seq::empty();
        let f = f.push(("name"@, JsonV::Str(self.name@)));
        let f = f.push(("count"@, JsonV::Num(u64_dec(self.count as nat))));
        let f = f.push(("mode"@, JsonV::Str(self.mode.spec_wire())));
        let f = f.push(("index"@, JsonV::Num(u64_dec(self.index as nat))));
        JsonV::Obj(f)
    }

    /// Render to the wire shape.
    pub fn to_json(&self) -> (r: Json)
        ensures
            r.jv() == self.wire_jv(),
    {
        let mut fields: Vec<(String, Json)> = Vec::new();
        push_field(&mut fields, "name", Json::Str(self.name.clone()));
        push_field(&mut fields, "count", Json::Num(u64_to_dec(self.count as u64)));
        push_field(&mut fields, "mode", Json::Str(String::from_str(self.mode.wire_name())));
        push_field(&mut fields, "index", Json::Num(u64_to_dec(self.index)));
        proof {
            lemma_obj_jv(fields);
            assert(fields_jv(fields@) =~= self.wire_jv()->Obj_0);
        }
        Json::Obj(fields)
    }

    /// Parse from the wire shape. The contract carries the mapping round
    /// trip: the rendered shape of any well-formed value parses back to a
    /// value with the same shape.
    pub fn from_json(j: &Json) -> (r: Result<InfinityFilter, BpError>)
        ensures
            forall|d: InfinityFilter|
                ((#[trigger] d.wire_jv()) == j.jv() && d.wf()) ==> (r matches Ok(d2)
                    && d2.wire_jv() == j.jv()),
            r matches Ok(d2) ==> d2.wf(),
            r matches Err(e) ==> e is SchemaError,
    {
        match j {
            Json::Obj(fields) => {
                proof {
                    lemma_obj_jv(*fields);
                    reveal_strlit("name");
                    assert("name"@.len() == 4 && "name"@[0] == 'n');
                    reveal_strlit("count");
                    assert("count"@.len() == 5 && "count"@[0] == 'c');
                    reveal_strlit("mode");
                    assert("mode"@.len() == 4 && "mode"@[0] == 'm');
                    reveal_strlit("index");
                    assert("index"@.len() == 5 && "index"@[0] == 'i');
                }
                let v_name = match get_req_str(fields, "name") {
                    Ok(v) => v,
                    Err(e) => {
                        return Err(e);
                    },
                };
                let r_count = match get_req_u64(fields, "count") {
                    Ok(v) => v,
                    Err(e) => {
                        return Err(e);
                    },
                };
                if r_count > 4294967295 {
                    return Err(BpError::SchemaError(String::from_str("member out of range: count")));
                }
                let v_count: u32 = r_count as u32;
                let s_mode = match get_req_str(fields, "mode") {
                    Ok(v) => v,
                    Err(e) => {
                        return Err(e);
                    },
                };
                let v_mode = match InfinityFilterMode::from_wire(s_mode.as_str()) {
                    Ok(v) => v,
                    Err(e) => {
                        return Err(e);
                    },
                };
                let v_index = match get_req_u64(fields, "index") {
                    Ok(v) => v,
                    Err(e) => {
                        return Err(e);
                    },
                };
                if v_index == 0 {
                    return Err(BpError::SchemaError(String::from_str("member must be positive: index")));
                }
                Ok(InfinityFilter { name: v_name, count: v_count, mode: v_mode, index: v_index })
            },
            _ => Err(BpError::SchemaError(String::from_str("expected an object"))),
        }
    }
}

/// The wire shapes of a sequence of [`InfinityFilter`] values.
pub open spec fn infinityfilter_seq_jv(s: Seq<InfinityFilter>) -> Seq<JsonV> {
    Seq::new(s.len(), |i: int| s[i].wire_jv())
}

/// Every element of the sequence is well-formed.
pub open spec fn infinityfilter_seq_wf(s: Seq<InfinityFilter>) -> bool {
    forall|i: int| 0 <= i < s.len() ==> (#[trigger] s[i]).wf()
}

/// Render each element into a wire array.
fn infinityfilter_vec_to_json(v: &Vec<InfinityFilter>) -> (r: Json)
    ensures
        r.jv() == JsonV::Arr(infinityfilter_seq_jv(v@)),
{
    let mut out: Vec<Json> = Vec::new();
    let n = v.len();
    for i in 0..n
        invariant
            n == v.len(),
            out@.len() == i,
            forall|k: int| 0 <= k < i ==> out@[k].jv() == infinityfilter_seq_jv(v@)[k],
    {
        let jx = v[i].to_json();
        out.push(jx);
    }
    proof {
        lemma_arr_jv(out);
        assert(arr_jv(out@) =~= infinityfilter_seq_jv(v@));
    }
    Json::Arr(out)
}

/// Parse each element of a wire array as a [`InfinityFilter`] value.
fn infinityfilter_vec_from_json(a: &Vec<Json>) -> (r: Result<Vec<InfinityFilter>, BpError>)
    ensures
        forall|ds: Seq<InfinityFilter>|
            ((#[trigger] infinityfilter_seq_jv(ds)) == arr_jv(a@) && infinityfilter_seq_wf(ds)) ==> (r matches Ok(v2)
                && infinityfilter_seq_jv(v2@) == arr_jv(a@) && infinityfilter_seq_wf(v2@)),
        r matches Ok(v2) ==> infinityfilter_seq_wf(v2@),
        r matches Err(e) ==> e is SchemaError,
{
    let mut out: Vec<InfinityFilter> = Vec::new();
    let n = a.len();
    for i in 0..n
        invariant
            n == a.len(),
            out@.len() == i,
            forall|k: int| 0 <= k < i ==> (#[trigger] out@[k]).wf(),
            forall|ds: Seq<InfinityFilter>|
                ((#[trigger] infinityfilter_seq_jv(ds)) == arr_jv(a@) && infinityfilter_seq_wf(ds)) ==> (forall|k: int|
                    0 <= k < i ==> (#[trigger] out@[k]).wire_jv() == arr_jv(a@)[k]),
    {
        let e = match InfinityFilter::from_json(&a[i]) {
            Ok(v) => v,
            Err(er) => {
                proof {
                    assert forall|ds: Seq<InfinityFilter>|
                        ((#[trigger] infinityfilter_seq_jv(ds)) == arr_jv(a@) && infinityfilter_seq_wf(ds)) implies false by {
                        assert(infinityfilter_seq_jv(ds).len() == ds.len());
                        assert(arr_jv(a@).len() == a@.len());
                        assert(infinityfilter_seq_jv(ds)[i as int] == ds[i as int].wire_jv());
                        assert(arr_jv(a@)[i as int] == a@[i as int].jv());
                        assert(ds[i as int].wf());
                    }
                }
                return Err(er);
            },
        };
        out.push(e);
        proof {
            assert forall|ds: Seq<InfinityFilter>|
                ((#[trigger] infinityfilter_seq_jv(ds)) == arr_jv(a@) && infinityfilter_seq_wf(ds)) implies (forall|k: int|
                0 <= k < i + 1 ==> (#[trigger] out@[k]).wire_jv() == arr_jv(a@)[k]) by {
                assert(infinityfilter_seq_jv(ds).len() == ds.len());
                assert(arr_jv(a@).len() == a@.len());
                assert(infinityfilter_seq_jv(ds)[i as int] == ds[i as int].wire_jv());
                assert(arr_jv(a@)[i as int] == a@[i as int].jv());
                assert(ds[i as int].wf());
                assert(out@[i as int].wire_jv() == arr_jv(a@)[i as int]);
                assert forall|k: int| 0 <= k < i + 1 implies (#[trigger] out@[k]).wire_jv()
                    == arr_jv(a@)[k] by {
                }
            }
        }
    }
    proof {
        assert forall|ds: Seq<InfinityFilter>|
            ((#[trigger] infinityfilter_seq_jv(ds)) == arr_jv(a@) && infinityfilter_seq_wf(ds)) implies (infinityfilter_seq_jv(out@) == arr_jv(
            a@,
        )) by {
            assert(infinityfilter_seq_jv(out@) =~= arr_jv(a@));
        }
    }
    Ok(out)
}


/// The settings of an infinity container.
#[derive(Debug, Clone)]
pub struct InfinitySettings {
    /// Whether unfiltered items are removed.
    pub remove_unfiltered_items: bool,
    /// Filters of the container, where configured.
    pub filters: Option<Vec<InfinityFilter>>,
}

impl InfinitySettings {
    /// Structural well-formedness: entity-number references are positive
    /// and nested values are themselves well-formed.
    pub open spec fn wf(self) -> bool {
        (self.filters matches Some(x) ==> infinityfilter_seq_wf(x@))
    }

    /// The wire shape of this value.
    pub open spec fn wire_jv(self) -> JsonV {
        let f = Seq::empty();
        let f = f.push(("remove_unfiltered_items"@, JsonV::Bool(self.remove_unfiltered_items)));
        let f = if self.filters is Some {
            f.push(("filters"@, JsonV::Arr(infinityfilter_seq_jv(self.filters.unwrap()@))))
        } else {
            f
        };
        JsonV::Obj(f)
    }

    /// Render to the wire shape.
    pub fn to_json(&self) -> (r: Json)
        ensures
            r.jv() == self.wire_jv(),
    {
        let mut fields: Vec<(String, Json)> = Vec::new();
        push_field(&mut fields, "remove_unfiltered_items", Json::Bool(self.remove_unfiltered_items));
        if let Some(v) = &self.filters {
            push_field(&mut fields, "filters", infinityfilter_vec_to_json(&v));
        }
        proof {
            lemma_obj_jv(fields);
            assert(fields_jv(fields@) =~= self.wire_jv()->Obj_0);
        }
        Json::Obj(fields)
    }

    /// Parse from the wire shape. The contract carries the mapping round
    /// trip: the rendered shape of any well-formed value parses back to a
    /// value with the same shape.
    pub fn from_json(j: &Json) -> (r: Result<InfinitySettings, BpError>)
        ensures
            forall|d: InfinitySettings|
                ((#[trigger] d.wire_jv()) == j.jv() && d.wf()) ==> (r matches Ok(d2)
                    && d2.wire_jv() == j.jv()),
            r matches Ok(d2) ==> d2.wf(),
            r matches Err(e) ==> e is SchemaError,
    {
        match j {
            Json::Obj(fields) => {
                proof {
                    lemma_obj_jv(*fields);
                    reveal_strlit("remove_unfiltered_items");
                    assert("remove_unfiltered_items"@.len() == 23 && "remove_unfiltered_items"@[0] == 'r');
                    reveal_strlit("filters");
                    assert("filters"@.len() == 7 && "filters"@[0] == 'f');
                }
                let v_remove_unfiltered_items = match get_req_bool(fields, "remove_unfiltered_items") {
                    Ok(v) => v,
                    Err(e) => {
                        return Err(e);
                    },
                };
                let v_filters = match lookup(fields, "filters") {
                    None => None,
                    Some(jx) => match jx {
                        Json::Arr(av) => {
                            proof {
                                lemma_arr_jv(*av);
                            }
                            match infinityfilter_vec_from_json(av) {
                                Ok(v) => Some(v),
                                Err(e) => {
                                    return Err(e);
                                },
                            }
                        },
                        _ => {
                    return Err(BpError::SchemaError(String::from_str("mistyped member: filters")));
                },
                    },
                };
                Ok(InfinitySettings { remove_unfiltered_items: v_remove_unfiltered_items, filters: v_filters })
            },
            _ => Err(BpError::SchemaError(String::from_str("expected an object"))),
        }
    }
}

/// An inventory of a non-logistics container.
#[derive(Debug, Clone)]
pub struct Inventory {
    /// Item filters of the inventory.
    pub filters: Vec<ItemFilter>,
    /// Index of the first inaccessible item slot due to limiting.
    pub bar: u16,
}

impl Inventory {
    /// Structural well-formedness: entity-number references are positive
    /// and nested values are themselves well-formed.
    pub open spec fn wf(self) -> bool {
        itemfilter_seq_wf(self.filters@)
    }

    /// The wire shape of this value.
    pub open spec fn wire_jv(self) -> JsonV {
        let f = Seq::empty();
        let f = f.push(("filters"@, JsonV::Arr(itemfilter_seq_jv(self.filters@))));
        let f = f.push(("bar"@, JsonV::Num(u64_dec(self.bar as nat))));
        JsonV::Obj(f)
    }

    /// Render to the wire shape.
    pub fn to_json(&self) -> (r: Json)
        ensures
            r.jv() == self.wire_jv(),
    {
        let mut fields: Vec<(String, Json)> = Vec::new();
        push_field(&mut fields, "filters", itemfilter_vec_to_json(&self.filters));
        push_field(&mut fields, "bar", Json::Num(u64_to_dec(self.bar as u64)));
        proof {
            lemma_obj_jv(fields);
            assert(fields_jv(fields@) =~= self.wire_jv()->Obj_0);
        }
        Json::Obj(fields)
    }

    /// Parse from the wire shape. The contract carries the mapping round
    /// trip: the rendered shape of any well-formed value parses back to a
    /// value with the same shape.
    pub fn from_json(j: &Json) -> (r: Result<Inventory, BpError>)
        ensures
            forall|d: Inventory|
                ((#[trigger] d.wire_jv()) == j.jv() && d.wf()) ==> (r matches Ok(d2)
                    && d2.wire_jv() == j.jv()),
            r matches Ok(d2) ==> d2.wf(),
            r matches Err(e) ==> e is SchemaError,
    {
        match j {
            Json::Obj(fields) => {
                proof {
                    lemma_obj_jv(*fields);
                    reveal_strlit("filters");
                    assert("filters"@.len() == 7 && "filters"@[0] == 'f');
                    reveal_strlit("bar");
                    assert("bar"@.len() == 3 && "bar"@[0] == 'b');
                }
                let a_filters = match get_req_arr(fields, "filters") {
                    Ok(v) => v,
                    Err(e) => {
                        return Err(e);
                    },
                };
                let v_filters = match itemfilter_vec_from_json(a_filters) {
                    Ok(v) => v,
                    Err(e) => {
                        return Err(e);
                    },
                };
                let r_bar = match get_req_u64(fields, "bar") {
                    Ok(v) => v,
                    Err(e) => {
                        return Err(e);
                    },
                };
                if r_bar > 65535 {
                    return Err(BpError::SchemaError(String::from_str("member out of range: bar")));
                }
                let v_bar: u16 = r_bar as u16;
                Ok(Inventory { filters: v_filters, bar: v_bar })
            },
            _ => Err(BpError::SchemaError(String::from_str("expected an object"))),
        }
    }
}

/// Parameters of a programmable speaker.
#[derive(Debug, Clone)]
pub struct SpeakerParameter {
    /// Volume of the speaker, as its wire token.
    pub playback_volume: NumToken,
    /// Whether global playback is enabled.
    pub playback_globally: bool,
    /// Whether polyphony is allowed.
    pub allow_polyphony: bool,
}

impl SpeakerParameter {
    /// Structural well-formedness: entity-number references are positive
    /// and nested values are themselves well-formed.
    pub open spec fn wf(self) -> bool {
        true
    }

    /// The wire shape of this value.
    pub open spec fn wire_jv(self) -> JsonV {
        let f = Seq::empty();
        let f = f.push(("playback_volume"@, JsonV::Num(self.playback_volume@)));
        let f = f.push(("playback_globally"@, JsonV::Bool(self.playback_globally)));
        let f = f.push(("allow_polyphony"@, JsonV::Bool(self.allow_polyphony)));
        JsonV::Obj(f)
    }

    /// Render to the wire shape.
    pub fn to_json(&self) -> (r: Json)
        ensures
            r.jv() == self.wire_jv(),
    {
        let mut fields: Vec<(String, Json)> = Vec::new();
        push_field(&mut fields, "playback_volume", Json::Num(self.playback_volume.clone()));
        push_field(&mut fields, "playback_globally", Json::Bool(self.playback_globally));
        push_field(&mut fields, "allow_polyphony", Json::Bool(self.allow_polyphony));
        proof {
            lemma_obj_jv(fields);
            assert(fields_jv(fields@) =~= self.wire_jv()->Obj_0);
        }
        Json::Obj(fields)
    }

    /// Parse from the wire shape. The contract carries the mapping round
    /// trip: the rendered shape of any well-formed value parses back to a
    /// value with the same shape.
    pub fn from_json(j: &Json) -> (r: Result<SpeakerParameter, BpError>)
        ensures
            forall|d: SpeakerParameter|
                ((#[trigger] d.wire_jv()) == j.jv() && d.wf()) ==> (r matches Ok(d2)
                    && d2.wire_jv() == j.jv()),
            r matches Ok(d2) ==> d2.wf(),
            r matches Err(e) ==> e is SchemaError,
    {
        match j {
            Json::Obj(fields) => {
                proof {
                    lemma_obj_jv(*fields);
                    reveal_strlit("playback_volume");
                    assert("playback_volume"@.len() == 15 && "playback_volume"@[0] == 'p');
                    reveal_strlit("playback_globally");
                    assert("playback_globally"@.len() == 17 && "playback_globally"@[0] == 'p');
                    reveal_strlit("allow_polyphony");
                    assert("allow_polyphony"@.len() == 15 && "allow_polyphony"@[0] == 'a');
                }
                let v_playback_volume = match get_req_num(fields, "playback_volume") {
                    Ok(v) => v,
                    Err(e) => {
                        return Err(e);
                    },
                };
                let v_playback_globally = match get_req_bool(fields, "playback_globally") {
                    Ok(v) => v,
                    Err(e) => {
                        return Err(e);
                    },
                };
                let v_allow_polyphony = match get_req_bool(fields, "allow_polyphony") {
                    Ok(v) => v,
                    Err(e) => {
                        return Err(e);
                    },
                };
                Ok(SpeakerParameter { playback_volume: v_playback_volume, playback_globally: v_playback_globally, allow_polyphony: v_allow_polyphony })
            },
            _ => Err(BpError::SchemaError(String::from_str("expected an object"))),
        }
    }
}

/// Alert parameters of a programmable speaker.
#[derive(Debug, Clone)]
pub struct SpeakerAlertParameter {
    /// Whether an alert is shown.
    pub show_alert: bool,
    /// Whether an alert icon is shown on the map.
    pub show_on_map: bool,
    /// The icon displayed with the alert.
    pub icon_signal_id: SignalId,
    /// Message of the alert.
    pub alert_message: String,
}

impl SpeakerAlertParameter {
    /// Structural well-formedness: entity-number references are positive
    /// and nested values are themselves well-formed.
    pub open spec fn wf(self) -> bool {
        self.icon_signal_id.wf()
    }

    /// The wire shape of this value.
    pub open spec fn wire_jv(self) -> JsonV {
        let f = Seq::empty();
        let f = f.push(("show_alert"@, JsonV::Bool(self.show_alert)));
        let f = f.push(("show_on_map"@, JsonV::Bool(self.show_on_map)));
        let f = f.push(("icon_signal_id"@, self.icon_signal_id.wire_jv()));
        let f = f.push(("alert_message"@, JsonV::Str(self.alert_message@)));
        JsonV::Obj(f)
    }

    /// Render to the wire shape.
    pub fn to_json(&self) -> (r: Json)
        ensures
            r.jv() == self.wire_jv(),
    {
        let mut fields: Vec<(String, Json)> = Vec::new();
        push_field(&mut fields, "show_alert", Json::Bool(self.show_alert));
        push_field(&mut fields, "show_on_map", Json::Bool(self.show_on_map));
        push_field(&mut fields, "icon_signal_id", self.icon_signal_id.to_json());
        push_field(&mut fields, "alert_message", Json::Str(self.alert_message.clone()));
        proof {
            lemma_obj_jv(fields);
            assert(fields_jv(fields@) =~= self.wire_jv()->Obj_0);
        }
        Json::Obj(fields)
    }

    /// Parse from the wire shape. The contract carries the mapping round
    /// trip: the rendered shape of any well-formed value parses back to a
    /// value with the same shape.
    pub fn from_json(j: &Json) -> (r: Result<SpeakerAlertParameter, BpError>)
        ensures
            forall|d: SpeakerAlertParameter|
                ((#[trigger] d.wire_jv()) == j.jv() && d.wf()) ==> (r matches Ok(d2)
                    && d2.wire_jv() == j.jv()),
            r matches Ok(d2) ==> d2.wf(),
            r matches Err(e) ==> e is SchemaError,
    {
        match j {
            Json::Obj(fields) => {
                proof {
                    lemma_obj_jv(*fields);
                    reveal_strlit("show_alert");
                    assert("show_alert"@.len() == 10 && "show_alert"@[0] == 's');
                    reveal_strlit("show_on_map");
                    assert("show_on_map"@.len() == 11 && "show_on_map"@[0] == 's');
                    reveal_strlit("icon_signal_id");
                    assert("icon_signal_id"@.len() == 14 && "icon_signal_id"@[0] == 'i');
                    reveal_strlit("alert_message");
                    assert("alert_message"@.len() == 13 && "alert_message"@[0] == 'a');
                }
                let v_show_alert = match get_req_bool(fields, "show_alert") {
                    Ok(v) => v,
                    Err(e) => {
                        return Err(e);
                    },
                };
                let v_show_on_map = match get_req_bool(fields, "show_on_map") {
                    Ok(v) => v,
                    Err(e) => {
                        return Err(e);
                    },
                };
                let v_icon_signal_id = match lookup(fields, "icon_signal_id") {
                    Some(jx) => match SignalId::from_json(jx) {
                        Ok(v) => v,
                        Err(e) => {
                            return Err(e);
                        },
                    },
                    None => {
                    return Err(BpError::SchemaError(String::from_str("missing member: icon_signal_id")));
                },
                };
                let v_alert_message = match get_req_str(fields, "alert_message") {
                    Ok(v) => v,
                    Err(e) => {
                        return Err(e);
                    },
                };
                Ok(SpeakerAlertParameter { show_alert: v_show_alert, show_on_map: v_show_on_map, icon_signal_id: v_icon_signal_id, alert_message: v_alert_message })
            },
            _ => Err(BpError::SchemaError(String::from_str("expected an object"))),
        }
    }
}

/// One wire link: the target entity number and its connector kind.
#[derive(Debug, Clone)]
pub struct ConnectionData {
    /// Number of the entity this connection reaches; a non-owning reference.
    pub entity_id: u64,
    /// Connector kind of the target entity.
    pub circuit_id: CircuitConnectorId,
}

impl ConnectionData {
    /// Structural well-formedness: entity-number references are positive
    /// and nested values are themselves well-formed.
    pub open spec fn wf(self) -> bool {
        self.entity_id >= 1
    }

    /// The wire shape of this value.
    pub open spec fn wire_jv(self) -> JsonV {
        let f = Seq::empty();
        let f = f.push(("entity_id"@, JsonV::Num(u64_dec(self.entity_id as nat))));
        let f = f.push(("circuit_id"@, JsonV::Str(self.circuit_id.spec_wire())));
        JsonV::Obj(f)
    }

    /// Render to the wire shape.
    pub fn to_json(&self) -> (r: Json)
        ensures
            r.jv() == self.wire_jv(),
    {
        let mut fields: Vec<(String, Json)> = Vec::new();
        push_field(&mut fields, "entity_id", Json::Num(u64_to_dec(self.entity_id)));
        push_field(&mut fields, "circuit_id", Json::Str(String::from_str(self.circuit_id.wire_name())));
        proof {
            lemma_obj_jv(fields);
            assert(fields_jv(fields@) =~= self.wire_jv()->Obj_0);
        }
        Json::Obj(fields)
    }

    /// Parse from the wire shape. The contract carries the mapping round
    /// trip: the rendered shape of any well-formed value parses back to a
    /// value with the same shape.
    pub fn from_json(j: &Json) -> (r: Result<ConnectionData, BpError>)
        ensures
            forall|d: ConnectionData|
                ((#[trigger] d.wire_jv()) == j.jv() && d.wf()) ==> (r matches Ok(d2)
                    && d2.wire_jv() == j.jv()),
            r matches Ok(d2) ==> d2.wf(),
            r matches Err(e) ==> e is SchemaError,
    {
        match j {
            Json::Obj(fields) => {
                proof {
                    lemma_obj_jv(*fields);
                    reveal_strlit("entity_id");
                    assert("entity_id"@.len() == 9 && "entity_id"@[0] == 'e');
                    reveal_strlit("circuit_id");
                    assert("circuit_id"@.len() == 10 && "circuit_id"@[0] == 'c');
                }
                let v_entity_id = match get_req_u64(fields, "entity_id") {
                    Ok(v) => v,
                    Err(e) => {
                        return Err(e);
                    },
                };
                if v_entity_id == 0 {
                    return Err(BpError::SchemaError(String::from_str("member must be positive: entity_id")));
                }
                let s_circuit_id = match get_req_str(fields, "circuit_id") {
                    Ok(v) => v,
                    Err(e) => {
                        return Err(e);
                    },
                };
                let v_circuit_id = match CircuitConnectorId::from_wire(s_circuit_id.as_str()) {
                    Ok(v) => v,
                    Err(e) => {
                        return Err(e);
                    },
                };
                Ok(ConnectionData { entity_id: v_entity_id, circuit_id: v_circuit_id })
            },
            _ => Err(BpError::SchemaError(String::from_str("expected an object"))),
        }
    }
}

/// The wire shapes of a sequence of [`ConnectionData`] values.
pub open spec fn connectiondata_seq_jv(s: Seq<ConnectionData>) -> Seq<JsonV> {
    Seq::new(s.len(), |i: int| s[i].wire_jv())
}

/// Every element of the sequence is well-formed.
pub open spec fn connectiondata_seq_wf(s: Seq<ConnectionData>) -> bool {
    forall|i: int| 0 <= i < s.len() ==> (#[trigger] s[i]).wf()
}

/// Render each element into a wire array.
fn connectiondata_vec_to_json(v: &Vec<ConnectionData>) -> (r: Json)
    ensures
        r.jv() == JsonV::Arr(connectiondata_seq_jv(v@)),
{
    let mut out: Vec<Json> = Vec::new();
    let n = v.len();
    for i in 0..n
        invariant
            n == v.len(),
            out@.len() == i,
            forall|k: int| 0 <= k < i ==> out@[k].jv() == connectiondata_seq_jv(v@)[k],
    {
        let jx = v[i].to_json();
        out.push(jx);
    }
    proof {
        lemma_arr_jv(out);
        assert(arr_jv(out@) =~= connectiondata_seq_jv(v@));
    }
    Json::Arr(out)
}

/// Parse each element of a wire array as a [`ConnectionData`] value.
fn connectiondata_vec_from_json(a: &Vec<Json>) -> (r: Result<Vec<ConnectionData>, BpError>)
    ensures
        forall|ds: Seq<ConnectionData>|
            ((#[trigger] connectiondata_seq_jv(ds)) == arr_jv(a@) && connectiondata_seq_wf(ds)) ==> (r matches Ok(v2)
                && connectiondata_seq_jv(v2@) == arr_jv(a@) && connectiondata_seq_wf(v2@)),
        r matches Ok(v2) ==> connectiondata_seq_wf(v2@),
        r matches Err(e) ==> e is SchemaError,
{
    let mut out: Vec<ConnectionData> = Vec::new();
    let n = a.len();
    for i in 0..n
        invariant
            n == a.len(),
            out@.len() == i,
            forall|k: int| 0 <= k < i ==> (#[trigger] out@[k]).wf(),
            forall|ds: Seq<ConnectionData>|
                ((#[trigger] connectiondata_seq_jv(ds)) == arr_jv(a@) && connectiondata_seq_wf(ds)) ==> (forall|k: int|
                    0 <= k < i ==> (#[trigger] out@[k]).wire_jv() == arr_jv(a@)[k]),
    {
        let e = match ConnectionData::from_json(&a[i]) {
            Ok(v) => v,
            Err(er) => {
                proof {
                    assert forall|ds: Seq<ConnectionData>|
                        ((#[trigger] connectiondata_seq_jv(ds)) == arr_jv(a@) && connectiondata_seq_wf(ds)) implies false by {
                        assert(connectiondata_seq_jv(ds).len() == ds.len());
                        assert(arr_jv(a@).len() == a@.len());
                        assert(connectiondata_seq_jv(ds)[i as int] == ds[i as int].wire_jv());
                        assert(arr_jv(a@)[i as int] == a@[i as int].jv());
                        assert(ds[i as int].wf());
                    }
                }
                return Err(er);
            },
        };
        out.push(e);
        proof {
            assert forall|ds: Seq<ConnectionData>|
                ((#[trigger] connectiondata_seq_jv(ds)) == arr_jv(a@) && connectiondata_seq_wf(ds)) implies (forall|k: int|
                0 <= k < i + 1 ==> (#[trigger] out@[k]).wire_jv() == arr_jv(a@)[k]) by {
                assert(connectiondata_seq_jv(ds).len() == ds.len());
                assert(arr_jv(a@).len() == a@.len());
                assert(connectiondata_seq_jv(ds)[i as int] == ds[i as int].wire_jv());
                assert(arr_jv(a@)[i as int] == a@[i as int].jv());
                assert(ds[i as int].wf());
                assert(out@[i as int].wire_jv() == arr_jv(a@)[i as int]);
                assert forall|k: int| 0 <= k < i + 1 implies (#[trigger] out@[k]).wire_jv()
                    == arr_jv(a@)[k] by {
                }
            }
        }
    }
    proof {
        assert forall|ds: Seq<ConnectionData>|
            ((#[trigger] connectiondata_seq_jv(ds)) == arr_jv(a@) && connectiondata_seq_wf(ds)) implies (connectiondata_seq_jv(out@) == arr_jv(
            a@,
        )) by {
            assert(connectiondata_seq_jv(out@) =~= arr_jv(a@));
        }
    }
    Ok(out)
}


/// A wire attachment point: its red and green wire link lists.
#[derive(Debug, Clone)]
pub struct ConnectionPoint {
    /// Links made by red wire.
    pub red: Vec<ConnectionData>,
    /// Links made by green wire.
    pub green: Vec<ConnectionData>,
}

impl ConnectionPoint {
    /// Structural well-formedness: entity-number references are positive
    /// and nested values are themselves well-formed.
    pub open spec fn wf(self) -> bool {
        connectiondata_seq_wf(self.red@)
            && connectiondata_seq_wf(self.green@)
    }

    /// The wire shape of this value.
    pub open spec fn wire_jv(self) -> JsonV {
        let f = Seq::empty();
        let f = f.push(("red"@, JsonV::Arr(connectiondata_seq_jv(self.red@))));
        let f = f.push(("green"@, JsonV::Arr(connectiondata_seq_jv(self.green@))));
        JsonV::Obj(f)
    }

    /// Render to the wire shape.
    pub fn to_json(&self) -> (r: Json)
        ensures
            r.jv() == self.wire_jv(),
    {
        let mut fields: Vec<(String, Json)> = Vec::new();
        push_field(&mut fields, "red", connectiondata_vec_to_json(&self.red));
        push_field(&mut fields, "green", connectiondata_vec_to_json(&self.green));
        proof {
            lemma_obj_jv(fields);
            assert(fields_jv(fields@) =~= self.wire_jv()->Obj_0);
        }
        Json::Obj(fields)
    }

    /// Parse from the wire shape. The contract carries the mapping round
    /// trip: the rendered shape of any well-formed value parses back to a
    /// value with the same shape.
    pub fn from_json(j: &Json) -> (r: Result<ConnectionPoint, BpError>)
        ensures
            forall|d: ConnectionPoint|
                ((#[trigger] d.wire_jv()) == j.jv() && d.wf()) ==> (r matches Ok(d2)
                    && d2.wire_jv() == j.jv()),
            r matches Ok(d2) ==> d2.wf(),
            r matches Err(e) ==> e is SchemaError,
    {
        match j {
            Json::Obj(fields) => {
                proof {
                    lemma_obj_jv(*fields);
                    reveal_strlit("red");
                    assert("red"@.len() == 3 && "red"@[0] == 'r');
                    reveal_strlit("green");
                    assert("green"@.len() == 5 && "green"@[0] == 'g');
                }
                let a_red = match get_req_arr(fields, "red") {
                    Ok(v) => v,
                    Err(e) => {
                        return Err(e);
                    },
                };
                let v_red = match connectiondata_vec_from_json(a_red) {
                    Ok(v) => v,
                    Err(e) => {
                        return Err(e);
                    },
                };
                let a_green = match get_req_arr(fields, "green") {
                    Ok(v) => v,
                    Err(e) => {
                        return Err(e);
                    },
                };
                let v_green = match connectiondata_vec_from_json(a_green) {
                    Ok(v) => v,
                    Err(e) => {
                        return Err(e);
                    },
                };
                Ok(ConnectionPoint { red: v_red, green: v_green })
            },
            _ => Err(BpError::SchemaError(String::from_str("expected an object"))),
        }
    }
}

/// Wiring of one connector: its two points, keyed `1` and `2` on the wire.
#[derive(Debug, Clone)]
pub struct Connection {
    /// First connection point, the default for single-point entities.
    pub first: ConnectionPoint,
    /// Second connection point, such as a combinator output.
    pub second: ConnectionPoint,
}

impl Connection {
    /// Structural well-formedness: entity-number references are positive
    /// and nested values are themselves well-formed.
    pub open spec fn wf(self) -> bool {
        self.first.wf()
            && self.second.wf()
    }

    /// The wire shape of this value.
    pub open spec fn wire_jv(self) -> JsonV {
        let f = Seq::empty();
        let f = f.push(("1"@, self.first.wire_jv()));
        let f = f.push(("2"@, self.second.wire_jv()));
        JsonV::Obj(f)
    }

    /// Render to the wire shape.
    pub fn to_json(&self) -> (r: Json)
        ensures
            r.jv() == self.wire_jv(),
    {
        let mut fields: Vec<(String, Json)> = Vec::new();
        push_field(&mut fields, "1", self.first.to_json());
        push_field(&mut fields, "2", self.second.to_json());
        proof {
            lemma_obj_jv(fields);
            assert(fields_jv(fields@) =~= self.wire_jv()->Obj_0);
        }
        Json::Obj(fields)
    }

    /// Parse from the wire shape. The contract carries the mapping round
    /// trip: the rendered shape of any well-formed value parses back to a
    /// value with the same shape.
    pub fn from_json(j: &Json) -> (r: Result<Connection, BpError>)
        ensures
            forall|d: Connection|
                ((#[trigger] d.wire_jv()) == j.jv() && d.wf()) ==> (r matches Ok(d2)
                    && d2.wire_jv() == j.jv()),
            r matches Ok(d2) ==> d2.wf(),
            r matches Err(e) ==> e is SchemaError,
    {
        match j {
            Json::Obj(fields) => {
                proof {
                    lemma_obj_jv(*fields);
                    reveal_strlit("1");
                    assert("1"@.len() == 1 && "1"@[0] == '1');
                    reveal_strlit("2");
                    assert("2"@.len() == 1 && "2"@[0] == '2');
                }
                let v_first = match lookup(fields, "1") {
                    Some(jx) => match ConnectionPoint::from_json(jx) {
                        Ok(v) => v,
                        Err(e) => {
                            return Err(e);
                        },
                    },
                    None => {
                    return Err(BpError::SchemaError(String::from_str("missing member: 1")));
                },
                };
                let v_second = match lookup(fields, "2") {
                    Some(jx) => match ConnectionPoint::from_json(jx) {
                        Ok(v) => v,
                        Err(e) => {
                            return Err(e);
                        },
                    },
                    None => {
                    return Err(BpError::SchemaError(String::from_str("missing member: 2")));
                },
                };
                Ok(Connection { first: v_first, second: v_second })
            },
            _ => Err(BpError::SchemaError(String::from_str("expected an object"))),
        }
    }
}

/// The wire shape of a connector map: positive decimal keys to connections.
pub open spec fn connmap_jv(s: Seq<(u64, Connection)>) -> Seq<(Seq<char>, JsonV)> {
    Seq::new(s.len(), |i: int| (u64_dec(s[i].0 as nat), s[i].1.wire_jv()))
}

/// Every connector key is positive and distinct, and every connection is
/// well-formed.
pub open spec fn connmap_wf(s: Seq<(u64, Connection)>) -> bool {
    (forall|i: int| 0 <= i < s.len() ==> (#[trigger] s[i]).0 >= 1 && s[i].1.wf())
        && (forall|a: int, b: int|
        0 <= a < b < s.len() ==> (#[trigger] s[a]).0 != (#[trigger] s[b]).0)
}

/// Whether some entry of the connector map already uses the key `key`.
fn connmap_contains_key(v: &Vec<(u64, Connection)>, key: u64) -> (r: bool)
    ensures
        r == (exists|k: int| 0 <= k < v@.len() && (#[trigger] v@[k]).0 == key),
{
    let n = v.len();
    for i in 0..n
        invariant
            n == v.len(),
            forall|k: int| 0 <= k < i ==> (#[trigger] v@[k]).0 != key,
    {
        if v[i].0 == key {
            return true;
        }
    }
    false
}

/// Render a connector map into a wire object with decimal keys.
pub(crate) fn connmap_to_json(v: &Vec<(u64, Connection)>) -> (r: Json)
    ensures
        r.jv() == JsonV::Obj(connmap_jv(v@)),
{
    let mut out: Vec<(String, Json)> = Vec::new();
    let n = v.len();
    for i in 0..n
        invariant
            n == v.len(),
            out@.len() == i,
            forall|k: int|
                0 <= k < i ==> out@[k].0@ == u64_dec(v@[k].0 as nat) && out@[k].1.jv() == v@[
                    k
                ].1.wire_jv(),
    {
        let key = u64_to_dec(v[i].0);
        let jx = v[i].1.to_json();
        out.push((key, jx));
    }
    proof {
        lemma_obj_jv(out);
        assert(fields_jv(out@) =~= connmap_jv(v@));
    }
    Json::Obj(out)
}

/// Parse a wire object as a connector map. A key that is not a positive
/// decimal integer is a schema error; in particular the key `0` is refused,
/// and so is a key already used, read as a number.
pub(crate) fn connmap_from_json(o: &Vec<(String, Json)>) -> (r: Result<Vec<(u64, Connection)>, BpError>)
    ensures
        forall|ds: Seq<(u64, Connection)>|
            ((#[trigger] connmap_jv(ds)) == fields_jv(o@) && connmap_wf(ds)) ==> (r matches Ok(v2)
                && connmap_jv(v2@) == fields_jv(o@) && connmap_wf(v2@)),
        r matches Ok(v2) ==> connmap_wf(v2@),
        r matches Err(e) ==> e is SchemaError,
        (exists|i: int| 0 <= i < o@.len() && (#[trigger] fields_jv(o@)[i]).0 == "0"@) ==> (
        r matches Err(e) && e is SchemaError),
{
    proof {
        reveal_strlit("0");
        assert("0"@.len() == 1 && "0"@[0] == '0');
        assert("0"@.drop_last() =~= Seq::<char>::empty());
        assert("0"@.last() == '0');
        assert(digit_val('0') == 0);
        assert(dec_val(Seq::<char>::empty()) == 0);
        assert(dec_val("0"@) == 0);
        assert(is_digits("0"@));
    }
    let mut out: Vec<(u64, Connection)> = Vec::new();
    let n = o.len();
    for i in 0..n
        invariant
            n == o.len(),
            out@.len() == i,
            dec_val("0"@) == 0 && is_digits("0"@) && "0"@.len() == 1,
            forall|k: int| 0 <= k < i ==> (#[trigger] fields_jv(o@)[k]).0 != "0"@,
            forall|k: int| 0 <= k < i ==> (#[trigger] out@[k]).0 >= 1 && out@[k].1.wf(),
            connmap_wf(out@),
            forall|ds: Seq<(u64, Connection)>|
                ((#[trigger] connmap_jv(ds)) == fields_jv(o@) && connmap_wf(ds)) ==> (forall|
                    k: int,
                |
                    0 <= k < i ==> (u64_dec((#[trigger] out@[k]).0 as nat), out@[k].1.wire_jv())
                        == fields_jv(o@)[k]),
    {
        proof {
            assert forall|ds: Seq<(u64, Connection)>|
                ((#[trigger] connmap_jv(ds)) == fields_jv(o@) && connmap_wf(ds)) implies (fields_jv(o@)[i as int]
                == (u64_dec(ds[i as int].0 as nat), ds[i as int].1.wire_jv()) && ds[i as int].0
                >= 1 && ds[i as int].1.wf()) by {
                assert(connmap_jv(ds).len() == ds.len());
                assert(fields_jv(o@).len() == o@.len());
                assert(connmap_jv(ds)[i as int] == (
                    u64_dec(ds[i as int].0 as nat),
                    ds[i as int].1.wire_jv(),
                ));
            }
            assert(fields_jv(o@)[i as int] == (o@[i as int].0@, o@[i as int].1.jv()));
        }
        let key = match parse_u64(o[i].0.as_str()) {
            Some(nv) => nv,
            None => {
                return Err(BpError::SchemaError(String::from_str("connector key is not a number")));
            },
        };
        if key == 0 {
            return Err(BpError::SchemaError(String::from_str("connector key 0 is invalid")));
        }
        if connmap_contains_key(&out, key) {
            proof {
                assert forall|ds: Seq<(u64, Connection)>|
                    ((#[trigger] connmap_jv(ds)) == fields_jv(o@) && connmap_wf(ds)) implies false by {
                    let k = choose|k: int| 0 <= k < out@.len() && (#[trigger] out@[k]).0 == key;
                    assert(connmap_jv(ds).len() == ds.len());
                    assert(fields_jv(o@).len() == o@.len());
                    assert(connmap_jv(ds)[k] == (u64_dec(ds[k].0 as nat), ds[k].1.wire_jv()));
                    assert(connmap_jv(ds)[i as int] == (
                        u64_dec(ds[i as int].0 as nat),
                        ds[i as int].1.wire_jv(),
                    ));
                    assert(fields_jv(o@)[i as int] == (o@[i as int].0@, o@[i as int].1.jv()));
                    assert(dec_val(u64_dec(ds[k].0 as nat)) == ds[k].0);
                    assert(dec_val(u64_dec(out@[k].0 as nat)) == out@[k].0);
                    assert(ds[k].0 == out@[k].0);
                    assert(dec_val(u64_dec(ds[i as int].0 as nat)) == ds[i as int].0);
                    assert(ds[i as int].0 == key);
                    assert(ds[k].0 == ds[i as int].0);
                }
            }
            return Err(BpError::SchemaError(String::from_str("duplicate connector key")));
        }
        let conn = match Connection::from_json(&o[i].1) {
            Ok(v) => v,
            Err(e) => {
                proof {
                    assert forall|ds: Seq<(u64, Connection)>|
                        ((#[trigger] connmap_jv(ds)) == fields_jv(o@) && connmap_wf(ds)) implies false by {
                        assert(connmap_jv(ds).len() == ds.len());
                        assert(fields_jv(o@).len() == o@.len());
                        assert(connmap_jv(ds)[i as int] == (
                            u64_dec(ds[i as int].0 as nat),
                            ds[i as int].1.wire_jv(),
                        ));
                    }
                }
                return Err(e);
            },
        };
        out.push((key, conn));
        proof {
            assert(o@[i as int].0@ != "0"@);
            assert forall|ds: Seq<(u64, Connection)>|
                ((#[trigger] connmap_jv(ds)) == fields_jv(o@) && connmap_wf(ds)) implies (forall|k: int|
                0 <= k < i + 1 ==> (u64_dec((#[trigger] out@[k]).0 as nat), out@[k].1.wire_jv())
                    == fields_jv(o@)[k]) by {
                assert(connmap_jv(ds).len() == ds.len());
                assert(fields_jv(o@).len() == o@.len());
                assert(connmap_jv(ds)[i as int] == (
                    u64_dec(ds[i as int].0 as nat),
                    ds[i as int].1.wire_jv(),
                ));
                assert((u64_dec(out@[i as int].0 as nat), out@[i as int].1.wire_jv())
                    == fields_jv(o@)[i as int]);
                assert forall|k: int| 0 <= k < i + 1 implies (
                u64_dec((#[trigger] out@[k]).0 as nat),
                out@[k].1.wire_jv(),
                ) == fields_jv(o@)[k] by {
                }
            }
        }
    }
    proof {
        assert forall|ds: Seq<(u64, Connection)>|
            ((#[trigger] connmap_jv(ds)) == fields_jv(o@) && connmap_wf(ds)) implies (connmap_jv(out@)
            == fields_jv(o@)) by {
            assert(connmap_jv(out@) =~= fields_jv(o@));
        }
    }
    Ok(out)
}

/// The schema-undocumented circuit condition payload: an untyped,
/// order-preserving bag of named values, carried through unchanged.
#[derive(Debug)]
pub struct CircuitCondition {
    /// The named values of the payload, in wire order.
    pub entries: Vec<(String, Json)>,
}

impl CircuitCondition {
    /// Structural well-formedness.
    pub open spec fn wf(self) -> bool {
        true
    }

    /// The wire shape of this value: the bag itself.
    pub open spec fn wire_jv(self) -> JsonV {
        JsonV::Obj(fields_jv(self.entries@))
    }

    /// Render to the wire shape.
    pub fn to_json(&self) -> (r: Json)
        ensures
            r.jv() == self.wire_jv(),
    {
        let out = clone_members(&self.entries);
        proof {
            lemma_obj_jv(out);
        }
        Json::Obj(out)
    }

    /// Parse from the wire shape: any object is accepted and kept verbatim.
    pub fn from_json(j: &Json) -> (r: Result<CircuitCondition, BpError>)
        ensures
            forall|d: CircuitCondition|
                ((#[trigger] d.wire_jv()) == j.jv() && d.wf()) ==> (r matches Ok(d2)
                    && d2.wire_jv() == j.jv()),
            r matches Ok(d2) ==> d2.wf(),
            r matches Err(e) ==> e is SchemaError,
    {
        match j {
            Json::Obj(fields) => {
                proof {
                    lemma_obj_jv(*fields);
                }
                Ok(CircuitCondition { entries: clone_members(fields) })
            },
            _ => Err(BpError::SchemaError(String::from_str("expected an object"))),
        }
    }
}


/// One clause of a train schedule stop condition.
#[derive(Debug)]
pub struct WaitCondition {
    /// The wait condition kind; its wire member is named `type`.
    pub condition_type: ConditionType,
    /// How this clause combines with its predecessor.
    pub compare_type: CompareType,
    /// Tick count; present for the time and inactivity kinds.
    pub ticks: Option<u64>,
    /// Opaque circuit condition payload; present for circuit and count kinds.
    pub condition: Option<CircuitCondition>,
}

impl WaitCondition {
    /// Structural well-formedness: entity-number references are positive
    /// and nested values are themselves well-formed.
    pub open spec fn wf(self) -> bool {
        (self.condition matches Some(x) ==> x.wf())
    }

    /// The wire shape of this value.
    pub open spec fn wire_jv(self) -> JsonV {
        let f = Seq::empty();
        let f = f.push(("type"@, JsonV::Str(self.condition_type.spec_wire())));
        let f = f.push(("compare_type"@, JsonV::Str(self.compare_type.spec_wire())));
        let f = if self.ticks is Some {
            f.push(("ticks"@, JsonV::Num(u64_dec(self.ticks.unwrap() as nat))))
        } else {
            f
        };
        let f = if self.condition is Some {
            f.push(("condition"@, self.condition.unwrap().wire_jv()))
        } else {
            f
        };
        JsonV::Obj(f)
    }

    /// Render to the wire shape.
    pub fn to_json(&self) -> (r: Json)
        ensures
            r.jv() == self.wire_jv(),
    {
        let mut fields: Vec<(String, Json)> = Vec::new();
        push_field(&mut fields, "type", Json::Str(String::from_str(self.condition_type.wire_name())));
        push_field(&mut fields, "compare_type", Json::Str(String::from_str(self.compare_type.wire_name())));
        if let Some(v) = &self.ticks {
            push_field(&mut fields, "ticks", Json::Num(u64_to_dec(*v)));
        }
        if let Some(v) = &self.condition {
            push_field(&mut fields, "condition", v.to_json());
        }
        proof {
            lemma_obj_jv(fields);
            assert(fields_jv(fields@) =~= self.wire_jv()->Obj_0);
        }
        Json::Obj(fields)
    }

    /// Parse from the wire shape. The contract carries the mapping round
    /// trip: the rendered shape of any well-formed value parses back to a
    /// value with the same shape.
    pub fn from_json(j: &Json) -> (r: Result<WaitCondition, BpError>)
        ensures
            forall|d: WaitCondition|
                ((#[trigger] d.wire_jv()) == j.jv() && d.wf()) ==> (r matches Ok(d2)
                    && d2.wire_jv() == j.jv()),
            r matches Ok(d2) ==> d2.wf(),
            r matches Err(e) ==> e is SchemaError,
    {
        match j {
            Json::Obj(fields) => {
                proof {
                    lemma_obj_jv(*fields);
                    reveal_strlit("type");
                    assert("type"@.len() == 4 && "type"@[0] == 't');
                    reveal_strlit("compare_type");
                    assert("compare_type"@.len() == 12 && "compare_type"@[0] == 'c');
                    reveal_strlit("ticks");
                    assert("ticks"@.len() == 5 && "ticks"@[0] == 't');
                    reveal_strlit("condition");
                    assert("condition"@.len() == 9 && "condition"@[0] == 'c');
                }
                let s_condition_type = match get_req_str(fields, "type") {
                    Ok(v) => v,
                    Err(e) => {
                        return Err(e);
                    },
                };
                let v_condition_type = match ConditionType::from_wire(s_condition_type.as_str()) {
                    Ok(v) => v,
                    Err(e) => {
                        return Err(e);
                    },
                };
                let s_compare_type = match get_req_str(fields, "compare_type") {
                    Ok(v) => v,
                    Err(e) => {
                        return Err(e);
                    },
                };
                let v_compare_type = match CompareType::from_wire(s_compare_type.as_str()) {
                    Ok(v) => v,
                    Err(e) => {
                        return Err(e);
                    },
                };
                let v_ticks = match lookup(fields, "ticks") {
                    None => None,
                    Some(jx) => match jx {
                        Json::Num(t) => match parse_u64(t.as_str()) {
                            Some(nv) => Some(nv),
                            None => {
                    return Err(BpError::SchemaError(String::from_str("mistyped member: ticks")));
                },
                        },
                        _ => {
                    return Err(BpError::SchemaError(String::from_str("mistyped member: ticks")));
                },
                    },
                };
                let v_condition = match lookup(fields, "condition") {
                    None => None,
                    Some(jx) => match jx {
                        Json::Obj(ov) => {
                            proof {
                                lemma_obj_jv(*ov);
                            }
                            Some(CircuitCondition { entries: clone_members(ov) })
                        },
                        _ => {
                    return Err(BpError::SchemaError(String::from_str("mistyped member: condition")));
                },
                    },
                };
                Ok(WaitCondition { condition_type: v_condition_type, compare_type: v_compare_type, ticks: v_ticks, condition: v_condition })
            },
            _ => Err(BpError::SchemaError(String::from_str("expected an object"))),
        }
    }
}

/// The wire shapes of a sequence of [`WaitCondition`] values.
pub open spec fn waitcondition_seq_jv(s: Seq<WaitCondition>) -> Seq<JsonV> {
    Seq::new(s.len(), |i: int| s[i].wire_jv())
}

/// Every element of the sequence is well-formed.
pub open spec fn waitcondition_seq_wf(s: Seq<WaitCondition>) -> bool {
    forall|i: int| 0 <= i < s.len() ==> (#[trigger] s[i]).wf()
}

/// Render each element into a wire array.
fn waitcondition_vec_to_json(v: &Vec<WaitCondition>) -> (r: Json)
    ensures
        r.jv() == JsonV::Arr(waitcondition_seq_jv(v@)),
{
    let mut out: Vec<Json> = Vec::new();
    let n = v.len();
    for i in 0..n
        invariant
            n == v.len(),
            out@.len() == i,
            forall|k: int| 0 <= k < i ==> out@[k].jv() == waitcondition_seq_jv(v@)[k],
    {
        let jx = v[i].to_json();
        out.push(jx);
    }
    proof {
        lemma_arr_jv(out);
        assert(arr_jv(out@) =~= waitcondition_seq_jv(v@));
    }
    Json::Arr(out)
}

/// Parse each element of a wire array as a [`WaitCondition`] value.
fn waitcondition_vec_from_json(a: &Vec<Json>) -> (r: Result<Vec<WaitCondition>, BpError>)
    ensures
        forall|ds: Seq<WaitCondition>|
            ((#[trigger] waitcondition_seq_jv(ds)) == arr_jv(a@) && waitcondition_seq_wf(ds)) ==> (r matches Ok(v2)
                && waitcondition_seq_jv(v2@) == arr_jv(a@) && waitcondition_seq_wf(v2@)),
        r matches Ok(v2) ==> waitcondition_seq_wf(v2@),
        r matches Err(e) ==> e is SchemaError,
{
    let mut out: Vec<WaitCondition> = Vec::new();
    let n = a.len();
    for i in 0..n
        invariant
            n == a.len(),
            out@.len() == i,
            forall|k: int| 0 <= k < i ==> (#[trigger] out@[k]).wf(),
            forall|ds: Seq<WaitCondition>|
                ((#[trigger] waitcondition_seq_jv(ds)) == arr_jv(a@) && waitcondition_seq_wf(ds)) ==> (forall|k: int|
                    0 <= k < i ==> (#[trigger] out@[k]).wire_jv() == arr_jv(a@)[k]),
    {
        let e = match WaitCondition::from_json(&a[i]) {
            Ok(v) => v,
            Err(er) => {
                proof {
                    assert forall|ds: Seq<WaitCondition>|
                        ((#[trigger] waitcondition_seq_jv(ds)) == arr_jv(a@) && waitcondition_seq_wf(ds)) implies false by {
                        assert(waitcondition_seq_jv(ds).len() == ds.len());
                        assert(arr_jv(a@).len() == a@.len());
                        assert(waitcondition_seq_jv(ds)[i as int] == ds[i as int].wire_jv());
                        assert(arr_jv(a@)[i as int] == a@[i as int].jv());
                        assert(ds[i as int].wf());
                    }
                }
                return Err(er);
            },
        };
        out.push(e);
        proof {
            assert forall|ds: Seq<WaitCondition>|
                ((#[trigger] waitcondition_seq_jv(ds)) == arr_jv(a@) && waitcondition_seq_wf(ds)) implies (forall|k: int|
                0 <= k < i + 1 ==> (#[trigger] out@[k]).wire_jv() == arr_jv(a@)[k]) by {
                assert(waitcondition_seq_jv(ds).len() == ds.len());
                assert(arr_jv(a@).len() == a@.len());
                assert(waitcondition_seq_jv(ds)[i as int] == ds[i as int].wire_jv());
                assert(arr_jv(a@)[i as int] == a@[i as int].jv());
                assert(ds[i as int].wf());
                assert(out@[i as int].wire_jv() == arr_jv(a@)[i as int]);
                assert forall|k: int| 0 <= k < i + 1 implies (#[trigger] out@[k]).wire_jv()
                    == arr_jv(a@)[k] by {
                }
            }
        }
    }
    proof {
        assert forall|ds: Seq<WaitCondition>|
            ((#[trigger] waitcondition_seq_jv(ds)) == arr_jv(a@) && waitcondition_seq_wf(ds)) implies (waitcondition_seq_jv(out@) == arr_jv(
            a@,
        )) by {
            assert(waitcondition_seq_jv(out@) =~= arr_jv(a@));
        }
    }
    Ok(out)
}


/// One stop of a train schedule.
#[derive(Debug)]
pub struct ScheduleRecord {
    /// Name of the stop.
    pub station: String,
    /// Wait conditions of the stop, in order.
    pub wait_conditions: Vec<WaitCondition>,
}

impl ScheduleRecord {
    /// Structural well-formedness: entity-number references are positive
    /// and nested values are themselves well-formed.
    pub open spec fn wf(self) -> bool {
        waitcondition_seq_wf(self.wait_conditions@)
    }

    /// The wire shape of this value.
    pub open spec fn wire_jv(self) -> JsonV {
        let f = Seq::empty();
        let f = f.push(("station"@, JsonV::Str(self.station@)));
        let f = f.push(("wait_conditions"@, JsonV::Arr(waitcondition_seq_jv(self.wait_conditions@))));
        JsonV::Obj(f)
    }

    /// Render to the wire shape.
    pub fn to_json(&self) -> (r: Json)
        ensures
            r.jv() == self.wire_jv(),
    {
        let mut fields: Vec<(String, Json)> = Vec::new();
        push_field(&mut fields, "station", Json::Str(self.station.clone()));
        push_field(&mut fields, "wait_conditions", waitcondition_vec_to_json(&self.wait_conditions));
        proof {
            lemma_obj_jv(fields);
            assert(fields_jv(fields@) =~= self.wire_jv()->Obj_0);
        }
        Json::Obj(fields)
    }

    /// Parse from the wire shape. The contract carries the mapping round
    /// trip: the rendered shape of any well-formed value parses back to a
    /// value with the same shape.
    pub fn from_json(j: &Json) -> (r: Result<ScheduleRecord, BpError>)
        ensures
            forall|d: ScheduleRecord|
                ((#[trigger] d.wire_jv()) == j.jv() && d.wf()) ==> (r matches Ok(d2)
                    && d2.wire_jv() == j.jv()),
            r matches Ok(d2) ==> d2.wf(),
            r matches Err(e) ==> e is SchemaError,
    {
        match j {
            Json::Obj(fields) => {
                proof {
                    lemma_obj_jv(*fields);
                    reveal_strlit("station");
                    assert("station"@.len() == 7 && "station"@[0] == 's');
                    reveal_strlit("wait_conditions");
                    assert("wait_conditions"@.len() == 15 && "wait_conditions"@[0] == 'w');
                }
                let v_station = match get_req_str(fields, "station") {
                    Ok(v) => v,
                    Err(e) => {
                        return Err(e);
                    },
                };
                let a_wait_conditions = match get_req_arr(fields, "wait_conditions") {
                    Ok(v) => v,
                    Err(e) => {
                        return Err(e);
                    },
                };
                let v_wait_conditions = match waitcondition_vec_from_json(a_wait_conditions) {
                    Ok(v) => v,
                    Err(e) => {
                        return Err(e);
                    },
                };
                Ok(ScheduleRecord { station: v_station, wait_conditions: v_wait_conditions })
            },
            _ => Err(BpError::SchemaError(String::from_str("expected an object"))),
        }
    }
}

/// The wire shapes of a sequence of [`ScheduleRecord`] values.
pub open spec fn schedulerecord_seq_jv(s: Seq<ScheduleRecord>) -> Seq<JsonV> {
    Seq::new(s.len(), |i: int| s[i].wire_jv())
}

/// Every element of the sequence is well-formed.
pub open spec fn schedulerecord_seq_wf(s: Seq<ScheduleRecord>) -> bool {
    forall|i: int| 0 <= i < s.len() ==> (#[trigger] s[i]).wf()
}

/// Render each element into a wire array.
fn schedulerecord_vec_to_json(v: &Vec<ScheduleRecord>) -> (r: Json)
    ensures
        r.jv() == JsonV::Arr(schedulerecord_seq_jv(v@)),
{
    let mut out: Vec<Json> = Vec::new();
    let n = v.len();
    for i in 0..n
        invariant
            n == v.len(),
            out@.len() == i,
            forall|k: int| 0 <= k < i ==> out@[k].jv() == schedulerecord_seq_jv(v@)[k],
    {
        let jx = v[i].to_json();
        out.push(jx);
    }
    proof {
        lemma_arr_jv(out);
        assert(arr_jv(out@) =~= schedulerecord_seq_jv(v@));
    }
    Json::Arr(out)
}

/// Parse each element of a wire array as a [`ScheduleRecord`] value.
fn schedulerecord_vec_from_json(a: &Vec<Json>) -> (r: Result<Vec<ScheduleRecord>, BpError>)
    ensures
        forall|ds: Seq<ScheduleRecord>|
            ((#[trigger] schedulerecord_seq_jv(ds)) == arr_jv(a@) && schedulerecord_seq_wf(ds)) ==> (r matches Ok(v2)
                && schedulerecord_seq_jv(v2@) == arr_jv(a@) && schedulerecord_seq_wf(v2@)),
        r matches Ok(v2) ==> schedulerecord_seq_wf(v2@),
        r matches Err(e) ==> e is SchemaError,
{
    let mut out: Vec<ScheduleRecord> = Vec::new();
    let n = a.len();
    for i in 0..n
        invariant
            n == a.len(),
            out@.len() == i,
            forall|k: int| 0 <= k < i ==> (#[trigger] out@[k]).wf(),
            forall|ds: Seq<ScheduleRecord>|
                ((#[trigger] schedulerecord_seq_jv(ds)) == arr_jv(a@) && schedulerecord_seq_wf(ds)) ==> (forall|k: int|
                    0 <= k < i ==> (#[trigger] out@[k]).wire_jv() == arr_jv(a@)[k]),
    {
        let e = match ScheduleRecord::from_json(&a[i]) {
            Ok(v) => v,
            Err(er) => {
                proof {
                    assert forall|ds: Seq<ScheduleRecord>|
                        ((#[trigger] schedulerecord_seq_jv(ds)) == arr_jv(a@) && schedulerecord_seq_wf(ds)) implies false by {
                        assert(schedulerecord_seq_jv(ds).len() == ds.len());
                        assert(arr_jv(a@).len() == a@.len());
                        assert(schedulerecord_seq_jv(ds)[i as int] == ds[i as int].wire_jv());
                        assert(arr_jv(a@)[i as int] == a@[i as int].jv());
                        assert(ds[i as int].wf());
                    }
                }
                return Err(er);
            },
        };
        out.push(e);
        proof {
            assert forall|ds: Seq<ScheduleRecord>|
                ((#[trigger] schedulerecord_seq_jv(ds)) == arr_jv(a@) && schedulerecord_seq_wf(ds)) implies (forall|k: int|
                0 <= k < i + 1 ==> (#[trigger] out@[k]).wire_jv() == arr_jv(a@)[k]) by {
                assert(schedulerecord_seq_jv(ds).len() == ds.len());
                assert(arr_jv(a@).len() == a@.len());
                assert(schedulerecord_seq_jv(ds)[i as int] == ds[i as int].wire_jv());
                assert(arr_jv(a@)[i as int] == a@[i as int].jv());
                assert(ds[i as int].wf());
                assert(out@[i as int].wire_jv() == arr_jv(a@)[i as int]);
                assert forall|k: int| 0 <= k < i + 1 implies (#[trigger] out@[k]).wire_jv()
                    == arr_jv(a@)[k] by {
                }
            }
        }
    }
    proof {
        assert forall|ds: Seq<ScheduleRecord>|
            ((#[trigger] schedulerecord_seq_jv(ds)) == arr_jv(a@) && schedulerecord_seq_wf(ds)) implies (schedulerecord_seq_jv(out@) == arr_jv(
            a@,
        )) by {
            assert(schedulerecord_seq_jv(out@) =~= arr_jv(a@));
        }
    }
    Ok(out)
}


/// A train schedule: stops bound to the locomotives that use them.
#[derive(Debug)]
pub struct Schedule {
    /// The stop records, in order.
    pub schedule: Vec<ScheduleRecord>,
    /// Entity numbers of locomotives using this schedule; non-owning references.
    pub locomotives: Vec<u64>,
}

impl Schedule {
    /// Structural well-formedness: entity-number references are positive
    /// and nested values are themselves well-formed.
    pub open spec fn wf(self) -> bool {
        schedulerecord_seq_wf(self.schedule@)
            && u64s_pos(self.locomotives@)
    }

    /// The wire shape of this value.
    pub open spec fn wire_jv(self) -> JsonV {
        let f = Seq::empty();
        let f = f.push(("schedule"@, JsonV::Arr(schedulerecord_seq_jv(self.schedule@))));
        let f = f.push(("locomotives"@, JsonV::Arr(u64s_jv(self.locomotives@))));
        JsonV::Obj(f)
    }

    /// Render to the wire shape.
    pub fn to_json(&self) -> (r: Json)
        ensures
            r.jv() == self.wire_jv(),
    {
        let mut fields: Vec<(String, Json)> = Vec::new();
        push_field(&mut fields, "schedule", schedulerecord_vec_to_json(&self.schedule));
        push_field(&mut fields, "locomotives", u64vec_to_json(&self.locomotives));
        proof {
            lemma_obj_jv(fields);
            assert(fields_jv(fields@) =~= self.wire_jv()->Obj_0);
        }
        Json::Obj(fields)
    }

    /// Parse from the wire shape. The contract carries the mapping round
    /// trip: the rendered shape of any well-formed value parses back to a
    /// value with the same shape.
    pub fn from_json(j: &Json) -> (r: Result<Schedule, BpError>)
        ensures
            forall|d: Schedule|
                ((#[trigger] d.wire_jv()) == j.jv() && d.wf()) ==> (r matches Ok(d2)
                    && d2.wire_jv() == j.jv()),
            r matches Ok(d2) ==> d2.wf(),
            r matches Err(e) ==> e is SchemaError,
    {
        match j {
            Json::Obj(fields) => {
                proof {
                    lemma_obj_jv(*fields);
                    reveal_strlit("schedule");
                    assert("schedule"@.len() == 8 && "schedule"@[0] == 's');
                    reveal_strlit("locomotives");
                    assert("locomotives"@.len() == 11 && "locomotives"@[0] == 'l');
                }
                let a_schedule = match get_req_arr(fields, "schedule") {
                    Ok(v) => v,
                    Err(e) => {
                        return Err(e);
                    },
                };
                let v_schedule = match schedulerecord_vec_from_json(a_schedule) {
                    Ok(v) => v,
                    Err(e) => {
                        return Err(e);
                    },
                };
                let a_locomotives = match get_req_arr(fields, "locomotives") {
                    Ok(v) => v,
                    Err(e) => {
                        return Err(e);
                    },
                };
                let v_locomotives = match u64vec_from_json(a_locomotives) {
                    Ok(v) => v,
                    Err(e) => {
                        return Err(e);
                    },
                };
                Ok(Schedule { schedule: v_schedule, locomotives: v_locomotives })
            },
            _ => Err(BpError::SchemaError(String::from_str("expected an object"))),
        }
    }
}

/// The wire shapes of a sequence of [`Schedule`] values.
pub open spec fn schedule_seq_jv(s: Seq<Schedule>) -> Seq<JsonV> {
    Seq::new(s.len(), |i: int| s[i].wire_jv())
}

/// Every element of the sequence is well-formed.
pub open spec fn schedule_seq_wf(s: Seq<Schedule>) -> bool {
    forall|i: int| 0 <= i < s.len() ==> (#[trigger] s[i]).wf()
}

/// Render each element into a wire array.
fn schedule_vec_to_json(v: &Vec<Schedule>) -> (r: Json)
    ensures
        r.jv() == JsonV::Arr(schedule_seq_jv(v@)),
{
    let mut out: Vec<Json> = Vec::new();
    let n = v.len();
    for i in 0..n
        invariant
            n == v.len(),
            out@.len() == i,
            forall|k: int| 0 <= k < i ==> out@[k].jv() == schedule_seq_jv(v@)[k],
    {
        let jx = v[i].to_json();
        out.push(jx);
    }
    proof {
        lemma_arr_jv(out);
        assert(arr_jv(out@) =~= schedule_seq_jv(v@));
    }
    Json::Arr(out)
}

/// Parse each element of a wire array as a [`Schedule`] value.
fn schedule_vec_from_json(a: &Vec<Json>) -> (r: Result<Vec<Schedule>, BpError>)
    ensures
        forall|ds: Seq<Schedule>|
            ((#[trigger] schedule_seq_jv(ds)) == arr_jv(a@) && schedule_seq_wf(ds)) ==> (r matches Ok(v2)
                && schedule_seq_jv(v2@) == arr_jv(a@) && schedule_seq_wf(v2@)),
        r matches Ok(v2) ==> schedule_seq_wf(v2@),
        r matches Err(e) ==> e is SchemaError,
{
    let mut out: Vec<Schedule> = Vec::new();
    let n = a.len();
    for i in 0..n
        invariant
            n == a.len(),
            out@.len() == i,
            forall|k: int| 0 <= k < i ==> (#[trigger] out@[k]).wf(),
            forall|ds: Seq<Schedule>|
                ((#[trigger] schedule_seq_jv(ds)) == arr_jv(a@) && schedule_seq_wf(ds)) ==> (forall|k: int|
                    0 <= k < i ==> (#[trigger] out@[k]).wire_jv() == arr_jv(a@)[k]),
    {
        let e = match Schedule::from_json(&a[i]) {
            Ok(v) => v,
            Err(er) => {
                proof {
                    assert forall|ds: Seq<Schedule>|
                        ((#[trigger] schedule_seq_jv(ds)) == arr_jv(a@) && schedule_seq_wf(ds)) implies false by {
                        assert(schedule_seq_jv(ds).len() == ds.len());
                        assert(arr_jv(a@).len() == a@.len());
                        assert(schedule_seq_jv(ds)[i as int] == ds[i as int].wire_jv());
                        assert(arr_jv(a@)[i as int] == a@[i as int].jv());
                        assert(ds[i as int].wf());
                    }
                }
                return Err(er);
            },
        };
        out.push(e);
        proof {
            assert forall|ds: Seq<Schedule>|
                ((#[trigger] schedule_seq_jv(ds)) == arr_jv(a@) && schedule_seq_wf(ds)) implies (forall|k: int|
                0 <= k < i + 1 ==> (#[trigger] out@[k]).wire_jv() == arr_jv(a@)[k]) by {
                assert(schedule_seq_jv(ds).len() == ds.len());
                assert(arr_jv(a@).len() == a@.len());
                assert(schedule_seq_jv(ds)[i as int] == ds[i as int].wire_jv());
                assert(arr_jv(a@)[i as int] == a@[i as int].jv());
                assert(ds[i as int].wf());
                assert(out@[i as int].wire_jv() == arr_jv(a@)[i as int]);
                assert forall|k: int| 0 <= k < i + 1 implies (#[trigger] out@[k]).wire_jv()
                    == arr_jv(a@)[k] by {
                }
            }
        }
    }
    proof {
        assert forall|ds: Seq<Schedule>|
            ((#[trigger] schedule_seq_jv(ds)) == arr_jv(a@) && schedule_seq_wf(ds)) implies (schedule_seq_jv(out@) == arr_jv(
            a@,
        )) by {
            assert(schedule_seq_jv(out@) =~= arr_jv(a@));
        }
    }
    Ok(out)
}



/// A blueprint: placed structures, tiles, icons and train schedules.
#[derive(Debug)]
pub struct Blueprint {
    /// Name of the item that was saved.
    pub item: String,
    /// Name of the blueprint set by the user.
    pub label: String,
    /// Color of the label.
    pub label_color: Color,
    /// The placed structures, in order.
    pub entities: Vec<Entity>,
    /// The floor tiles, in order.
    pub tiles: Vec<Tile>,
    /// The icons set by the user, in order.
    pub icons: Vec<Icon>,
    /// The train schedules, in order.
    pub schedules: Vec<Schedule>,
    /// Map version the blueprint was created in.
    pub version: Version,
}

impl Blueprint {
    /// Structural well-formedness: entity-number references are positive
    /// and nested values are themselves well-formed.
    pub open spec fn wf(self) -> bool {
        self.label_color.wf()
            && entity_seq_wf(self.entities@)
            && tile_seq_wf(self.tiles@)
            && icon_seq_wf(self.icons@)
            && schedule_seq_wf(self.schedules@)
    }

    /// The wire shape of this value.
    pub open spec fn wire_jv(self) -> JsonV {
        let f = Seq::empty();
        let f = f.push(("item"@, JsonV::Str(self.item@)));
        let f = f.push(("label"@, JsonV::Str(self.label@)));
        let f = f.push(("label_color"@, self.label_color.wire_jv()));
        let f = f.push(("entities"@, JsonV::Arr(entity_seq_jv(self.entities@))));
        let f = f.push(("tiles"@, JsonV::Arr(tile_seq_jv(self.tiles@))));
        let f = f.push(("icons"@, JsonV::Arr(icon_seq_jv(self.icons@))));
        let f = f.push(("schedules"@, JsonV::Arr(schedule_seq_jv(self.schedules@))));
        let f = f.push(("version"@, JsonV::Num(u64_dec(spec_pack(self.version.major, self.version.minor, self.version.patch, self.version.developer) as nat))));
        JsonV::Obj(f)
    }

    /// Render to the wire shape.
    #[verifier::rlimit(40)]
    pub fn to_json(&self) -> (r: Json)
        ensures
            r.jv() == self.wire_jv(),
    {
        let mut fields: Vec<(String, Json)> = Vec::new();
        push_field(&mut fields, "item", Json::Str(self.item.clone()));
        push_field(&mut fields, "label", Json::Str(self.label.clone()));
        push_field(&mut fields, "label_color", self.label_color.to_json());
        push_field(&mut fields, "entities", entity_vec_to_json(&self.entities));
        push_field(&mut fields, "tiles", tile_vec_to_json(&self.tiles));
        push_field(&mut fields, "icons", icon_vec_to_json(&self.icons));
        push_field(&mut fields, "schedules", schedule_vec_to_json(&self.schedules));
        push_field(&mut fields, "version", Json::Num(u64_to_dec(self.version.pack())));
        proof {
            lemma_obj_jv(fields);
            assert(fields_jv(fields@) =~= self.wire_jv()->Obj_0);
        }
        Json::Obj(fields)
    }

    /// Parse from the wire shape. The contract carries the mapping round
    /// trip: the rendered shape of any well-formed value parses back to a
    /// value with the same shape.
    #[verifier::rlimit(40)]
    pub fn from_json(j: &Json) -> (r: Result<Blueprint, BpError>)
        ensures
            forall|d: Blueprint|
                ((#[trigger] d.wire_jv()) == j.jv() && d.wf()) ==> (r matches Ok(d2)
                    && d2.wire_jv() == j.jv()),
            r matches Ok(d2) ==> d2.wf(),
            r matches Err(e) ==> e is SchemaError,
    {
        match j {
            Json::Obj(fields) => {
                proof {
                    lemma_obj_jv(*fields);
                    reveal_strlit("item");
                    assert("item"@.len() == 4 && "item"@[0] == 'i');
                    reveal_strlit("label");
                    assert("label"@.len() == 5 && "label"@[0] == 'l');
                    reveal_strlit("label_color");
                    assert("label_color"@.len() == 11 && "label_color"@[0] == 'l');
                    reveal_strlit("entities");
                    assert("entities"@.len() == 8 && "entities"@[0] == 'e');
                    reveal_strlit("tiles");
                    assert("tiles"@.len() == 5 && "tiles"@[0] == 't');
                    reveal_strlit("icons");
                    assert("icons"@.len() == 5 && "icons"@[0] == 'i');
                    reveal_strlit("schedules");
                    assert("schedules"@.len() == 9 && "schedules"@[0] == 's');
                    reveal_strlit("version");
                    assert("version"@.len() == 7 && "version"@[0] == 'v');
                }
                let v_item = match get_req_str(fields, "item") {
                    Ok(v) => v,
                    Err(e) => {
                        return Err(e);
                    },
                };
                let v_label = match get_req_str(fields, "label") {
                    Ok(v) => v,
                    Err(e) => {
                        return Err(e);
                    },
                };
                let v_label_color = match lookup(fields, "label_color") {
                    Some(jx) => match Color::from_json(jx) {
                        Ok(v) => v,
                        Err(e) => {
                            return Err(e);
                        },
                    },
                    None => {
                    return Err(BpError::SchemaError(String::from_str("missing member: label_color")));
                },
                };
                let a_entities = match get_req_arr(fields, "entities") {
                    Ok(v) => v,
                    Err(e) => {
                        return Err(e);
                    },
                };
                let v_entities = match entity_vec_from_json(a_entities) {
                    Ok(v) => v,
                    Err(e) => {
                        return Err(e);
                    },
                };
                let a_tiles = match get_req_arr(fields, "tiles") {
                    Ok(v) => v,
                    Err(e) => {
                        return Err(e);
                    },
                };
                let v_tiles = match tile_vec_from_json(a_tiles) {
                    Ok(v) => v,
                    Err(e) => {
                        return Err(e);
                    },
                };
                let a_icons = match get_req_arr(fields, "icons") {
                    Ok(v) => v,
                    Err(e) => {
                        return Err(e);
                    },
                };
                let v_icons = match icon_vec_from_json(a_icons) {
                    Ok(v) => v,
                    Err(e) => {
                        return Err(e);
                    },
                };
                let a_schedules = match get_req_arr(fields, "schedules") {
                    Ok(v) => v,
                    Err(e) => {
                        return Err(e);
                    },
                };
                let v_schedules = match schedule_vec_from_json(a_schedules) {
                    Ok(v) => v,
                    Err(e) => {
                        return Err(e);
                    },
                };
                let r_version = match get_req_u64(fields, "version") {
                    Ok(v) => v,
                    Err(e) => {
                        return Err(e);
                    },
                };
                let v_version = Version::unpack(r_version);
                Ok(Blueprint { item: v_item, label: v_label, label_color: v_label_color, entities: v_entities, tiles: v_tiles, icons: v_icons, schedules: v_schedules, version: v_version })
            },
            _ => Err(BpError::SchemaError(String::from_str("expected an object"))),
        }
    }
}

/// The wire shapes of a sequence of [`Tile`] values.
pub open spec fn tile_seq_jv(s: Seq<Tile>) -> Seq<JsonV> {
    Seq::new(s.len(), |i: int| s[i].wire_jv())
}

/// Every element of the sequence is well-formed.
pub open spec fn tile_seq_wf(s: Seq<Tile>) -> bool {
    forall|i: int| 0 <= i < s.len() ==> (#[trigger] s[i]).wf()
}

/// Render each element into a wire array.
fn tile_vec_to_json(v: &Vec<Tile>) -> (r: Json)
    ensures
        r.jv() == JsonV::Arr(tile_seq_jv(v@)),
{
    let mut out: Vec<Json> = Vec::new();
    let n = v.len();
    for i in 0..n
        invariant
            n == v.len(),
            out@.len() == i,
            forall|k: int| 0 <= k < i ==> out@[k].jv() == tile_seq_jv(v@)[k],
    {
        let jx = v[i].to_json();
        out.push(jx);
    }
    proof {
        lemma_arr_jv(out);
        assert(arr_jv(out@) =~= tile_seq_jv(v@));
    }
    Json::Arr(out)
}

/// Parse each element of a wire array as a [`Tile`] value.
fn tile_vec_from_json(a: &Vec<Json>) -> (r: Result<Vec<Tile>, BpError>)
    ensures
        forall|ds: Seq<Tile>|
            ((#[trigger] tile_seq_jv(ds)) == arr_jv(a@) && tile_seq_wf(ds)) ==> (r matches Ok(v2)
                && tile_seq_jv(v2@) == arr_jv(a@) && tile_seq_wf(v2@)),
        r matches Ok(v2) ==> tile_seq_wf(v2@),
        r matches Err(e) ==> e is SchemaError,
{
    let mut out: Vec<Tile> = Vec::new();
    let n = a.len();
    for i in 0..n
        invariant
            n == a.len(),
            out@.len() == i,
            forall|k: int| 0 <= k < i ==> (#[trigger] out@[k]).wf(),
            forall|ds: Seq<Tile>|
                ((#[trigger] tile_seq_jv(ds)) == arr_jv(a@) && tile_seq_wf(ds)) ==> (forall|k: int|
                    0 <= k < i ==> (#[trigger] out@[k]).wire_jv() == arr_jv(a@)[k]),
    {
        let e = match Tile::from_json(&a[i]) {
            Ok(v) => v,
            Err(er) => {
                proof {
                    assert forall|ds: Seq<Tile>|
                        ((#[trigger] tile_seq_jv(ds)) == arr_jv(a@) && tile_seq_wf(ds)) implies false by {
                        assert(tile_seq_jv(ds).len() == ds.len());
                        assert(arr_jv(a@).len() == a@.len());
                        assert(tile_seq_jv(ds)[i as int] == ds[i as int].wire_jv());
                        assert(arr_jv(a@)[i as int] == a@[i as int].jv());
                        assert(ds[i as int].wf());
                    }
                }
                return Err(er);
            },
        };
        out.push(e);
        proof {
            assert forall|ds: Seq<Tile>|
                ((#[trigger] tile_seq_jv(ds)) == arr_jv(a@) && tile_seq_wf(ds)) implies (forall|k: int|
                0 <= k < i + 1 ==> (#[trigger] out@[k]).wire_jv() == arr_jv(a@)[k]) by {
                assert(tile_seq_jv(ds).len() == ds.len());
                assert(arr_jv(a@).len() == a@.len());
                assert(tile_seq_jv(ds)[i as int] == ds[i as int].wire_jv());
                assert(arr_jv(a@)[i as int] == a@[i as int].jv());
                assert(ds[i as int].wf());
                assert(out@[i as int].wire_jv() == arr_jv(a@)[i as int]);
                assert forall|k: int| 0 <= k < i + 1 implies (#[trigger] out@[k]).wire_jv()
                    == arr_jv(a@)[k] by {
                }
            }
        }
    }
    proof {
        assert forall|ds: Seq<Tile>|
            ((#[trigger] tile_seq_jv(ds)) == arr_jv(a@) && tile_seq_wf(ds)) implies (tile_seq_jv(out@) == arr_jv(
            a@,
        )) by {
            assert(tile_seq_jv(out@) =~= arr_jv(a@));
        }
    }
    Ok(out)
}


/// The wire shapes of a sequence of [`Icon`] values.
pub open spec fn icon_seq_jv(s: Seq<Icon>) -> Seq<JsonV> {
    Seq::new(s.len(), |i: int| s[i].wire_jv())
}

/// Every element of the sequence is well-formed.
pub open spec fn icon_seq_wf(s: Seq<Icon>) -> bool {
    forall|i: int| 0 <= i < s.len() ==> (#[trigger] s[i]).wf()
}

/// Render each element into a wire array.
fn icon_vec_to_json(v: &Vec<Icon>) -> (r: Json)
    ensures
        r.jv() == JsonV::Arr(icon_seq_jv(v@)),
{
    let mut out: Vec<Json> = Vec::new();
    let n = v.len();
    for i in 0..n
        invariant
            n == v.len(),
            out@.len() == i,
            forall|k: int| 0 <= k < i ==> out@[k].jv() == icon_seq_jv(v@)[k],
    {
        let jx = v[i].to_json();
        out.push(jx);
    }
    proof {
        lemma_arr_jv(out);
        assert(arr_jv(out@) =~= icon_seq_jv(v@));
    }
    Json::Arr(out)
}

/// Parse each element of a wire array as a [`Icon`] value.
fn icon_vec_from_json(a: &Vec<Json>) -> (r: Result<Vec<Icon>, BpError>)
    ensures
        forall|ds: Seq<Icon>|
            ((#[trigger] icon_seq_jv(ds)) == arr_jv(a@) && icon_seq_wf(ds)) ==> (r matches Ok(v2)
                && icon_seq_jv(v2@) == arr_jv(a@) && icon_seq_wf(v2@)),
        r matches Ok(v2) ==> icon_seq_wf(v2@),
        r matches Err(e) ==> e is SchemaError,
{
    let mut out: Vec<Icon> = Vec::new();
    let n = a.len();
    for i in 0..n
        invariant
            n == a.len(),
            out@.len() == i,
            forall|k: int| 0 <= k < i ==> (#[trigger] out@[k]).wf(),
            forall|ds: Seq<Icon>|
                ((#[trigger] icon_seq_jv(ds)) == arr_jv(a@) && icon_seq_wf(ds)) ==> (forall|k: int|
                    0 <= k < i ==> (#[trigger] out@[k]).wire_jv() == arr_jv(a@)[k]),
    {
        let e = match Icon::from_json(&a[i]) {
            Ok(v) => v,
            Err(er) => {
                proof {
                    assert forall|ds: Seq<Icon>|
                        ((#[trigger] icon_seq_jv(ds)) == arr_jv(a@) && icon_seq_wf(ds)) implies false by {
                        assert(icon_seq_jv(ds).len() == ds.len());
                        assert(arr_jv(a@).len() == a@.len());
                        assert(icon_seq_jv(ds)[i as int] == ds[i as int].wire_jv());
                        assert(arr_jv(a@)[i as int] == a@[i as int].jv());
                        assert(ds[i as int].wf());
                    }
                }
                return Err(er);
            },
        };
        out.push(e);
        proof {
            assert forall|ds: Seq<Icon>|
                ((#[trigger] icon_seq_jv(ds)) == arr_jv(a@) && icon_seq_wf(ds)) implies (forall|k: int|
                0 <= k < i + 1 ==> (#[trigger] out@[k]).wire_jv() == arr_jv(a@)[k]) by {
                assert(icon_seq_jv(ds).len() == ds.len());
                assert(arr_jv(a@).len() == a@.len());
                assert(icon_seq_jv(ds)[i as int] == ds[i as int].wire_jv());
                assert(arr_jv(a@)[i as int] == a@[i as int].jv());
                assert(ds[i as int].wf());
                assert(out@[i as int].wire_jv() == arr_jv(a@)[i as int]);
                assert forall|k: int| 0 <= k < i + 1 implies (#[trigger] out@[k]).wire_jv()
                    == arr_jv(a@)[k] by {
                }
            }
        }
    }
    proof {
        assert forall|ds: Seq<Icon>|
            ((#[trigger] icon_seq_jv(ds)) == arr_jv(a@) && icon_seq_wf(ds)) implies (icon_seq_jv(out@) == arr_jv(
            a@,
        )) by {
            assert(icon_seq_jv(out@) =~= arr_jv(a@));
        }
    }
    Ok(out)
}


/// A blueprint together with its index in its book.
#[derive(Debug)]
pub struct BookBpWrapper {
    /// Index of the blueprint in its book.
    pub index: u64,
    /// The blueprint itself.
    pub blueprint: Blueprint,
}

impl BookBpWrapper {
    /// Structural well-formedness: entity-number references are positive
    /// and nested values are themselves well-formed.
    pub open spec fn wf(self) -> bool {
        self.blueprint.wf()
    }

    /// The wire shape of this value.
    pub open spec fn wire_jv(self) -> JsonV {
        let f = Seq::empty();
        let f = f.push(("index"@, JsonV::Num(u64_dec(self.index as nat))));
        let f = f.push(("blueprint"@, self.blueprint.wire_jv()));
        JsonV::Obj(f)
    }

    /// Render to the wire shape.
    pub fn to_json(&self) -> (r: Json)
        ensures
            r.jv() == self.wire_jv(),
    {
        let mut fields: Vec<(String, Json)> = Vec::new();
        push_field(&mut fields, "index", Json::Num(u64_to_dec(self.index)));
        push_field(&mut fields, "blueprint", self.blueprint.to_json());
        proof {
            lemma_obj_jv(fields);
            assert(fields_jv(fields@) =~= self.wire_jv()->Obj_0);
        }
        Json::Obj(fields)
    }

    /// Parse from the wire shape. The contract carries the mapping round
    /// trip: the rendered shape of any well-formed value parses back to a
    /// value with the same shape.
    pub fn from_json(j: &Json) -> (r: Result<BookBpWrapper, BpError>)
        ensures
            forall|d: BookBpWrapper|
                ((#[trigger] d.wire_jv()) == j.jv() && d.wf()) ==> (r matches Ok(d2)
                    && d2.wire_jv() == j.jv()),
            r matches Ok(d2) ==> d2.wf(),
            r matches Err(e) ==> e is SchemaError,
    {
        match j {
            Json::Obj(fields) => {
                proof {
                    lemma_obj_jv(*fields);
                    reveal_strlit("index");
                    assert("index"@.len() == 5 && "index"@[0] == 'i');
                    reveal_strlit("blueprint");
                    assert("blueprint"@.len() == 9 && "blueprint"@[0] == 'b');
                }
                let v_index = match get_req_u64(fields, "index") {
                    Ok(v) => v,
                    Err(e) => {
                        return Err(e);
                    },
                };
                let v_blueprint = match lookup(fields, "blueprint") {
                    Some(jx) => match Blueprint::from_json(jx) {
                        Ok(v) => v,
                        Err(e) => {
                            return Err(e);
                        },
                    },
                    None => {
                    return Err(BpError::SchemaError(String::from_str("missing member: blueprint")));
                },
                };
                Ok(BookBpWrapper { index: v_index, blueprint: v_blueprint })
            },
            _ => Err(BpError::SchemaError(String::from_str("expected an object"))),
        }
    }
}

/// The wire shapes of a sequence of [`BookBpWrapper`] values.
pub open spec fn bookbpwrapper_seq_jv(s: Seq<BookBpWrapper>) -> Seq<JsonV> {
    Seq::new(s.len(), |i: int| s[i].wire_jv())
}

/// Every element of the sequence is well-formed.
pub open spec fn bookbpwrapper_seq_wf(s: Seq<BookBpWrapper>) -> bool {
    forall|i: int| 0 <= i < s.len() ==> (#[trigger] s[i]).wf()
}

/// Render each element into a wire array.
fn bookbpwrapper_vec_to_json(v: &Vec<BookBpWrapper>) -> (r: Json)
    ensures
        r.jv() == JsonV::Arr(bookbpwrapper_seq_jv(v@)),
{
    let mut out: Vec<Json> = Vec::new();
    let n = v.len();
    for i in 0..n
        invariant
            n == v.len(),
            out@.len() == i,
            forall|k: int| 0 <= k < i ==> out@[k].jv() == bookbpwrapper_seq_jv(v@)[k],
    {
        let jx = v[i].to_json();
        out.push(jx);
    }
    proof {
        lemma_arr_jv(out);
        assert(arr_jv(out@) =~= bookbpwrapper_seq_jv(v@));
    }
    Json::Arr(out)
}

/// Parse each element of a wire array as a [`BookBpWrapper`] value.
fn bookbpwrapper_vec_from_json(a: &Vec<Json>) -> (r: Result<Vec<BookBpWrapper>, BpError>)
    ensures
        forall|ds: Seq<BookBpWrapper>|
            ((#[trigger] bookbpwrapper_seq_jv(ds)) == arr_jv(a@) && bookbpwrapper_seq_wf(ds)) ==> (r matches Ok(v2)
                && bookbpwrapper_seq_jv(v2@) == arr_jv(a@) && bookbpwrapper_seq_wf(v2@)),
        r matches Ok(v2) ==> bookbpwrapper_seq_wf(v2@),
        r matches Err(e) ==> e is SchemaError,
{
    let mut out: Vec<BookBpWrapper> = Vec::new();
    let n = a.len();
    for i in 0..n
        invariant
            n == a.len(),
            out@.len() == i,
            forall|k: int| 0 <= k < i ==> (#[trigger] out@[k]).wf(),
            forall|ds: Seq<BookBpWrapper>|
                ((#[trigger] bookbpwrapper_seq_jv(ds)) == arr_jv(a@) && bookbpwrapper_seq_wf(ds)) ==> (forall|k: int|
                    0 <= k < i ==> (#[trigger] out@[k]).wire_jv() == arr_jv(a@)[k]),
    {
        let e = match BookBpWrapper::from_json(&a[i]) {
            Ok(v) => v,
            Err(er) => {
                proof {
                    assert forall|ds: Seq<BookBpWrapper>|
                        ((#[trigger] bookbpwrapper_seq_jv(ds)) == arr_jv(a@) && bookbpwrapper_seq_wf(ds)) implies false by {
                        assert(bookbpwrapper_seq_jv(ds).len() == ds.len());
                        assert(arr_jv(a@).len() == a@.len());
                        assert(bookbpwrapper_seq_jv(ds)[i as int] == ds[i as int].wire_jv());
                        assert(arr_jv(a@)[i as int] == a@[i as int].jv());
                        assert(ds[i as int].wf());
                    }
                }
                return Err(er);
            },
        };
        out.push(e);
        proof {
            assert forall|ds: Seq<BookBpWrapper>|
                ((#[trigger] bookbpwrapper_seq_jv(ds)) == arr_jv(a@) && bookbpwrapper_seq_wf(ds)) implies (forall|k: int|
                0 <= k < i + 1 ==> (#[trigger] out@[k]).wire_jv() == arr_jv(a@)[k]) by {
                assert(bookbpwrapper_seq_jv(ds).len() == ds.len());
                assert(arr_jv(a@).len() == a@.len());
                assert(bookbpwrapper_seq_jv(ds)[i as int] == ds[i as int].wire_jv());
                assert(arr_jv(a@)[i as int] == a@[i as int].jv());
                assert(ds[i as int].wf());
                assert(out@[i as int].wire_jv() == arr_jv(a@)[i as int]);
                assert forall|k: int| 0 <= k < i + 1 implies (#[trigger] out@[k]).wire_jv()
                    == arr_jv(a@)[k] by {
                }
            }
        }
    }
    proof {
        assert forall|ds: Seq<BookBpWrapper>|
            ((#[trigger] bookbpwrapper_seq_jv(ds)) == arr_jv(a@) && bookbpwrapper_seq_wf(ds)) implies (bookbpwrapper_seq_jv(out@) == arr_jv(
            a@,
        )) by {
            assert(bookbpwrapper_seq_jv(out@) =~= arr_jv(a@));
        }
    }
    Ok(out)
}


/// A book of blueprints with one selected by `active_index`. Parsing accepts any index; see `active_index_valid` for the bounds check.
#[derive(Debug)]
pub struct BlueprintBook {
    /// Name of the item that was saved.
    pub item: String,
    /// Name of the book set by the user.
    pub label: String,
    /// Color of the label.
    pub label_color: Color,
    /// The indexed blueprints of the book, in order.
    pub blueprints: Vec<BookBpWrapper>,
    /// Index of the currently selected blueprint.
    pub active_index: u64,
    /// Map version the book was created in.
    pub version: Version,
}

impl BlueprintBook {
    /// Structural well-formedness: entity-number references are positive
    /// and nested values are themselves well-formed.
    pub open spec fn wf(self) -> bool {
        self.label_color.wf()
            && bookbpwrapper_seq_wf(self.blueprints@)
    }

    /// The wire shape of this value.
    pub open spec fn wire_jv(self) -> JsonV {
        let f = Seq::empty();
        let f = f.push(("item"@, JsonV::Str(self.item@)));
        let f = f.push(("label"@, JsonV::Str(self.label@)));
        let f = f.push(("label_color"@, self.label_color.wire_jv()));
        let f = f.push(("blueprints"@, JsonV::Arr(bookbpwrapper_seq_jv(self.blueprints@))));
        let f = f.push(("active_index"@, JsonV::Num(u64_dec(self.active_index as nat))));
        let f = f.push(("version"@, JsonV::Num(u64_dec(spec_pack(self.version.major, self.version.minor, self.version.patch, self.version.developer) as nat))));
        JsonV::Obj(f)
    }

    /// Render to the wire shape.
    #[verifier::rlimit(40)]
    pub fn to_json(&self) -> (r: Json)
        ensures
            r.jv() == self.wire_jv(),
    {
        let mut fields: Vec<(String, Json)> = Vec::new();
        push_field(&mut fields, "item", Json::Str(self.item.clone()));
        push_field(&mut fields, "label", Json::Str(self.label.clone()));
        push_field(&mut fields, "label_color", self.label_color.to_json());
        push_field(&mut fields, "blueprints", bookbpwrapper_vec_to_json(&self.blueprints));
        push_field(&mut fields, "active_index", Json::Num(u64_to_dec(self.active_index)));
        push_field(&mut fields, "version", Json::Num(u64_to_dec(self.version.pack())));
        proof {
            lemma_obj_jv(fields);
            assert(fields_jv(fields@) =~= self.wire_jv()->Obj_0);
        }
        Json::Obj(fields)
    }

    /// Parse from the wire shape. The contract carries the mapping round
    /// trip: the rendered shape of any well-formed value parses back to a
    /// value with the same shape.
    #[verifier::rlimit(40)]
    pub fn from_json(j: &Json) -> (r: Result<BlueprintBook, BpError>)
        ensures
            forall|d: BlueprintBook|
                ((#[trigger] d.wire_jv()) == j.jv() && d.wf()) ==> (r matches Ok(d2)
                    && d2.wire_jv() == j.jv()),
            r matches Ok(d2) ==> d2.wf(),
            r matches Err(e) ==> e is SchemaError,
    {
        match j {
            Json::Obj(fields) => {
                proof {
                    lemma_obj_jv(*fields);
                    reveal_strlit("item");
                    assert("item"@.len() == 4 && "item"@[0] == 'i');
                    reveal_strlit("label");
                    assert("label"@.len() == 5 && "label"@[0] == 'l');
                    reveal_strlit("label_color");
                    assert("label_color"@.len() == 11 && "label_color"@[0] == 'l');
                    reveal_strlit("blueprints");
                    assert("blueprints"@.len() == 10 && "blueprints"@[0] == 'b');
                    reveal_strlit("active_index");
                    assert("active_index"@.len() == 12 && "active_index"@[0] == 'a');
                    reveal_strlit("version");
                    assert("version"@.len() == 7 && "version"@[0] == 'v');
                }
                let v_item = match get_req_str(fields, "item") {
                    Ok(v) => v,
                    Err(e) => {
                        return Err(e);
                    },
                };
                let v_label = match get_req_str(fields, "label") {
                    Ok(v) => v,
                    Err(e) => {
                        return Err(e);
                    },
                };
                let v_label_color = match lookup(fields, "label_color") {
                    Some(jx) => match Color::from_json(jx) {
                        Ok(v) => v,
                        Err(e) => {
                            return Err(e);
                        },
                    },
                    None => {
                    return Err(BpError::SchemaError(String::from_str("missing member: label_color")));
                },
                };
                let a_blueprints = match get_req_arr(fields, "blueprints") {
                    Ok(v) => v,
                    Err(e) => {
                        return Err(e);
                    },
                };
                let v_blueprints = match bookbpwrapper_vec_from_json(a_blueprints) {
                    Ok(v) => v,
                    Err(e) => {
                        return Err(e);
                    },
                };
                let v_active_index = match get_req_u64(fields, "active_index") {
                    Ok(v) => v,
                    Err(e) => {
                        return Err(e);
                    },
                };
                let r_version = match get_req_u64(fields, "version") {
                    Ok(v) => v,
                    Err(e) => {
                        return Err(e);
                    },
                };
                let v_version = Version::unpack(r_version);
                Ok(BlueprintBook { item: v_item, label: v_label, label_color: v_label_color, blueprints: v_blueprints, active_index: v_active_index, version: v_version })
            },
            _ => Err(BpError::SchemaError(String::from_str("expected an object"))),
        }
    }
}

/// A decoded document: exactly one of a blueprint or a blueprint book,
/// chosen by which wire key the root object carries.
#[derive(Debug)]
pub enum Document {
    /// A single blueprint, under the root key `blueprint`.
    Blueprint(Blueprint),
    /// A blueprint book, under the root key `blueprint_book`.
    BlueprintBook(BlueprintBook),
}

impl Document {
    /// Structural well-formedness of the carried value.
    pub open spec fn wf(self) -> bool {
        match self {
            Document::Blueprint(b) => b.wf(),
            Document::BlueprintBook(b) => b.wf(),
        }
    }

    /// The wire shape of this value: a root object with exactly one key.
    pub open spec fn wire_jv(self) -> JsonV {
        match self {
            Document::Blueprint(b) => JsonV::Obj(Seq::empty().push(("blueprint"@, b.wire_jv()))),
            Document::BlueprintBook(b) => JsonV::Obj(
                Seq::empty().push(("blueprint_book"@, b.wire_jv())),
            ),
        }
    }

    /// Render to the wire shape.
    pub fn to_json(&self) -> (r: Json)
        ensures
            r.jv() == self.wire_jv(),
    {
        let mut fields: Vec<(String, Json)> = Vec::new();
        match self {
            Document::Blueprint(b) => {
                push_field(&mut fields, "blueprint", b.to_json());
            },
            Document::BlueprintBook(b) => {
                push_field(&mut fields, "blueprint_book", b.to_json());
            },
        }
        proof {
            lemma_obj_jv(fields);
            assert(fields_jv(fields@) =~= self.wire_jv()->Obj_0);
        }
        Json::Obj(fields)
    }

    /// Parse the document root. A root object lacking both the `blueprint`
    /// and the `blueprint_book` key, or a root that is not an object, is a
    /// data error: the JSON is valid but is not a recognized document. Any
    /// other failure is a schema error from the carried value.
    pub fn from_json(j: &Json) -> (r: Result<Document, BpError>)
        ensures
            forall|d: Document|
                ((#[trigger] d.wire_jv()) == j.jv() && d.wf()) ==> (r matches Ok(d2)
                    && d2.wire_jv() == j.jv()),
            r matches Ok(d2) ==> d2.wf(),
            r matches Err(e) ==> e is SchemaError || e is DataError,
            (j.jv() matches JsonV::Obj(fs) && obj_get(fs, "blueprint"@) is None && obj_get(
                fs,
                "blueprint_book"@,
            ) is None) ==> (r matches Err(e) && e is DataError),
            !(j.jv() is Obj) ==> (r matches Err(e) && e is DataError),
    {
        match j {
            Json::Obj(fields) => {
                proof {
                    lemma_obj_jv(*fields);
                    reveal_strlit("blueprint");
                    reveal_strlit("blueprint_book");
                    assert("blueprint"@.len() == 9 && "blueprint"@[0] == 'b');
                    assert("blueprint_book"@.len() == 14 && "blueprint_book"@[0] == 'b');
                }
                match lookup(fields, "blueprint") {
                    Some(jb) => match Blueprint::from_json(jb) {
                        Ok(b) => Ok(Document::Blueprint(b)),
                        Err(e) => Err(e),
                    },
                    None => match lookup(fields, "blueprint_book") {
                        Some(jb) => match BlueprintBook::from_json(jb) {
                            Ok(b) => Ok(Document::BlueprintBook(b)),
                            Err(e) => Err(e),
                        },
                        None => Err(
                            BpError::DataError(
                                String::from_str(
                                    "expected a blueprint or blueprint_book member at the root",
                                ),
                            ),
                        ),
                    },
                }
            },
            _ => Err(BpError::DataError(String::from_str("document root is not an object"))),
        }
    }
}

impl BlueprintBook {
    /// Whether `active_index` addresses a valid position in the sequence of
    /// blueprints. Parsing alone does not enforce this; it is the separate
    /// validation step layered on top.
    pub fn active_index_valid(&self) -> (r: bool)
        ensures
            r == (self.active_index < self.blueprints@.len()),
    {
        self.active_index < self.blueprints.len() as u64
    }
}

impl Document {
    /// Whether the document passes the validation layered on top of parsing:
    /// a blueprint always does; a book does exactly when its `active_index`
    /// is in range.
    pub fn validate(&self) -> (r: bool)
        ensures
            r == match *self {
                Document::Blueprint(_) => true,
                Document::BlueprintBook(b) => b.active_index < b.blueprints@.len(),
            },
    {
        match self {
            Document::Blueprint(_) => true,
            Document::BlueprintBook(b) => b.active_index_valid(),
        }
    }
}


} // verus!
