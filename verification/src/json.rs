//! An order-preserving JSON tree. From the tree onward, a number is carried
//! as its decimal token and objects keep their key order, so that re-encoding
//! alters neither; the bridge that first builds a tree from text may
//! re-render a number token it parses. Spec-level reasoning goes through the
//! view type [`JsonV`].

use vstd::prelude::*;
use crate::error::BpError;

verus! {

broadcast use vstd::std_specs::vec::axiom_vec_index_decreases;

/// A JSON value. Object members keep wire order; a number holds its decimal
/// token text unchanged.
#[derive(Debug)]
pub enum Json {
    /// The JSON null value.
    Null,
    /// A JSON boolean.
    Bool(bool),
    /// A JSON number, as its wire token text.
    Num(String),
    /// A JSON string.
    Str(String),
    /// A JSON array.
    Arr(Vec<Json>),
    /// A JSON object: ordered key/value members.
    Obj(Vec<(String, Json)>),
}

/// The mathematical shape of a [`Json`] value.
#[verifier::ext_equal]
pub enum JsonV {
    /// The JSON null value.
    Null,
    /// A JSON boolean.
    Bool(bool),
    /// A JSON number token.
    Num(Seq<char>),
    /// A JSON string.
    Str(Seq<char>),
    /// A JSON array.
    Arr(Seq<JsonV>),
    /// A JSON object.
    Obj(Seq<(Seq<char>, JsonV)>),
}

impl Json {
    /// The mathematical shape of this value.
    pub open spec fn jv(self) -> JsonV
        decreases self,
    {
        match self {
            Json::Null => JsonV::Null,
            Json::Bool(b) => JsonV::Bool(b),
            Json::Num(s) => JsonV::Num(s@),
            Json::Str(s) => JsonV::Str(s@),
            Json::Arr(v) => JsonV::Arr(
                Seq::new(v@.len(), |i: int| if 0 <= i < v.len() { v[i].jv() } else { JsonV::Null }),
            ),
            Json::Obj(v) => JsonV::Obj(
                Seq::new(
                    v@.len(),
                    |i: int|
                        if 0 <= i < v.len() {
                            (v[i].0@, v[i].1.jv())
                        } else {
                            (Seq::empty(), JsonV::Null)
                        },
                ),
            ),
        }
    }
}

/// The shapes of an object member list.
pub open spec fn fields_jv(fields: Seq<(String, Json)>) -> Seq<(Seq<char>, JsonV)> {
    Seq::new(fields.len(), |i: int| (fields[i].0@, fields[i].1.jv()))
}

/// An object member list viewed through [`Json::jv`] is [`fields_jv`].
pub proof fn lemma_obj_jv(v: Vec<(String, Json)>)
    ensures
        Json::Obj(v).jv() == JsonV::Obj(fields_jv(v@)),
{
    let s1 = Json::Obj(v).jv()->Obj_0;
    let s2 = fields_jv(v@);
    assert forall|i: int| 0 <= i < s2.len() implies s1[i] == s2[i] by {
    }
    assert(s1 =~= s2);
}

/// The value at `key` in an object member list: the last member with that
/// key (a later duplicate shadows an earlier one, as a map built by
/// insertion would have it), or `None` where no member has it.
pub open spec fn obj_get(fields: Seq<(Seq<char>, JsonV)>, key: Seq<char>) -> Option<JsonV>
    decreases fields.len(),
{
    if fields.len() == 0 {
        None
    } else if fields.last().0 == key {
        Some(fields.last().1)
    } else {
        obj_get(fields.drop_last(), key)
    }
}

/// Appending one member either answers a lookup for its key or leaves the
/// lookup unchanged.
pub broadcast proof fn lemma_obj_get_push(
    fields: Seq<(Seq<char>, JsonV)>,
    p: (Seq<char>, JsonV),
    key: Seq<char>,
)
    ensures
        #[trigger] obj_get(fields.push(p), key) == if p.0 == key {
            Some(p.1)
        } else {
            obj_get(fields, key)
        },
{
    assert(fields.push(p).drop_last() =~= fields);
    assert(fields.push(p).last() == p);
}

proof fn lemma_obj_get_take(fields: Seq<(Seq<char>, JsonV)>, key: Seq<char>, m: int)
    requires
        0 <= m <= fields.len(),
        forall|j: int| m <= j < fields.len() ==> fields[j].0 != key,
    ensures
        obj_get(fields, key) == obj_get(fields.take(m), key),
    decreases fields.len() - m,
{
    if m < fields.len() {
        lemma_obj_get_take(fields, key, m + 1);
        assert(fields.take(m + 1).drop_last() =~= fields.take(m));
        assert(fields.take(m + 1).last() == fields[m]);
    } else {
        assert(fields.take(m) =~= fields);
    }
}

/// Find the member of `fields` that a lookup for `key` answers with.
pub fn lookup<'a>(fields: &'a Vec<(String, Json)>, key: &str) -> (r: Option<&'a Json>)
    ensures
        match r {
            Some(j) => obj_get(fields_jv(fields@), key@) == Some(j.jv()),
            None => obj_get(fields_jv(fields@), key@) is None,
        },
{
    let n = fields.len();
    let mut k: usize = 0;
    while k < n
        invariant
            n == fields.len(),
            k <= n,
            forall|j: int| n - k <= j < n ==> fields_jv(fields@)[j].0 != key@,
        decreases n - k,
    {
        let i = n - 1 - k;
        if str_eq(fields[i].0.as_str(), key) {
            proof {
                lemma_obj_get_take(fields_jv(fields@), key@, i as int + 1);
                assert(fields_jv(fields@).take(i as int + 1).last() == fields_jv(fields@)[
                    i as int
                ]);
            }
            return Some(&fields[i].1);
        }
        k = k + 1;
    }
    proof {
        lemma_obj_get_take(fields_jv(fields@), key@, 0);
        assert(fields_jv(fields@).take(0) =~= Seq::<(Seq<char>, JsonV)>::empty());
    }
    None
}

/// Append the member `(key, value)` to an object member list under
/// construction.
pub fn push_field(fields: &mut Vec<(String, Json)>, key: &str, value: Json)
    ensures
        fields_jv(final(fields)@) == fields_jv(old(fields)@).push((key@, value.jv())),
{
    let ghost jvv = value.jv();
    let ks = String::from_str(key);
    fields.push((ks, value));
    proof {
        assert(fields_jv(fields@) =~= fields_jv(old(fields)@).push((key@, jvv)));
    }
}

/// Read the required string member `key`: fails with a schema error where
/// the member is missing or not a string.
pub fn get_req_str(fields: &Vec<(String, Json)>, key: &str) -> (r: Result<String, BpError>)
    ensures
        r matches Ok(s) ==> obj_get(fields_jv(fields@), key@) == Some(JsonV::Str(s@)),
        (obj_get(fields_jv(fields@), key@) matches Some(v) && v is Str) ==> r is Ok,
        r matches Err(e) ==> e is SchemaError,
{
    match lookup(fields, key) {
        Some(j) => match j {
            Json::Str(s) => Ok(s.clone()),
            _ => Err(BpError::SchemaError(schema_msg(key))),
        },
        None => Err(BpError::SchemaError(schema_msg(key))),
    }
}

/// Read the required integer member `key`: fails with a schema error where
/// the member is missing, not a number, or not an unsigned integer that fits
/// 64 bits.
pub fn get_req_u64(fields: &Vec<(String, Json)>, key: &str) -> (r: Result<u64, BpError>)
    ensures
        r matches Ok(n) ==> (obj_get(fields_jv(fields@), key@) matches Some(v) && v matches
            JsonV::Num(t) && is_digits(t) && t.len() >= 1 && dec_val(t) == n),
        (obj_get(fields_jv(fields@), key@) matches Some(v) && v matches JsonV::Num(t)
            && is_digits(t) && t.len() >= 1 && dec_val(t) <= u64::MAX) ==> r is Ok,
        r matches Err(e) ==> e is SchemaError,
{
    match lookup(fields, key) {
        Some(j) => match j {
            Json::Num(t) => match parse_u64(t.as_str()) {
                Some(n) => Ok(n),
                None => Err(BpError::SchemaError(schema_msg(key))),
            },
            _ => Err(BpError::SchemaError(schema_msg(key))),
        },
        None => Err(BpError::SchemaError(schema_msg(key))),
    }
}

/// Read the required boolean member `key`: fails with a schema error where
/// the member is missing or not a boolean.
pub fn get_req_bool(fields: &Vec<(String, Json)>, key: &str) -> (r: Result<bool, BpError>)
    ensures
        r matches Ok(b) ==> obj_get(fields_jv(fields@), key@) == Some(JsonV::Bool(b)),
        (obj_get(fields_jv(fields@), key@) matches Some(v) && v is Bool) ==> r is Ok,
        r matches Err(e) ==> e is SchemaError,
{
    match lookup(fields, key) {
        Some(j) => match j {
            Json::Bool(b) => Ok(*b),
            _ => Err(BpError::SchemaError(schema_msg(key))),
        },
        None => Err(BpError::SchemaError(schema_msg(key))),
    }
}

/// Read the required number member `key` as its raw token: fails with a
/// schema error where the member is missing or not a number.
pub fn get_req_num(fields: &Vec<(String, Json)>, key: &str) -> (r: Result<String, BpError>)
    ensures
        r matches Ok(s) ==> obj_get(fields_jv(fields@), key@) == Some(JsonV::Num(s@)),
        (obj_get(fields_jv(fields@), key@) matches Some(v) && v is Num) ==> r is Ok,
        r matches Err(e) ==> e is SchemaError,
{
    match lookup(fields, key) {
        Some(j) => match j {
            Json::Num(s) => Ok(s.clone()),
            _ => Err(BpError::SchemaError(schema_msg(key))),
        },
        None => Err(BpError::SchemaError(schema_msg(key))),
    }
}

/// The shapes of an array element list.
pub open spec fn arr_jv(elems: Seq<Json>) -> Seq<JsonV> {
    Seq::new(elems.len(), |i: int| elems[i].jv())
}

/// An array element list viewed through [`Json::jv`] is [`arr_jv`].
pub proof fn lemma_arr_jv(v: Vec<Json>)
    ensures
        Json::Arr(v).jv() == JsonV::Arr(arr_jv(v@)),
{
    let s1 = Json::Arr(v).jv()->Arr_0;
    let s2 = arr_jv(v@);
    assert forall|i: int| 0 <= i < s2.len() implies s1[i] == s2[i] by {
    }
    assert(s1 =~= s2);
}

/// Read the required array member `key`: fails with a schema error where
/// the member is missing or not an array.
pub fn get_req_arr<'a>(fields: &'a Vec<(String, Json)>, key: &str) -> (r: Result<
    &'a Vec<Json>,
    BpError,
>)
    ensures
        r matches Ok(a) ==> obj_get(fields_jv(fields@), key@) == Some(JsonV::Arr(arr_jv(a@))),
        (obj_get(fields_jv(fields@), key@) matches Some(v) && v is Arr) ==> r is Ok,
        r matches Err(e) ==> e is SchemaError,
{
    match lookup(fields, key) {
        Some(j) => match j {
            Json::Arr(a) => {
                proof {
                    lemma_arr_jv(*a);
                }
                Ok(a)
            },
            _ => Err(BpError::SchemaError(schema_msg(key))),
        },
        None => Err(BpError::SchemaError(schema_msg(key))),
    }
}

/// Read the required object member `key`: fails with a schema error where
/// the member is missing or not an object.
pub fn get_req_obj<'a>(fields: &'a Vec<(String, Json)>, key: &str) -> (r: Result<
    &'a Vec<(String, Json)>,
    BpError,
>)
    ensures
        r matches Ok(o) ==> obj_get(fields_jv(fields@), key@) == Some(JsonV::Obj(fields_jv(o@))),
        (obj_get(fields_jv(fields@), key@) matches Some(v) && v is Obj) ==> r is Ok,
        r matches Err(e) ==> e is SchemaError,
{
    match lookup(fields, key) {
        Some(j) => match j {
            Json::Obj(o) => {
                proof {
                    lemma_obj_jv(*o);
                }
                Ok(o)
            },
            _ => Err(BpError::SchemaError(schema_msg(key))),
        },
        None => Err(BpError::SchemaError(schema_msg(key))),
    }
}

/// Deep copy of a JSON value: the copy has the same shape.
pub fn clone_json(j: &Json) -> (r: Json)
    ensures
        r.jv() == j.jv(),
    decreases *j,
{
    match j {
        Json::Null => Json::Null,
        Json::Bool(b) => Json::Bool(*b),
        Json::Num(s) => Json::Num(s.clone()),
        Json::Str(s) => Json::Str(s.clone()),
        Json::Arr(v) => {
            let mut out: Vec<Json> = Vec::new();
            let n = v.len();
            proof {
                assert(decreases_to!(*j => *v));
            }
            for i in 0..n
                invariant
                    decreases_to!(*j => *v),
                    n == v.len(),
                    out@.len() == i,
                    forall|k: int| 0 <= k < i ==> out@[k].jv() == v@[k].jv(),
            {
                proof {
                    assert(decreases_to!(*v => v[i as int]));
                }
                let c = clone_json(&v[i]);
                out.push(c);
            }
            let r = Json::Arr(out);
            proof {
                assert(r.jv()->Arr_0 =~= Json::Arr(*v).jv()->Arr_0);
                assert(r.jv() =~= Json::Arr(*v).jv());
            }
            r
        },
        Json::Obj(v) => {
            let mut out: Vec<(String, Json)> = Vec::new();
            let n = v.len();
            proof {
                assert(decreases_to!(*j => *v));
            }
            for i in 0..n
                invariant
                    decreases_to!(*j => *v),
                    n == v.len(),
                    out@.len() == i,
                    forall|k: int|
                        0 <= k < i ==> out@[k].0@ == v@[k].0@ && out@[k].1.jv() == v@[k].1.jv(),
            {
                proof {
                    assert(decreases_to!(*v => v[i as int]));
                    assert(decreases_to!(v[i as int] => v[i as int].1));
                }
                let c = clone_json(&v[i].1);
                let ks = v[i].0.clone();
                out.push((ks, c));
            }
            let r = Json::Obj(out);
            proof {
                assert(r.jv()->Obj_0 =~= Json::Obj(*v).jv()->Obj_0);
                assert(r.jv() =~= Json::Obj(*v).jv());
            }
            r
        },
    }
}

/// Copy an object member list: the copy has the same shapes.
pub fn clone_members(v: &Vec<(String, Json)>) -> (r: Vec<(String, Json)>)
    ensures
        fields_jv(r@) == fields_jv(v@),
{
    let mut out: Vec<(String, Json)> = Vec::new();
    let n = v.len();
    for i in 0..n
        invariant
            n == v.len(),
            out@.len() == i,
            forall|k: int|
                0 <= k < i ==> out@[k].0@ == v@[k].0@ && out@[k].1.jv() == v@[k].1.jv(),
    {
        let c = clone_json(&v[i].1);
        let ks = v[i].0.clone();
        out.push((ks, c));
    }
    proof {
        assert(fields_jv(out@) =~= fields_jv(v@));
    }
    out
}

/// A schema-error message that names the offending member.
fn schema_msg(key: &str) -> (r: String) {
    let mut m = String::from_str("missing or mistyped member: ");
    m.append(key);
    m
}

/// Character-for-character string comparison.
pub fn str_eq(a: &str, b: &str) -> (r: bool)
    ensures
        r == (a@ == b@),
{
    let alen = a.unicode_len();
    let blen = b.unicode_len();
    if alen != blen {
        return false;
    }
    for i in 0..alen
        invariant
            alen == a@.len(),
            blen == b@.len(),
            alen == blen,
            forall|j: int| 0 <= j < i ==> a@[j] == b@[j],
    {
        if a.get_char(i) != b.get_char(i) {
            return false;
        }
    }
    proof {
        assert(a@ =~= b@);
    }
    true
}

/// Whether `c` is a decimal digit.
pub open spec fn is_digit(c: char) -> bool {
    '0' <= c && c <= '9'
}

/// The value of the decimal digit `c`.
pub open spec fn digit_val(c: char) -> nat {
    (c as nat - '0' as nat) as nat
}

/// Whether every character of `s` is a decimal digit.
pub open spec fn is_digits(s: Seq<char>) -> bool {
    forall|i: int| 0 <= i < s.len() ==> is_digit(s[i])
}

/// The numeric value of the digit string `s`.
pub open spec fn dec_val(s: Seq<char>) -> nat
    decreases s.len(),
{
    if s.len() == 0 {
        0
    } else {
        dec_val(s.drop_last()) * 10 + digit_val(s.last())
    }
}

/// The canonical decimal token of `v`: no sign, no leading zero.
pub open spec fn u64_dec(v: nat) -> Seq<char>
    decreases v,
{
    if v < 10 {
        seq![digit_char(v)]
    } else {
        u64_dec(v / 10).push(digit_char(v % 10))
    }
}

/// The decimal digit character of value `d`.
pub open spec fn digit_char(d: nat) -> char {
    if d == 0 {
        '0'
    } else if d == 1 {
        '1'
    } else if d == 2 {
        '2'
    } else if d == 3 {
        '3'
    } else if d == 4 {
        '4'
    } else if d == 5 {
        '5'
    } else if d == 6 {
        '6'
    } else if d == 7 {
        '7'
    } else if d == 8 {
        '8'
    } else {
        '9'
    }
}

proof fn lemma_dec_val_push(s: Seq<char>, c: char)
    ensures
        dec_val(s.push(c)) == dec_val(s) * 10 + digit_val(c),
{
    assert(s.push(c).drop_last() =~= s);
    assert(s.push(c).last() == c);
}

/// The canonical decimal token of `v` is a nonempty digit string whose value
/// is `v`.
pub broadcast proof fn lemma_u64_dec_val(v: nat)
    ensures
        #![trigger u64_dec(v)]
        u64_dec(v).len() >= 1 && is_digits(u64_dec(v)) && dec_val(u64_dec(v)) == v,
    decreases v,
{
    if v < 10 {
        assert(dec_val(Seq::<char>::empty()) == 0);
        assert(seq![digit_char(v)].last() == digit_char(v));
        assert(digit_val(digit_char(v)) == v);
        assert(dec_val(u64_dec(v)) == dec_val(seq![digit_char(v)]));
        assert(seq![digit_char(v)].drop_last() =~= Seq::<char>::empty());
    } else {
        lemma_u64_dec_val(v / 10);
        lemma_dec_val_push(u64_dec(v / 10), digit_char(v % 10));
        assert forall|i: int| 0 <= i < u64_dec(v).len() implies is_digit(u64_dec(v)[i]) by {
            if i < u64_dec(v).len() - 1 {
                assert(u64_dec(v)[i] == u64_dec(v / 10)[i]);
            }
        }
    }
}

proof fn lemma_dec_val_take_step(s: Seq<char>, i: int)
    requires
        0 <= i < s.len(),
    ensures
        dec_val(s.take(i + 1)) == dec_val(s.take(i)) * 10 + digit_val(s[i]),
{
    assert(s.take(i + 1).drop_last() =~= s.take(i));
    assert(s.take(i + 1).last() == s[i]);
}

proof fn lemma_dec_val_mono(s: Seq<char>, i: int)
    requires
        0 <= i <= s.len(),
    ensures
        dec_val(s) >= dec_val(s.take(i)),
    decreases s.len() - i,
{
    if i == s.len() {
        assert(s.take(i) =~= s);
    } else {
        lemma_dec_val_take_step(s, i);
        lemma_dec_val_mono(s, i + 1);
    }
}

/// Parse a canonical or zero-padded decimal token into a 64-bit integer.
/// Succeeds exactly on nonempty all-digit tokens whose value fits.
pub fn parse_u64(s: &str) -> (r: Option<u64>)
    ensures
        r matches Some(v) ==> is_digits(s@) && s@.len() >= 1 && v as nat == dec_val(s@),
        (is_digits(s@) && s@.len() >= 1 && dec_val(s@) <= u64::MAX) ==> r is Some,
{
    let n = s.unicode_len();
    if n == 0 {
        return None;
    }
    let mut acc: u64 = 0;
    for i in 0..n
        invariant
            n == s@.len(),
            n >= 1,
            forall|j: int| 0 <= j < i ==> is_digit(s@[j]),
            acc as nat == dec_val(s@.take(i as int)),
    {
        let c = s.get_char(i);
        if c < '0' || c > '9' {
            return None;
        }
        let d: u64 = (c as u32 - '0' as u32) as u64;
        proof {
            lemma_dec_val_take_step(s@, i as int);
        }
        if acc > (u64::MAX - d) / 10 {
            proof {
                lemma_dec_val_mono(s@, i as int + 1);
            }
            return None;
        }
        acc = acc * 10 + d;
    }
    proof {
        assert(s@.take(n as int) =~= s@);
    }
    Some(acc)
}

/// Render a 64-bit integer as its canonical decimal token.
pub fn u64_to_dec(v: u64) -> (r: String)
    ensures
        r@ == u64_dec(v as nat),
    decreases v,
{
    if v < 10 {
        let r = digit_str(v);
        String::from_str(r)
    } else {
        let mut r = u64_to_dec(v / 10);
        r.append(digit_str(v % 10));
        proof {
            assert(r@ =~= u64_dec(v as nat));
        }
        r
    }
}

fn digit_str(d: u64) -> (r: &'static str)
    requires
        d < 10,
    ensures
        r@ == seq![digit_char(d as nat)],
{
    proof {
        reveal_strlit("0");
        reveal_strlit("1");
        reveal_strlit("2");
        reveal_strlit("3");
        reveal_strlit("4");
        reveal_strlit("5");
        reveal_strlit("6");
        reveal_strlit("7");
        reveal_strlit("8");
        reveal_strlit("9");
    }
    let r = match d {
        0 => "0",
        1 => "1",
        2 => "2",
        3 => "3",
        4 => "4",
        5 => "5",
        6 => "6",
        7 => "7",
        8 => "8",
        _ => "9",
    };
    proof {
        assert(r@ =~= seq![digit_char(d as nat)]);
    }
    r
}

} // verus!
