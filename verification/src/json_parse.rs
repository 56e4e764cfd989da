//! A recursive-descent parser from response bytes to a JSON value tree.
//!
//! The grammar accepted is JSON with two narrowings: number values keep
//! their raw text instead of being converted, and `\uXXXX` escapes above
//! `0x7F` are refused (the gateway emits non-ASCII text as raw UTF-8, not as
//! escapes). The parser is specified exactly: what it returns is the
//! document the spec-level grammar functions assign to the bytes, and the
//! verified envelope mapping sits on top of the value tree it returns.

use vstd::prelude::*;

verus! {

broadcast use vstd::std_specs::vec::axiom_vec_index_decreases;

/// The mathematical value of a parsed JSON document.
pub ghost enum JsonModel {
    Null,
    Bool(bool),
    Num(Seq<u8>),
    Str(Seq<u8>),
    Arr(Seq<JsonModel>),
    Obj(Seq<(Seq<u8>, JsonModel)>),
}

/// The model of a parsed value.
pub open spec fn jv_model(v: JsonValue) -> JsonModel
    decreases v, 0int,
{
    match v {
        JsonValue::Null => JsonModel::Null,
        JsonValue::Bool(b) => JsonModel::Bool(b),
        JsonValue::Num(t) => JsonModel::Num(t@),
        JsonValue::Str(t) => JsonModel::Str(t@),
        JsonValue::Arr(items) => JsonModel::Arr(arr_models(items, 0)),
        JsonValue::Obj(fields) => JsonModel::Obj(obj_models(fields, 0)),
    }
}

/// The models of an array's elements from index `k` on.
pub open spec fn arr_models(items: Vec<JsonValue>, k: int) -> Seq<JsonModel>
    decreases items, items@.len() - k,
{
    if 0 <= k < items@.len() {
        seq![jv_model(items@[k])] + arr_models(items, k + 1)
    } else {
        Seq::empty()
    }
}

/// The model of one object field.
pub open spec fn field_model(f: (Vec<u8>, JsonValue)) -> (Seq<u8>, JsonModel)
    decreases f, 0int,
{
    (f.0@, jv_model(f.1))
}

/// The models of an object's fields from index `k` on.
pub open spec fn obj_models(fields: Vec<(Vec<u8>, JsonValue)>, k: int) -> Seq<(Seq<u8>, JsonModel)>
    decreases fields, fields@.len() - k,
{
    if 0 <= k < fields@.len() {
        seq![field_model(fields@[k])] + obj_models(fields, k + 1)
    } else {
        Seq::empty()
    }
}

/// A parsed JSON value.
#[derive(Debug, PartialEq)]
pub enum JsonValue {
    Null,
    Bool(bool),
    /// The raw text of a JSON number, as it stood in the input.
    Num(Vec<u8>),
    /// String contents, with escapes resolved, as UTF-8 bytes.
    Str(Vec<u8>),
    Arr(Vec<JsonValue>),
    Obj(Vec<(Vec<u8>, JsonValue)>),
}

/// Whether a byte is a hexadecimal digit.
pub open spec fn is_hex(b: u8) -> bool {
    (48 <= b && b <= 57) || (97 <= b && b <= 102) || (65 <= b && b <= 70)
}

/// The value of a hexadecimal digit.
pub open spec fn hex_v(b: u8) -> u8 {
    if 48 <= b && b <= 57 {
        (b - 48) as u8
    } else if 97 <= b && b <= 102 {
        (b - 87) as u8
    } else {
        (b - 55) as u8
    }
}

/// The position of the first non-whitespace byte at or after `i`.
pub open spec fn sp_ws(s: Seq<u8>, i: int) -> int
    decreases s.len() - i,
{
    if 0 <= i < s.len() && (s[i] == 32 || s[i] == 9 || s[i] == 10 || s[i] == 13) {
        sp_ws(s, i + 1)
    } else {
        i
    }
}

/// The position after the run of decimal digits starting at `i`.
pub open spec fn sp_digits(s: Seq<u8>, i: int) -> int
    decreases s.len() - i,
{
    if 0 <= i < s.len() && 48 <= s[i] && s[i] <= 57 {
        sp_digits(s, i + 1)
    } else {
        i
    }
}

/// Where the JSON number starting at `i` ends, if one starts there.
pub open spec fn sp_number(s: Seq<u8>, i: int) -> Option<int> {
    let j0 = if 0 <= i < s.len() && s[i] == 45 {
        i + 1
    } else {
        i
    };
    let j1 = sp_digits(s, j0);
    if j1 == j0 {
        None
    } else {
        let j2 = if j1 < s.len() && s[j1] == 46 {
            sp_digits(s, j1 + 1)
        } else {
            j1
        };
        if j1 < s.len() && s[j1] == 46 && j2 == j1 + 1 {
            None
        } else {
            if j2 < s.len() && (s[j2] == 101 || s[j2] == 69) {
                let e0 = if j2 + 1 < s.len() && (s[j2 + 1] == 43 || s[j2 + 1] == 45) {
                    j2 + 2
                } else {
                    j2 + 1
                };
                let e1 = sp_digits(s, e0);
                if e1 == e0 {
                    None
                } else {
                    Some(e1)
                }
            } else {
                Some(j2)
            }
        }
    }
}

/// The content and end of the JSON string whose opening quote stands just
/// before `j`.
pub open spec fn sp_string(s: Seq<u8>, j: int) -> Option<(Seq<u8>, int)>
    decreases s.len() - j, 0int,
{
    if !(0 <= j < s.len()) {
        None
    } else if s[j] == 34 {
        Some((Seq::empty(), j + 1))
    } else if s[j] == 92 {
        if j + 1 < s.len() {
            let e = s[j + 1];
            if e == 34 || e == 92 || e == 47 {
                sp_string_cons(s, e, j + 2)
            } else if e == 98 {
                sp_string_cons(s, 8, j + 2)
            } else if e == 102 {
                sp_string_cons(s, 12, j + 2)
            } else if e == 110 {
                sp_string_cons(s, 10, j + 2)
            } else if e == 114 {
                sp_string_cons(s, 13, j + 2)
            } else if e == 116 {
                sp_string_cons(s, 9, j + 2)
            } else if e == 117 {
                if j + 5 < s.len() && is_hex(s[j + 2]) && is_hex(s[j + 3]) && is_hex(s[j + 4])
                    && is_hex(s[j + 5]) {
                    let code = hex_v(s[j + 2]) as int * 4096 + hex_v(s[j + 3]) as int * 256 + hex_v(
                        s[j + 4],
                    ) as int * 16 + hex_v(s[j + 5]) as int;
                    if code < 128 {
                        sp_string_cons(s, code as u8, j + 6)
                    } else {
                        None
                    }
                } else {
                    None
                }
            } else {
                None
            }
        } else {
            None
        }
    } else {
        sp_string_cons(s, s[j], j + 1)
    }
}

/// One resolved content byte followed by the rest of the string.
pub open spec fn sp_string_cons(s: Seq<u8>, b: u8, j: int) -> Option<(Seq<u8>, int)>
    decreases s.len() - j, 1int,
{
    match sp_string(s, j) {
        Some((rest, end)) => Some((seq![b] + rest, end)),
        None => None,
    }
}

/// The value starting at position `i`, with the position just after it.
pub open spec fn sp_value(s: Seq<u8>, i: int) -> Option<(JsonModel, int)>
    decreases s.len() - i, 0int,
{
    if !(0 <= i < s.len()) {
        None
    } else {
        let b = s[i];
        if b == 110 {
            if i + 3 < s.len() && s[i + 1] == 117 && s[i + 2] == 108 && s[i + 3] == 108 {
                Some((JsonModel::Null, i + 4))
            } else {
                None
            }
        } else if b == 116 {
            if i + 3 < s.len() && s[i + 1] == 114 && s[i + 2] == 117 && s[i + 3] == 101 {
                Some((JsonModel::Bool(true), i + 4))
            } else {
                None
            }
        } else if b == 102 {
            if i + 4 < s.len() && s[i + 1] == 97 && s[i + 2] == 108 && s[i + 3] == 115 && s[i + 4]
                == 101 {
                Some((JsonModel::Bool(false), i + 5))
            } else {
                None
            }
        } else if b == 34 {
            match sp_string(s, i + 1) {
                Some((txt, end)) => Some((JsonModel::Str(txt), end)),
                None => None,
            }
        } else if b == 91 {
            sp_array(s, i + 1)
        } else if b == 123 {
            sp_object(s, i + 1)
        } else if b == 45 || (48 <= b && b <= 57) {
            match sp_number(s, i) {
                Some(end) => Some((JsonModel::Num(s.subrange(i, end)), end)),
                None => None,
            }
        } else {
            None
        }
    }
}

/// The array whose opening bracket stands just before `p`.
pub open spec fn sp_array(s: Seq<u8>, p: int) -> Option<(JsonModel, int)>
    decreases s.len() - p, 2int,
{
    if !(0 <= p <= s.len()) {
        None
    } else {
        let j = sp_ws(s, p);
        if p <= j < s.len() && s[j] == 93 {
            Some((JsonModel::Arr(Seq::empty()), j + 1))
        } else {
            match sp_items(s, p) {
                Some((elems, end)) => Some((JsonModel::Arr(elems), end)),
                None => None,
            }
        }
    }
}

/// One or more comma-separated array elements starting (after whitespace)
/// at `p`, up to and including the closing bracket.
pub open spec fn sp_items(s: Seq<u8>, p: int) -> Option<(Seq<JsonModel>, int)>
    decreases s.len() - p, 1int,
{
    if !(0 <= p <= s.len()) {
        None
    } else {
        let w = sp_ws(s, p);
        let j = if p <= w <= s.len() {
            w
        } else {
            p
        };
        match sp_value(s, j) {
            None => None,
            Some((m, j2)) => {
                let j3 = sp_ws(s, j2);
                if j3 < s.len() && s[j3] == 93 {
                    Some((seq![m], j3 + 1))
                } else if j3 < s.len() && s[j3] == 44 && j3 + 1 > p {
                    match sp_items(s, j3 + 1) {
                        Some((rest, end)) => Some((seq![m] + rest, end)),
                        None => None,
                    }
                } else {
                    None
                }
            },
        }
    }
}

/// The object whose opening brace stands just before `p`.
pub open spec fn sp_object(s: Seq<u8>, p: int) -> Option<(JsonModel, int)>
    decreases s.len() - p, 2int,
{
    if !(0 <= p <= s.len()) {
        None
    } else {
        let j = sp_ws(s, p);
        if p <= j < s.len() && s[j] == 125 {
            Some((JsonModel::Obj(Seq::empty()), j + 1))
        } else {
            match sp_members(s, p) {
                Some((fields, end)) => Some((JsonModel::Obj(fields), end)),
                None => None,
            }
        }
    }
}

/// One or more comma-separated object members starting (after whitespace)
/// at `p`, up to and including the closing brace.
pub open spec fn sp_members(s: Seq<u8>, p: int) -> Option<(Seq<(Seq<u8>, JsonModel)>, int)>
    decreases s.len() - p, 1int,
{
    if !(0 <= p <= s.len()) {
        None
    } else {
        let w = sp_ws(s, p);
        let j = if p <= w <= s.len() {
            w
        } else {
            p
        };
        if !(j < s.len() && s[j] == 34) {
            None
        } else {
            match sp_string(s, j + 1) {
                None => None,
                Some((key, k2)) => {
                    let c0 = sp_ws(s, k2);
                    let c = if j < c0 <= s.len() {
                        c0
                    } else {
                        j + 1
                    };
                    if !(c < s.len() && s[c] == 58) {
                        None
                    } else {
                        let v0 = sp_ws(s, c + 1);
                        let v = if c < v0 <= s.len() {
                            v0
                        } else {
                            c + 1
                        };
                        match sp_value(s, v) {
                            None => None,
                            Some((m, j2)) => {
                                let j3 = sp_ws(s, j2);
                                if j3 < s.len() && s[j3] == 125 {
                                    Some((seq![(key, m)], j3 + 1))
                                } else if j3 < s.len() && s[j3] == 44 && j3 + 1 > p {
                                    match sp_members(s, j3 + 1) {
                                        Some((rest, end)) => Some((seq![(key, m)] + rest, end)),
                                        None => None,
                                    }
                                } else {
                                    None
                                }
                            },
                        }
                    }
                }
            }
        }
    }
}

/// What a whole response body parses to: one JSON document, surrounded
/// only by whitespace.
pub open spec fn sp_json(s: Seq<u8>) -> Option<JsonModel> {
    let i = sp_ws(s, 0);
    if !(0 <= i < s.len()) {
        None
    } else {
        match sp_value(s, i) {
            None => None,
            Some((m, j)) => if sp_ws(s, j) == s.len() {
                Some(m)
            } else {
                None
            },
        }
    }
}

/// The continuation invariant of string scanning: what the whole string
/// starting at `i1` parses to is the bytes already resolved followed by
/// whatever remains from `j`.
pub open spec fn string_cont(s: Seq<u8>, i1: int, j: int, out: Seq<u8>) -> bool {
    match sp_string(s, j) {
        Some((rest, end)) => sp_string(s, i1) == Some((out + rest, end)),
        None => sp_string(s, i1) is None,
    }
}

proof fn lemma_string_step(s: Seq<u8>, i1: int, j0: int, jn: int, out0: Seq<u8>, b: u8)
    requires
        string_cont(s, i1, j0, out0),
        sp_string(s, j0) == sp_string_cons(s, b, jn),
    ensures
        string_cont(s, i1, jn, out0.push(b)),
{
    assert(out0.push(b) =~= out0 + seq![b]);
    if let Some((rest, end)) = sp_string(s, jn) {
        assert(sp_string(s, j0) == Some((seq![b] + rest, end)));
        assert(out0 + (seq![b] + rest) =~= (out0 + seq![b]) + rest);
    }
}

/// The models of a sequence of parsed values from index `k` on.
pub open spec fn vals_models(vs: Seq<JsonValue>, k: int) -> Seq<JsonModel>
    decreases vs.len() - k,
{
    if 0 <= k < vs.len() {
        seq![jv_model(vs[k])] + vals_models(vs, k + 1)
    } else {
        Seq::empty()
    }
}

/// The models of a sequence of parsed fields from index `k` on.
pub open spec fn pairs_models(fs: Seq<(Vec<u8>, JsonValue)>, k: int) -> Seq<(Seq<u8>, JsonModel)>
    decreases fs.len() - k,
{
    if 0 <= k < fs.len() {
        seq![(fs[k].0@, jv_model(fs[k].1))] + pairs_models(fs, k + 1)
    } else {
        Seq::empty()
    }
}

pub proof fn lemma_vals_models_push(vs: Seq<JsonValue>, v: JsonValue, k: int)
    requires
        0 <= k <= vs.len(),
    ensures
        vals_models(vs.push(v), k) == vals_models(vs, k) + seq![jv_model(v)],
    decreases vs.len() - k,
{
    if k < vs.len() {
        lemma_vals_models_push(vs, v, k + 1);
        assert(vs.push(v)[k] == vs[k]);
        assert(seq![jv_model(vs[k])] + (vals_models(vs, k + 1) + seq![jv_model(v)]) =~= (
        seq![jv_model(vs[k])] + vals_models(vs, k + 1)) + seq![jv_model(v)]);
    } else {
        assert(vs.push(v)[k] == v);
        assert(vals_models(vs.push(v), k + 1) =~= Seq::<JsonModel>::empty());
        assert(seq![jv_model(v)] + Seq::<JsonModel>::empty() =~= Seq::<JsonModel>::empty()
            + seq![jv_model(v)]);
    }
}

pub proof fn lemma_pairs_models_push(fs: Seq<(Vec<u8>, JsonValue)>, f: (Vec<u8>, JsonValue), k: int)
    requires
        0 <= k <= fs.len(),
    ensures
        pairs_models(fs.push(f), k) == pairs_models(fs, k) + seq![(f.0@, jv_model(f.1))],
    decreases fs.len() - k,
{
    if k < fs.len() {
        lemma_pairs_models_push(fs, f, k + 1);
        assert(fs.push(f)[k] == fs[k]);
        assert(seq![(fs[k].0@, jv_model(fs[k].1))] + (pairs_models(fs, k + 1) + seq![
            (f.0@, jv_model(f.1)),
        ]) =~= (seq![(fs[k].0@, jv_model(fs[k].1))] + pairs_models(fs, k + 1)) + seq![
            (f.0@, jv_model(f.1)),
        ]);
    } else {
        assert(fs.push(f)[k] == f);
        assert(pairs_models(fs.push(f), k + 1) =~= Seq::<(Seq<u8>, JsonModel)>::empty());
        assert(seq![(f.0@, jv_model(f.1))] + Seq::<(Seq<u8>, JsonModel)>::empty() =~= Seq::<
            (Seq<u8>, JsonModel),
        >::empty() + seq![(f.0@, jv_model(f.1))]);
    }
}

pub proof fn lemma_arr_models_are_vals(items: Vec<JsonValue>, k: int)
    ensures
        arr_models(items, k) == vals_models(items@, k),
    decreases items@.len() - k,
{
    if 0 <= k < items@.len() {
        lemma_arr_models_are_vals(items, k + 1);
    }
}

pub proof fn lemma_obj_models_are_pairs(fields: Vec<(Vec<u8>, JsonValue)>, k: int)
    ensures
        obj_models(fields, k) == pairs_models(fields@, k),
    decreases fields@.len() - k,
{
    if 0 <= k < fields@.len() {
        lemma_obj_models_are_pairs(fields, k + 1);
        assert(field_model(fields@[k]) == (fields@[k].0@, jv_model(fields@[k].1)));
    }
}

/// How an array parse reduces to the parse of its element list.
pub open spec fn array_glue(s: Seq<u8>, p: int) -> bool {
    match sp_items(s, p) {
        Some((elems, end)) => sp_array(s, p) == Some((JsonModel::Arr(elems), end)),
        None => sp_array(s, p) is None,
    }
}

/// How an object parse reduces to the parse of its member list.
pub open spec fn object_glue(s: Seq<u8>, p: int) -> bool {
    match sp_members(s, p) {
        Some((fields, end)) => sp_object(s, p) == Some((JsonModel::Obj(fields), end)),
        None => sp_object(s, p) is None,
    }
}

/// The continuation invariant of array-element scanning.
pub open spec fn items_cont(s: Seq<u8>, p: int, j: int, ms: Seq<JsonModel>) -> bool {
    match sp_items(s, j) {
        Some((rest, end)) => sp_items(s, p) == Some((ms + rest, end)),
        None => sp_items(s, p) is None,
    }
}

proof fn lemma_items_step(s: Seq<u8>, p: int, j0: int, jn: int, ms: Seq<JsonModel>, m: JsonModel)
    requires
        items_cont(s, p, j0, ms),
        sp_items(s, j0) == (match sp_items(s, jn) {
            Some((rest, end)) => Some((seq![m] + rest, end)),
            None => None::<(Seq<JsonModel>, int)>,
        }),
    ensures
        items_cont(s, p, jn, ms + seq![m]),
{
    if let Some((rest, end)) = sp_items(s, jn) {
        assert(sp_items(s, j0) == Some((seq![m] + rest, end)));
        assert(ms + (seq![m] + rest) =~= (ms + seq![m]) + rest);
    }
}

/// The continuation invariant of object-member scanning.
pub open spec fn members_cont(s: Seq<u8>, p: int, j: int, ms: Seq<(Seq<u8>, JsonModel)>) -> bool {
    match sp_members(s, j) {
        Some((rest, end)) => sp_members(s, p) == Some((ms + rest, end)),
        None => sp_members(s, p) is None,
    }
}

proof fn lemma_members_step(
    s: Seq<u8>,
    p: int,
    j0: int,
    jn: int,
    ms: Seq<(Seq<u8>, JsonModel)>,
    f: (Seq<u8>, JsonModel),
)
    requires
        members_cont(s, p, j0, ms),
        sp_members(s, j0) == (match sp_members(s, jn) {
            Some((rest, end)) => Some((seq![f] + rest, end)),
            None => None::<(Seq<(Seq<u8>, JsonModel)>, int)>,
        }),
    ensures
        members_cont(s, p, jn, ms + seq![f]),
{
    if let Some((rest, end)) = sp_members(s, jn) {
        assert(sp_members(s, j0) == Some((seq![f] + rest, end)));
        assert(ms + (seq![f] + rest) =~= (ms + seq![f]) + rest);
    }
}

fn skip_ws(s: &[u8], i: usize) -> (j: usize)
    requires
        i <= s@.len(),
    ensures
        i <= j <= s@.len(),
        j as int == sp_ws(s@, i as int),
        j == s@.len() || !(s@[j as int] == 32 || s@[j as int] == 9 || s@[j as int] == 10
            || s@[j as int] == 13),
{
    let mut j = i;
    while j < s.len() && (s[j] == 32 || s[j] == 9 || s[j] == 10 || s[j] == 13)
        invariant
            i <= j <= s@.len(),
            sp_ws(s@, i as int) == sp_ws(s@, j as int),
        decreases s@.len() - j,
    {
        j += 1;
    }
    j
}

fn hex_val(b: u8) -> (r: Option<u8>)
    ensures
        r == (if is_hex(b) {
            Some(hex_v(b))
        } else {
            None::<u8>
        }),
        r matches Some(v) ==> v < 16,
{
    if 48 <= b && b <= 57 {
        Some(b - 48)
    } else if 97 <= b && b <= 102 {
        Some(b - 87)
    } else if 65 <= b && b <= 70 {
        Some(b - 55)
    } else {
        None
    }
}

fn parse_string(s: &[u8], i: usize) -> (r: Option<(Vec<u8>, usize)>)
    requires
        i < s@.len(),
        s@[i as int] == 34,
    ensures
        match r {
            Some(p) => i < p.1 <= s@.len() && sp_string(s@, (i + 1) as int) == Some(
                (p.0@, p.1 as int),
            ),
            None => sp_string(s@, (i + 1) as int) is None,
        },
{
    let _slen = s.len();
    let mut out: Vec<u8> = Vec::new();
    let mut j = i + 1;
    proof {
        if let Some((rest, end)) = sp_string(s@, (i + 1) as int) {
            assert(out@ + rest =~= rest);
        }
        assert(string_cont(s@, (i + 1) as int, j as int, out@));
    }
    loop
        invariant
            i < j <= s@.len(),
            string_cont(s@, (i + 1) as int, j as int, out@),
        decreases s@.len() - j,
    {
        if j >= s.len() {
            proof {
                assert(sp_string(s@, j as int) is None);
            }
            return None;
        }
        let b = s[j];
        if b == 34 {
            proof {
                assert(sp_string(s@, j as int) == Some((Seq::<u8>::empty(), j + 1)));
                assert(out@ + Seq::<u8>::empty() =~= out@);
            }
            return Some((out, j + 1));
        }
        let ghost out0 = out@;
        if b == 92 {
            if s.len() - j < 2 {
                proof {
                    assert(sp_string(s@, j as int) is None);
                }
                return None;
            }
            let e = s[j + 1];
            if e == 34 || e == 92 || e == 47 {
                out.push(e);
                proof {
                    assert(sp_string(s@, j as int) == sp_string_cons(s@, e, (j + 2) as int));
                    lemma_string_step(s@, (i + 1) as int, j as int, (j + 2) as int, out0, e);
                }
                j += 2;
            } else if e == 98 {
                out.push(8);
                proof {
                    assert(sp_string(s@, j as int) == sp_string_cons(s@, 8, (j + 2) as int));
                    lemma_string_step(s@, (i + 1) as int, j as int, (j + 2) as int, out0, 8);
                }
                j += 2;
            } else if e == 102 {
                out.push(12);
                proof {
                    assert(sp_string(s@, j as int) == sp_string_cons(s@, 12, (j + 2) as int));
                    lemma_string_step(s@, (i + 1) as int, j as int, (j + 2) as int, out0, 12);
                }
                j += 2;
            } else if e == 110 {
                out.push(10);
                proof {
                    assert(sp_string(s@, j as int) == sp_string_cons(s@, 10, (j + 2) as int));
                    lemma_string_step(s@, (i + 1) as int, j as int, (j + 2) as int, out0, 10);
                }
                j += 2;
            } else if e == 114 {
                out.push(13);
                proof {
                    assert(sp_string(s@, j as int) == sp_string_cons(s@, 13, (j + 2) as int));
                    lemma_string_step(s@, (i + 1) as int, j as int, (j + 2) as int, out0, 13);
                }
                j += 2;
            } else if e == 116 {
                out.push(9);
                proof {
                    assert(sp_string(s@, j as int) == sp_string_cons(s@, 9, (j + 2) as int));
                    lemma_string_step(s@, (i + 1) as int, j as int, (j + 2) as int, out0, 9);
                }
                j += 2;
            } else if e == 117 {
                if s.len() - j < 6 {
                    proof {
                        assert(sp_string(s@, j as int) is None);
                    }
                    return None;
                }
                let h1 = hex_val(s[j + 2]);
                let h2 = hex_val(s[j + 3]);
                let h3 = hex_val(s[j + 4]);
                let h4 = hex_val(s[j + 5]);
                match (h1, h2, h3, h4) {
                    (Some(a), Some(b1), Some(c), Some(d)) => {
                        let code: u32 = (a as u32) * 4096 + (b1 as u32) * 256 + (c as u32) * 16
                            + (d as u32);
                        if code < 128 {
                            out.push(code as u8);
                            proof {
                                assert(sp_string(s@, j as int) == sp_string_cons(
                                    s@,
                                    code as u8,
                                    (j + 6) as int,
                                ));
                                lemma_string_step(
                                    s@,
                                    (i + 1) as int,
                                    j as int,
                                    (j + 6) as int,
                                    out0,
                                    code as u8,
                                );
                            }
                            j += 6;
                        } else {
                            proof {
                                assert(sp_string(s@, j as int) is None);
                            }
                            return None;
                        }
                    },
                    _ => {
                        proof {
                            assert(sp_string(s@, j as int) is None);
                        }
                        return None;
                    },
                }
            } else {
                proof {
                    assert(sp_string(s@, j as int) is None);
                }
                return None;
            }
        } else {
            out.push(b);
            proof {
                assert(sp_string(s@, j as int) == sp_string_cons(s@, b, (j + 1) as int));
                lemma_string_step(s@, (i + 1) as int, j as int, (j + 1) as int, out0, b);
            }
            j += 1;
        }
    }
}

fn parse_number(s: &[u8], i: usize) -> (r: Option<(Vec<u8>, usize)>)
    requires
        i < s@.len(),
    ensures
        match r {
            Some(p) => i < p.1 <= s@.len() && sp_number(s@, i as int) == Some(p.1 as int) && p.0@
                == s@.subrange(i as int, p.1 as int),
            None => sp_number(s@, i as int) is None,
        },
{
    let mut j = i;
    if s[j] == 45 {
        j += 1;
    }
    let int_start = j;
    while j < s.len() && 48 <= s[j] && s[j] <= 57
        invariant
            i <= int_start <= j <= s@.len(),
            sp_digits(s@, int_start as int) == sp_digits(s@, j as int),
        decreases s@.len() - j,
    {
        j += 1;
    }
    proof {
        assert(sp_digits(s@, j as int) == j as int);
    }
    if j == int_start {
        return None;
    }
    if j < s.len() && s[j] == 46 {
        j += 1;
        let frac_start = j;
        while j < s.len() && 48 <= s[j] && s[j] <= 57
            invariant
                i < frac_start <= j <= s@.len(),
                sp_digits(s@, frac_start as int) == sp_digits(s@, j as int),
            decreases s@.len() - j,
        {
            j += 1;
        }
        proof {
            assert(sp_digits(s@, j as int) == j as int);
        }
        if j == frac_start {
            return None;
        }
    }
    if j < s.len() && (s[j] == 101 || s[j] == 69) {
        j += 1;
        if j < s.len() && (s[j] == 43 || s[j] == 45) {
            j += 1;
        }
        let exp_start = j;
        while j < s.len() && 48 <= s[j] && s[j] <= 57
            invariant
                i < exp_start <= j <= s@.len(),
                sp_digits(s@, exp_start as int) == sp_digits(s@, j as int),
            decreases s@.len() - j,
        {
            j += 1;
        }
        proof {
            assert(sp_digits(s@, j as int) == j as int);
        }
        if j == exp_start {
            return None;
        }
    }
    let mut out: Vec<u8> = Vec::new();
    let mut k = i;
    while k < j
        invariant
            i <= k <= j <= s@.len(),
            out@ == s@.subrange(i as int, k as int),
        decreases j - k,
    {
        out.push(s[k]);
        proof {
            assert(out@ =~= s@.subrange(i as int, k + 1));
        }
        k += 1;
    }
    Some((out, j))
}

fn parse_value(s: &[u8], i: usize) -> (r: Option<(JsonValue, usize)>)
    requires
        i <= s@.len(),
    ensures
        match r {
            Some(p) => i < p.1 <= s@.len() && sp_value(s@, i as int) == Some(
                (jv_model(p.0), p.1 as int),
            ),
            None => sp_value(s@, i as int) is None,
        },
    decreases s@.len() - i, 1int,
{
    if i >= s.len() {
        return None;
    }
    let b = s[i];
    if b == 110 {
        if s.len() - i >= 4 && s[i + 1] == 117 && s[i + 2] == 108 && s[i + 3] == 108 {
            Some((JsonValue::Null, i + 4))
        } else {
            None
        }
    } else if b == 116 {
        if s.len() - i >= 4 && s[i + 1] == 114 && s[i + 2] == 117 && s[i + 3] == 101 {
            Some((JsonValue::Bool(true), i + 4))
        } else {
            None
        }
    } else if b == 102 {
        if s.len() - i >= 5 && s[i + 1] == 97 && s[i + 2] == 108 && s[i + 3] == 115 && s[i + 4]
            == 101 {
            Some((JsonValue::Bool(false), i + 5))
        } else {
            None
        }
    } else if b == 34 {
        match parse_string(s, i) {
            Some((content, j)) => {
                proof {
                    assert(jv_model(JsonValue::Str(content)) == JsonModel::Str(content@));
                    assert(sp_value(s@, i as int) == Some((JsonModel::Str(content@), j as int)));
                }
                Some((JsonValue::Str(content), j))
            },
            None => None,
        }
    } else if b == 91 {
        let r = parse_array(s, i);
        proof {
            assert(sp_value(s@, i as int) == sp_array(s@, (i + 1) as int));
        }
        r
    } else if b == 123 {
        let r = parse_object(s, i);
        proof {
            assert(sp_value(s@, i as int) == sp_object(s@, (i + 1) as int));
        }
        r
    } else if b == 45 || (48 <= b && b <= 57) {
        match parse_number(s, i) {
            Some((raw, j)) => {
                proof {
                    assert(jv_model(JsonValue::Num(raw)) == JsonModel::Num(raw@));
                    assert(sp_value(s@, i as int) == Some(
                        (JsonModel::Num(s@.subrange(i as int, j as int)), j as int),
                    ));
                }
                Some((JsonValue::Num(raw), j))
            },
            None => None,
        }
    } else {
        None
    }
}

fn parse_array(s: &[u8], i: usize) -> (r: Option<(JsonValue, usize)>)
    requires
        i < s@.len(),
        s@[i as int] == 91,
    ensures
        match r {
            Some(p) => i < p.1 <= s@.len() && sp_array(s@, (i + 1) as int) == Some(
                (jv_model(p.0), p.1 as int),
            ),
            None => sp_array(s@, (i + 1) as int) is None,
        },
    decreases s@.len() - i, 0int,
{
    let _slen = s.len();
    let ghost p = (i + 1) as int;
    let mut items: Vec<JsonValue> = Vec::new();
    let mut j = skip_ws(s, i + 1);
    if j < s.len() && s[j] == 93 {
        proof {
            assert(arr_models(items, 0) =~= Seq::<JsonModel>::empty());
            assert(sp_array(s@, p) == Some((JsonModel::Arr(Seq::<JsonModel>::empty()), j + 1)));
        }
        return Some((JsonValue::Arr(items), j + 1));
    }
    let ghost mut ju: int = p;
    let ghost mut ms: Seq<JsonModel> = Seq::empty();
    proof {
        assert(array_glue(s@, p));
        if let Some((rest, end)) = sp_items(s@, ju) {
            assert(ms + rest =~= rest);
        }
        assert(items_cont(s@, p, ju, ms));
        assert(vals_models(items@, 0) =~= ms);
    }
    loop
        invariant
            i < j <= s@.len(),
            0 <= ju <= j,
            j as int == sp_ws(s@, ju),
            items_cont(s@, p, ju, ms),
            vals_models(items@, 0) == ms,
            array_glue(s@, p),
            p == i + 1,
        decreases s@.len() - j,
    {
        match parse_value(s, j) {
            None => {
                proof {
                    assert(sp_items(s@, ju) is None);
                }
                return None;
            },
            Some((v, j2)) => {
                let ghost m = jv_model(v);
                let ghost items0 = items@;
                items.push(v);
                proof {
                    lemma_vals_models_push(items0, v, 0);
                }
                let j3 = skip_ws(s, j2);
                if j3 >= s.len() {
                    proof {
                        assert(sp_items(s@, ju) is None);
                    }
                    return None;
                }
                if s[j3] == 93 {
                    proof {
                        assert(sp_items(s@, ju) == Some((seq![m], j3 + 1)));
                        if let Some((rest, end)) = sp_items(s@, ju) {
                            assert(sp_items(s@, p) == Some((ms + seq![m], j3 + 1)));
                        }
                        lemma_arr_models_are_vals(items, 0);
                        assert(jv_model(JsonValue::Arr(items)) == JsonModel::Arr(ms + seq![m]));
                    }
                    return Some((JsonValue::Arr(items), j3 + 1));
                }
                if s[j3] != 44 {
                    proof {
                        assert(sp_items(s@, ju) is None);
                    }
                    return None;
                }
                proof {
                    assert(sp_items(s@, ju) == (match sp_items(s@, j3 + 1) {
                        Some((rest, end)) => Some((seq![m] + rest, end)),
                        None => None::<(Seq<JsonModel>, int)>,
                    }));
                    lemma_items_step(s@, p, ju, j3 + 1, ms, m);
                }
                j = skip_ws(s, j3 + 1);
                proof {
                    ju = j3 + 1;
                    ms = ms + seq![m];
                }
            },
        }
    }
}

fn parse_object(s: &[u8], i: usize) -> (r: Option<(JsonValue, usize)>)
    requires
        i < s@.len(),
        s@[i as int] == 123,
    ensures
        match r {
            Some(p) => i < p.1 <= s@.len() && sp_object(s@, (i + 1) as int) == Some(
                (jv_model(p.0), p.1 as int),
            ),
            None => sp_object(s@, (i + 1) as int) is None,
        },
    decreases s@.len() - i, 0int,
{
    let _slen = s.len();
    let ghost p = (i + 1) as int;
    let mut fields: Vec<(Vec<u8>, JsonValue)> = Vec::new();
    let mut j = skip_ws(s, i + 1);
    if j < s.len() && s[j] == 125 {
        proof {
            assert(obj_models(fields, 0) =~= Seq::<(Seq<u8>, JsonModel)>::empty());
            assert(sp_object(s@, p) == Some(
                (JsonModel::Obj(Seq::<(Seq<u8>, JsonModel)>::empty()), j + 1),
            ));
        }
        return Some((JsonValue::Obj(fields), j + 1));
    }
    let ghost mut ju: int = p;
    let ghost mut ms: Seq<(Seq<u8>, JsonModel)> = Seq::empty();
    proof {
        assert(object_glue(s@, p));
        if let Some((rest, end)) = sp_members(s@, ju) {
            assert(ms + rest =~= rest);
        }
        assert(members_cont(s@, p, ju, ms));
        assert(pairs_models(fields@, 0) =~= ms);
    }
    loop
        invariant
            i < j <= s@.len(),
            0 <= ju <= j,
            j as int == sp_ws(s@, ju),
            members_cont(s@, p, ju, ms),
            pairs_models(fields@, 0) == ms,
            object_glue(s@, p),
            p == i + 1,
        decreases s@.len() - j,
    {
        if j >= s.len() {
            proof {
                assert(sp_members(s@, ju) is None);
            }
            return None;
        }
        if s[j] != 34 {
            proof {
                assert(sp_members(s@, ju) is None);
            }
            return None;
        }
        match parse_string(s, j) {
            None => {
                proof {
                    assert(sp_members(s@, ju) is None);
                }
                return None;
            },
            Some((key, j2)) => {
                let ghost keym = key@;
                let j3 = skip_ws(s, j2);
                if j3 >= s.len() {
                    proof {
                        assert(sp_members(s@, ju) is None);
                    }
                    return None;
                }
                if s[j3] != 58 {
                    proof {
                        assert(sp_members(s@, ju) is None);
                    }
                    return None;
                }
                let j4 = skip_ws(s, j3 + 1);
                match parse_value(s, j4) {
                    None => {
                        proof {
                            assert(sp_members(s@, ju) is None);
                        }
                        return None;
                    },
                    Some((v, j5)) => {
                        let ghost m = jv_model(v);
                        let ghost fields0 = fields@;
                        fields.push((key, v));
                        proof {
                            lemma_pairs_models_push(fields0, (fields@[fields@.len() - 1]), 0);
                            assert(fields@[fields@.len() - 1].0@ == keym);
                            assert(pairs_models(fields@, 0) == ms + seq![(keym, m)]);
                        }
                        let j6 = skip_ws(s, j5);
                        if j6 >= s.len() {
                            proof {
                                assert(sp_members(s@, ju) is None);
                            }
                            return None;
                        }
                        if s[j6] == 125 {
                            proof {
                                assert(sp_members(s@, ju) == Some((seq![(keym, m)], j6 + 1)));
                                if let Some((rest, end)) = sp_members(s@, ju) {
                                    assert(sp_members(s@, p) == Some((ms + seq![(keym, m)], j6 + 1)));
                                }
                                lemma_obj_models_are_pairs(fields, 0);
                                assert(jv_model(JsonValue::Obj(fields)) == JsonModel::Obj(
                                    ms + seq![(keym, m)],
                                ));
                            }
                            return Some((JsonValue::Obj(fields), j6 + 1));
                        }
                        if s[j6] != 44 {
                            proof {
                                assert(sp_members(s@, ju) is None);
                            }
                            return None;
                        }
                        proof {
                            assert(sp_members(s@, ju) == (match sp_members(s@, j6 + 1) {
                                Some((rest, end)) => Some((seq![(keym, m)] + rest, end)),
                                None => None::<(Seq<(Seq<u8>, JsonModel)>, int)>,
                            }));
                            lemma_members_step(s@, p, ju, j6 + 1, ms, (keym, m));
                        }
                        j = skip_ws(s, j6 + 1);
                        proof {
                            ju = j6 + 1;
                            ms = ms + seq![(keym, m)];
                        }
                    },
                }
            },
        }
    }
}

/// Parses a whole response body as one JSON document; trailing or leading
/// whitespace is accepted, anything else around the document is not.
pub fn parse_json(body: &[u8]) -> (r: Option<JsonValue>)
    ensures
        match r {
            Some(v) => sp_json(body@) == Some(jv_model(v)),
            None => sp_json(body@) is None,
        },
{
    let i = skip_ws(body, 0);
    if i >= body.len() {
        return None;
    }
    match parse_value(body, i) {
        None => None,
        Some((v, j)) => {
            let k = skip_ws(body, j);
            if k == body.len() {
                Some(v)
            } else {
                None
            }
        },
    }
}

} // verus!
