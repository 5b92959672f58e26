//! From parsed values to the typed document model.
//!
//! Each entity has three parts: a `*_ok` specification saying exactly when
//! a value parses (required fields present, every present field of the
//! right shape), a `*_rep` specification pinning every field of the parsed
//! entity to the value's content, and an executable parser whose contract
//! is those two: it succeeds if and only if `*_ok` holds, and its result
//! satisfies `*_rep`.  Field names follow the wire format's camel case;
//! absent optional fields take the documented defaults.

use vstd::prelude::*;
use crate::json::{GVal, GKind, JVal, JKind, JMember, ErrorKind, members_view};
use crate::model::{
    ONE_BITS, HALF_BITS, THREE_HALVES_BITS, QUARTER_PI_BITS, TextureInfo, NormalTextureInfo,
    OcclusionTextureInfo, PbrMetallicRoughness, Material, Texture, Image, Sampler, Buffer,
    BufferView, Accessor, Sparse, SparseIndices, SparseValues, Attributes, Primitive, Mesh, Node,
    Channel, Target, AnimationSampler, Animation, Skin, Camera, CameraPerspective,
    CameraOrthographic, Scene, Gltf,
};
use crate::extensions::{
    KhrTextureBasisu, KhrTextureTransform, KhrMaterialsSheen, KhrMaterialsEmissiveStrength,
    KhrMaterialsUnlit, KhrLightsPunctual, Light, LightSpot, KhrMaterialsIor, KhrMaterialsSpecular,
    KhrMaterialsTransmission, ExtMeshoptCompression, ExtMeshoptCompressionBuffer,
    ExtMeshGpuInstancing, ExtMeshGpuInstancingAttributes, MsftLod, RootExtensions,
    BufferExtensions, NodeExtensions, NodeExtras, TextureExtensions, BufferViewExtensions,
    MaterialExtensions, TextureInfoExtensions,
};

verus! {

/// Looks a key up among an object's members; the last occurrence wins.
pub open spec fn obj_get(ms: Seq<(Seq<char>, GVal)>, k: Seq<char>) -> Option<GVal>
    decreases ms.len(),
{
    if ms.len() == 0 {
        None
    } else if ms.last().0 == k {
        Some(ms.last().1)
    } else {
        obj_get(ms.drop_last(), k)
    }
}

/// The member list of an object value.
pub open spec fn obj_members(g: GVal) -> Seq<(Seq<char>, GVal)>
    recommends
        g.kind is Obj,
{
    g.kind->Obj_0
}

/// Field lookup on an object value.
pub open spec fn fget(g: GVal, k: Seq<char>) -> Option<GVal>
    recommends
        g.kind is Obj,
{
    obj_get(obj_members(g), k)
}

/// Character-for-character string comparison.
pub(crate) fn str_eq(a: &str, b: &str) -> (r: bool)
    ensures
        r == (a@ == b@),
{
    let la = a.unicode_len();
    let lb = b.unicode_len();
    if la != lb {
        proof {
            assert(a@ != b@);
        }
        return false;
    }
    let mut i: usize = 0;
    while i < la
        invariant
            la == a@.len(),
            lb == b@.len(),
            la == lb,
            i <= la,
            forall|j: int| 0 <= j < i ==> a@[j] == b@[j],
        decreases la - i,
    {
        if a.get_char(i) != b.get_char(i) {
            proof {
                assert(a@[i as int] != b@[i as int]);
            }
            return false;
        }
        i = i + 1;
    }
    proof {
        assert(a@ =~= b@);
    }
    true
}

/// Finds the value of a key among an object's members, the last occurrence
/// winning, as [`obj_get`] says.
pub(crate) fn jget<'a>(ms: &'a Vec<JMember>, k: &str) -> (r: Option<&'a JVal>)
    ensures
        match r {
            Some(v) => obj_get(members_view(ms@), k@) == Some(v@),
            None => obj_get(members_view(ms@), k@) is None,
        },
{
    let mut i: usize = ms.len();
    proof {
        assert(members_view(ms@).take(ms@.len() as int) =~= members_view(ms@));
    }
    while i > 0
        invariant
            i <= ms@.len(),
            obj_get(members_view(ms@), k@) == obj_get(members_view(ms@).take(i as int), k@),
        decreases i,
    {
        let ghost pre = members_view(ms@).take(i as int);
        proof {
            assert(pre.len() == i);
            assert(pre.last() == (ms@[i - 1].key@, ms@[i - 1].val@));
            assert(pre.drop_last() =~= members_view(ms@).take(i - 1));
        }
        if str_eq(ms[i - 1].key.as_str(), k) {
            return Some(&ms[i - 1].val);
        }
        i = i - 1;
    }
    proof {
        assert(members_view(ms@).take(0) =~= Seq::<(Seq<char>, GVal)>::empty());
    }
    None
}

/// Whether an optional field is, if present, an exact machine-sized
/// unsigned integer.
pub open spec fn ok_opt_usize(o: Option<GVal>) -> bool {
    match o {
        None => true,
        Some(g) => g.kind matches GKind::Num { int_val: Some(v), .. } && v <= usize::MAX,
    }
}

/// The integer an optional field holds, if any.
pub open spec fn val_opt_usize(o: Option<GVal>) -> Option<usize> {
    match o {
        None => None,
        Some(g) => match g.kind {
            GKind::Num { int_val, .. } => match int_val {
                Some(v) => Some(v as usize),
                None => None,
            },
            _ => None,
        },
    }
}

pub(crate) fn get_opt_usize(ms: &Vec<JMember>, k: &str) -> (r: Result<Option<usize>, (ErrorKind, usize)>)
    ensures
        r is Ok <==> ok_opt_usize(obj_get(members_view(ms@), k@)),
        r matches Ok(v) ==> v == val_opt_usize(obj_get(members_view(ms@), k@)),
{
    match jget(ms, k) {
        None => Ok(None),
        Some(v) => match &v.kind {
            JKind::Num(n) => match n.int_val {
                Some(iv) => {
                    if iv <= usize::MAX as u64 {
                        Ok(Some(iv as usize))
                    } else {
                        Err((ErrorKind::WrongType, v.pos))
                    }
                },
                None => Err((ErrorKind::WrongType, v.pos)),
            },
            _ => Err((ErrorKind::WrongType, v.pos)),
        },
    }
}

/// A required machine-sized unsigned integer field.
pub open spec fn ok_req_usize(o: Option<GVal>) -> bool {
    o is Some && ok_opt_usize(o)
}

pub open spec fn val_req_usize(o: Option<GVal>, d: usize) -> usize {
    match val_opt_usize(o) {
        Some(v) => v,
        None => d,
    }
}

pub(crate) fn get_req_usize(ms: &Vec<JMember>, k: &str, pos: usize) -> (r: Result<usize, (ErrorKind, usize)>)
    ensures
        r is Ok <==> ok_req_usize(obj_get(members_view(ms@), k@)),
        r matches Ok(v) ==> Some(v) == val_opt_usize(obj_get(members_view(ms@), k@)),
{
    match get_opt_usize(ms, k)? {
        Some(v) => Ok(v),
        None => Err((ErrorKind::MissingField, pos)),
    }
}

/// An optional integer field with a default.
pub open spec fn val_usize_def(o: Option<GVal>, d: usize) -> usize {
    match val_opt_usize(o) {
        Some(v) => v,
        None => d,
    }
}

pub(crate) fn get_usize_def(ms: &Vec<JMember>, k: &str, d: usize) -> (r: Result<usize, (ErrorKind, usize)>)
    ensures
        r is Ok <==> ok_opt_usize(obj_get(members_view(ms@), k@)),
        r matches Ok(v) ==> v == val_usize_def(obj_get(members_view(ms@), k@), d),
{
    match get_opt_usize(ms, k)? {
        Some(v) => Ok(v),
        None => Ok(d),
    }
}

/// Whether an optional field is, if present, a number; every number has a
/// floating-point reading.
pub open spec fn ok_opt_bits(o: Option<GVal>) -> bool {
    match o {
        None => true,
        Some(g) => g.kind is Num,
    }
}

/// The bit pattern an optional numeric field holds, or the default.
pub open spec fn val_bits_def(o: Option<GVal>, d: u32) -> u32 {
    match o {
        None => d,
        Some(g) => match g.kind {
            GKind::Num { bits, .. } => bits,
            _ => d,
        },
    }
}

pub(crate) fn get_bits_def(ms: &Vec<JMember>, k: &str, d: u32) -> (r: Result<u32, (ErrorKind, usize)>)
    ensures
        r is Ok <==> ok_opt_bits(obj_get(members_view(ms@), k@)),
        r matches Ok(v) ==> v == val_bits_def(obj_get(members_view(ms@), k@), d),
{
    match jget(ms, k) {
        None => Ok(d),
        Some(v) => match &v.kind {
            JKind::Num(n) => Ok(n.bits),
            _ => Err((ErrorKind::WrongType, v.pos)),
        },
    }
}

/// A required numeric field, as its bit pattern.
pub open spec fn ok_req_bits(o: Option<GVal>) -> bool {
    o is Some && ok_opt_bits(o)
}

pub(crate) fn get_req_bits(ms: &Vec<JMember>, k: &str, pos: usize) -> (r: Result<u32, (ErrorKind, usize)>)
    ensures
        r is Ok <==> ok_req_bits(obj_get(members_view(ms@), k@)),
        r matches Ok(v) ==> v == val_bits_def(obj_get(members_view(ms@), k@), 0),
{
    match jget(ms, k) {
        None => Err((ErrorKind::MissingField, pos)),
        Some(v) => match &v.kind {
            JKind::Num(n) => Ok(n.bits),
            _ => Err((ErrorKind::WrongType, v.pos)),
        },
    }
}

/// An optional numeric field, as its bit pattern when present.
pub open spec fn val_opt_bits(o: Option<GVal>) -> Option<u32> {
    match o {
        None => None,
        Some(g) => match g.kind {
            GKind::Num { bits, .. } => Some(bits),
            _ => None,
        },
    }
}

pub(crate) fn get_opt_bits(ms: &Vec<JMember>, k: &str) -> (r: Result<Option<u32>, (ErrorKind, usize)>)
    ensures
        r is Ok <==> ok_opt_bits(obj_get(members_view(ms@), k@)),
        r matches Ok(v) ==> v == val_opt_bits(obj_get(members_view(ms@), k@)),
{
    match jget(ms, k) {
        None => Ok(None),
        Some(v) => match &v.kind {
            JKind::Num(n) => Ok(Some(n.bits)),
            _ => Err((ErrorKind::WrongType, v.pos)),
        },
    }
}

/// An optional boolean field with a default.
pub open spec fn ok_opt_bool(o: Option<GVal>) -> bool {
    match o {
        None => true,
        Some(g) => g.kind is Bool,
    }
}

pub open spec fn val_bool_def(o: Option<GVal>, d: bool) -> bool {
    match o {
        None => d,
        Some(g) => match g.kind {
            GKind::Bool(b) => b,
            _ => d,
        },
    }
}

pub(crate) fn get_bool_def(ms: &Vec<JMember>, k: &str, d: bool) -> (r: Result<bool, (ErrorKind, usize)>)
    ensures
        r is Ok <==> ok_opt_bool(obj_get(members_view(ms@), k@)),
        r matches Ok(v) ==> v == val_bool_def(obj_get(members_view(ms@), k@), d),
{
    match jget(ms, k) {
        None => Ok(d),
        Some(v) => match &v.kind {
            JKind::Bool(b) => Ok(*b),
            _ => Err((ErrorKind::WrongType, v.pos)),
        },
    }
}

/// An optional string field.
pub open spec fn ok_opt_text(o: Option<GVal>) -> bool {
    match o {
        None => true,
        Some(g) => g.kind is Text,
    }
}

pub open spec fn val_opt_text(o: Option<GVal>) -> Option<Seq<char>> {
    match o {
        None => None,
        Some(g) => match g.kind {
            GKind::Text(t) => Some(t),
            _ => None,
        },
    }
}

/// The view of an optional owned string.
pub open spec fn opt_string_view(s: Option<String>) -> Option<Seq<char>> {
    match s {
        None => None,
        Some(t) => Some(t@),
    }
}

pub(crate) fn get_opt_string(ms: &Vec<JMember>, k: &str) -> (r: Result<Option<String>, (ErrorKind, usize)>)
    ensures
        r is Ok <==> ok_opt_text(obj_get(members_view(ms@), k@)),
        r matches Ok(v) ==> opt_string_view(v) == val_opt_text(obj_get(members_view(ms@), k@)),
{
    match jget(ms, k) {
        None => Ok(None),
        Some(v) => match &v.kind {
            JKind::Text(t) => Ok(Some(clone_string(t))),
            _ => Err((ErrorKind::WrongType, v.pos)),
        },
    }
}

/// Relies on `String::clone`: the copy holds the same characters.
#[verifier::external_body]
pub(crate) fn clone_string(s: &String) -> (r: String)
    ensures
        r@ == s@,
{
    s.clone()
}

/// Whether an optional field is, if present, an array of numbers.
pub open spec fn ok_opt_bits_arr(o: Option<GVal>) -> bool {
    match o {
        None => true,
        Some(g) => g.kind matches GKind::Arr(es) && (forall|i: int|
            0 <= i < es.len() ==> (#[trigger] es[i]).kind is Num),
    }
}

/// The bit patterns of an array of numbers.
pub open spec fn arr_bits(es: Seq<GVal>) -> Seq<u32> {
    Seq::new(
        es.len(),
        |i: int|
            if 0 <= i < es.len() {
                match es[i].kind {
                    GKind::Num { bits, .. } => bits,
                    _ => 0u32,
                }
            } else {
                0u32
            },
    )
}

/// The bit patterns an optional numeric-array field holds, if present.
pub open spec fn val_opt_bits_arr(o: Option<GVal>) -> Option<Seq<u32>> {
    match o {
        None => None,
        Some(g) => match g.kind {
            GKind::Arr(es) => Some(arr_bits(es)),
            _ => None,
        },
    }
}

/// The view of an optional bit-pattern vector.
pub open spec fn opt_vec_view(v: Option<Vec<u32>>) -> Option<Seq<u32>> {
    match v {
        None => None,
        Some(x) => Some(x@),
    }
}

/// Reads a number array's bit patterns.
fn bits_of_arr(es: &Vec<JVal>) -> (r: Result<Vec<u32>, (ErrorKind, usize)>)
    ensures
        r is Ok <==> (forall|i: int|
            0 <= i < es@.len() ==> (#[trigger] crate::json::elems_view(es@)[i]).kind is Num),
        r matches Ok(v) ==> v@ == arr_bits(crate::json::elems_view(es@)),
{
    let mut out: Vec<u32> = Vec::new();
    let mut i: usize = 0;
    while i < es.len()
        invariant
            i <= es@.len(),
            out@.len() == i,
            forall|j: int|
                0 <= j < i ==> (#[trigger] crate::json::elems_view(es@)[j]).kind is Num,
            forall|j: int|
                0 <= j < i ==> out@[j] == arr_bits(crate::json::elems_view(es@))[j],
        decreases es@.len() - i,
    {
        match &es[i].kind {
            JKind::Num(n) => {
                out.push(n.bits);
            },
            _ => {
                proof {
                    assert(crate::json::elems_view(es@)[i as int] == es@[i as int]@);
                    assert(!(es@[i as int]@.kind is Num));
                }
                return Err((ErrorKind::WrongType, es[i].pos));
            },
        }
        proof {
            assert(crate::json::elems_view(es@)[i as int] == es@[i as int]@);
        }
        i = i + 1;
    }
    proof {
        assert(out@ =~= arr_bits(crate::json::elems_view(es@)));
    }
    Ok(out)
}

pub(crate) fn get_opt_bits_arr(ms: &Vec<JMember>, k: &str) -> (r: Result<
    Option<Vec<u32>>,
    (ErrorKind, usize),
>)
    ensures
        r is Ok <==> ok_opt_bits_arr(obj_get(members_view(ms@), k@)),
        r matches Ok(v) ==> opt_vec_view(v) == val_opt_bits_arr(obj_get(members_view(ms@), k@)),
{
    match jget(ms, k) {
        None => Ok(None),
        Some(v) => match &v.kind {
            JKind::Arr(es) => match bits_of_arr(es) {
                Ok(bits) => Ok(Some(bits)),
                Err(e) => Err(e),
            },
            _ => Err((ErrorKind::WrongType, v.pos)),
        },
    }
}

/// Whether an optional field is, if present, a numeric array of exactly `n`
/// entries.
pub open spec fn ok_fixed_bits(o: Option<GVal>, n: int) -> bool {
    match o {
        None => true,
        Some(g) => g.kind matches GKind::Arr(es) && es.len() == n && (forall|i: int|
            0 <= i < es.len() ==> (#[trigger] es[i]).kind is Num),
    }
}

/// A fixed-width numeric field's bit patterns, or the default when absent.
pub open spec fn val_fixed_bits(o: Option<GVal>, d: Seq<u32>) -> Seq<u32> {
    match o {
        None => d,
        Some(g) => match g.kind {
            GKind::Arr(es) => arr_bits(es),
            _ => d,
        },
    }
}

pub(crate) fn get_fixed_bits(ms: &Vec<JMember>, k: &str, n: usize, d: Vec<u32>) -> (r: Result<
    Vec<u32>,
    (ErrorKind, usize),
>)
    requires
        d@.len() == n,
    ensures
        r is Ok <==> ok_fixed_bits(obj_get(members_view(ms@), k@), n as int),
        r matches Ok(v) ==> v@ == val_fixed_bits(obj_get(members_view(ms@), k@), d@),
{
    match jget(ms, k) {
        None => Ok(d),
        Some(v) => match &v.kind {
            JKind::Arr(es) => {
                proof {
                    assert(crate::json::elems_view(es@).len() == es@.len());
                }
                if es.len() != n {
                    return Err((ErrorKind::WrongLength, v.pos));
                }
                match bits_of_arr(es) {
                    Ok(bits) => Ok(bits),
                    Err(e) => Err(e),
                }
            },
            _ => Err((ErrorKind::WrongType, v.pos)),
        },
    }
}

/// A fixed-width numeric field that may be absent, kept as such.
pub open spec fn val_opt_fixed_bits(o: Option<GVal>) -> Option<Seq<u32>> {
    val_opt_bits_arr(o)
}

pub(crate) fn get_opt_fixed_bits(ms: &Vec<JMember>, k: &str, n: usize) -> (r: Result<
    Option<Vec<u32>>,
    (ErrorKind, usize),
>)
    ensures
        r is Ok <==> ok_fixed_bits(obj_get(members_view(ms@), k@), n as int),
        r matches Ok(v) ==> opt_vec_view(v) == val_opt_fixed_bits(obj_get(members_view(ms@), k@)),
{
    match jget(ms, k) {
        None => Ok(None),
        Some(v) => match &v.kind {
            JKind::Arr(es) => {
                proof {
                    assert(crate::json::elems_view(es@).len() == es@.len());
                }
                if es.len() != n {
                    return Err((ErrorKind::WrongLength, v.pos));
                }
                match bits_of_arr(es) {
                    Ok(bits) => Ok(Some(bits)),
                    Err(e) => Err(e),
                }
            },
            _ => Err((ErrorKind::WrongType, v.pos)),
        },
    }
}

/// Every entry of the sequence is an exact machine-sized unsigned integer.
pub open spec fn all_usize(es: Seq<GVal>) -> bool {
    forall|i: int| 0 <= i < es.len() ==> ok_opt_usize(Some(#[trigger] es[i]))
}

/// Whether an optional field is, if present, an array of exact
/// machine-sized unsigned integers.
pub open spec fn ok_opt_usize_arr(o: Option<GVal>) -> bool {
    match o {
        None => true,
        Some(g) => g.kind matches GKind::Arr(es) && all_usize(es),
    }
}

/// The integers of an index array.
pub open spec fn arr_usize(es: Seq<GVal>) -> Seq<usize> {
    Seq::new(
        es.len(),
        |i: int|
            if 0 <= i < es.len() {
                match val_opt_usize(Some(es[i])) {
                    Some(v) => v,
                    None => 0usize,
                }
            } else {
                0usize
            },
    )
}

/// The integer array an optional field holds, or empty when absent.
pub open spec fn val_usize_arr_def(o: Option<GVal>) -> Seq<usize> {
    match o {
        None => Seq::empty(),
        Some(g) => match g.kind {
            GKind::Arr(es) => arr_usize(es),
            _ => Seq::empty(),
        },
    }
}

fn usize_of_arr(es: &Vec<JVal>) -> (r: Result<Vec<usize>, (ErrorKind, usize)>)
    ensures
        r is Ok <==> all_usize(crate::json::elems_view(es@)),
        r matches Ok(v) ==> v@ == arr_usize(crate::json::elems_view(es@)),
{
    let mut out: Vec<usize> = Vec::new();
    let mut i: usize = 0;
    while i < es.len()
        invariant
            i <= es@.len(),
            out@.len() == i,
            forall|j: int|
                0 <= j < i ==> ok_opt_usize(Some(#[trigger] crate::json::elems_view(es@)[j])),
            forall|j: int|
                0 <= j < i ==> out@[j] == arr_usize(crate::json::elems_view(es@))[j],
        decreases es@.len() - i,
    {
        match &es[i].kind {
            JKind::Num(n) => match n.int_val {
                Some(iv) => {
                    if iv <= usize::MAX as u64 {
                        out.push(iv as usize);
                    } else {
                        proof {
                            assert(crate::json::elems_view(es@)[i as int] == es@[i as int]@);
                        }
                        return Err((ErrorKind::WrongType, es[i].pos));
                    }
                },
                None => {
                    proof {
                        assert(crate::json::elems_view(es@)[i as int] == es@[i as int]@);
                    }
                    return Err((ErrorKind::WrongType, es[i].pos));
                },
            },
            _ => {
                proof {
                    assert(crate::json::elems_view(es@)[i as int] == es@[i as int]@);
                    assert(!(es@[i as int]@.kind is Num));
                }
                return Err((ErrorKind::WrongType, es[i].pos));
            },
        }
        proof {
            assert(crate::json::elems_view(es@)[i as int] == es@[i as int]@);
        }
        i = i + 1;
    }
    proof {
        assert(out@ =~= arr_usize(crate::json::elems_view(es@)));
    }
    Ok(out)
}

pub(crate) fn get_usize_arr_def(ms: &Vec<JMember>, k: &str) -> (r: Result<Vec<usize>, (ErrorKind, usize)>)
    ensures
        r is Ok <==> ok_opt_usize_arr(obj_get(members_view(ms@), k@)),
        r matches Ok(v) ==> v@ == val_usize_arr_def(obj_get(members_view(ms@), k@)),
{
    match jget(ms, k) {
        None => {
            let out: Vec<usize> = Vec::new();
            proof {
                assert(out@ =~= Seq::<usize>::empty());
            }
            Ok(out)
        },
        Some(v) => match &v.kind {
            JKind::Arr(es) => {
                proof {
                    assert(v@.kind == GKind::Arr(crate::json::elems_view(es@)));
                    assert(crate::json::elems_view(es@).len() == es@.len());
                }
                match usize_of_arr(es) {
                    Ok(xs) => Ok(xs),
                    Err(e) => Err(e),
                }
            },
            _ => Err((ErrorKind::WrongType, v.pos)),
        },
    }
}

/// A required integer-array field.
pub open spec fn ok_req_usize_arr(o: Option<GVal>) -> bool {
    o is Some && ok_opt_usize_arr(o)
}

pub(crate) fn get_req_usize_arr(ms: &Vec<JMember>, k: &str, pos: usize) -> (r: Result<
    Vec<usize>,
    (ErrorKind, usize),
>)
    ensures
        r is Ok <==> ok_req_usize_arr(obj_get(members_view(ms@), k@)),
        r matches Ok(v) ==> v@ == val_usize_arr_def(obj_get(members_view(ms@), k@)),
{
    match jget(ms, k) {
        None => Err((ErrorKind::MissingField, pos)),
        Some(v) => match &v.kind {
            JKind::Arr(es) => {
                proof {
                    assert(v@.kind == GKind::Arr(crate::json::elems_view(es@)));
                    assert(crate::json::elems_view(es@).len() == es@.len());
                }
                match usize_of_arr(es) {
                    Ok(xs) => Ok(xs),
                    Err(e) => Err(e),
                }
            },
            _ => Err((ErrorKind::WrongType, v.pos)),
        },
    }
}

/// The members of a value that must be an object to be read at all.
pub(crate) fn obj_of<'a>(g: &'a JVal) -> (r: Result<&'a Vec<JMember>, (ErrorKind, usize)>)
    ensures
        r is Ok <==> g@.kind is Obj,
        r matches Ok(ms) ==> members_view(ms@) == obj_members(g@),
{
    match &g.kind {
        JKind::Obj(ms) => Ok(ms),
        _ => Err((ErrorKind::WrongType, g.pos)),
    }
}


/// The spec-level form of an optional borrowed value.
pub open spec fn oview(o: Option<&JVal>) -> Option<GVal> {
    match o {
        Some(v) => Some(v@),
        None => None,
    }
}

/// The enumeration name table for alpha modes.
pub open spec fn alpha_mode_from_name(t: Seq<char>) -> Option<crate::model::AlphaMode> {
    if t == "OPAQUE"@ {
        Some(crate::model::AlphaMode::Opaque)
    } else if t == "MASK"@ {
        Some(crate::model::AlphaMode::Mask)
    } else if t == "BLEND"@ {
        Some(crate::model::AlphaMode::Blend)
    } else {
        None
    }
}

/// Whether an optional field is, if present, a known name of the given
/// table.
pub open spec fn ok_alpha_mode(o: Option<GVal>) -> bool {
    match o {
        None => true,
        Some(g) => g.kind matches GKind::Text(t) && alpha_mode_from_name(t) is Some,
    }
}

pub open spec fn val_alpha_mode(o: Option<GVal>, d: crate::model::AlphaMode) -> crate::model::AlphaMode {
    match o {
        None => d,
        Some(g) => match g.kind {
            GKind::Text(t) => match alpha_mode_from_name(t) {
                Some(m) => m,
                None => d,
            },
            _ => d,
        },
    }
}

fn get_alpha_mode(ms: &Vec<JMember>, k: &str, d: crate::model::AlphaMode) -> (r: Result<
    crate::model::AlphaMode,
    (ErrorKind, usize),
>)
    ensures
        r is Ok <==> ok_alpha_mode(obj_get(members_view(ms@), k@)),
        r matches Ok(v) ==> v == val_alpha_mode(obj_get(members_view(ms@), k@), d),
{
    match jget(ms, k) {
        None => Ok(d),
        Some(v) => match &v.kind {
            JKind::Text(t) => {
                if str_eq(t.as_str(), "OPAQUE") {
                    Ok(crate::model::AlphaMode::Opaque)
                } else if str_eq(t.as_str(), "MASK") {
                    Ok(crate::model::AlphaMode::Mask)
                } else if str_eq(t.as_str(), "BLEND") {
                    Ok(crate::model::AlphaMode::Blend)
                } else {
                    Err((ErrorKind::BadEnumValue, v.pos))
                }
            },
            _ => Err((ErrorKind::WrongType, v.pos)),
        },
    }
}

/// The enumeration name table for accessor shapes.
pub open spec fn accessor_type_from_name(t: Seq<char>) -> Option<crate::model::AccessorType> {
    if t == "SCALAR"@ {
        Some(crate::model::AccessorType::Scalar)
    } else if t == "VEC2"@ {
        Some(crate::model::AccessorType::Vec2)
    } else if t == "VEC3"@ {
        Some(crate::model::AccessorType::Vec3)
    } else if t == "VEC4"@ {
        Some(crate::model::AccessorType::Vec4)
    } else if t == "MAT2"@ {
        Some(crate::model::AccessorType::Mat2)
    } else if t == "MAT3"@ {
        Some(crate::model::AccessorType::Mat3)
    } else if t == "MAT4"@ {
        Some(crate::model::AccessorType::Mat4)
    } else {
        None
    }
}

pub open spec fn ok_req_accessor_type(o: Option<GVal>) -> bool {
    o matches Some(g) && g.kind matches GKind::Text(t) && accessor_type_from_name(t) is Some
}

pub open spec fn val_accessor_type(o: Option<GVal>) -> crate::model::AccessorType {
    match o {
        None => crate::model::AccessorType::Scalar,
        Some(g) => match g.kind {
            GKind::Text(t) => match accessor_type_from_name(t) {
                Some(m) => m,
                None => crate::model::AccessorType::Scalar,
            },
            _ => crate::model::AccessorType::Scalar,
        },
    }
}

fn get_accessor_type(ms: &Vec<JMember>, k: &str, pos: usize) -> (r: Result<
    crate::model::AccessorType,
    (ErrorKind, usize),
>)
    ensures
        r is Ok <==> ok_req_accessor_type(obj_get(members_view(ms@), k@)),
        r matches Ok(v) ==> v == val_accessor_type(obj_get(members_view(ms@), k@)),
{
    match jget(ms, k) {
        None => Err((ErrorKind::MissingField, pos)),
        Some(v) => match &v.kind {
            JKind::Text(t) => {
                if str_eq(t.as_str(), "SCALAR") {
                    Ok(crate::model::AccessorType::Scalar)
                } else if str_eq(t.as_str(), "VEC2") {
                    Ok(crate::model::AccessorType::Vec2)
                } else if str_eq(t.as_str(), "VEC3") {
                    Ok(crate::model::AccessorType::Vec3)
                } else if str_eq(t.as_str(), "VEC4") {
                    Ok(crate::model::AccessorType::Vec4)
                } else if str_eq(t.as_str(), "MAT2") {
                    Ok(crate::model::AccessorType::Mat2)
                } else if str_eq(t.as_str(), "MAT3") {
                    Ok(crate::model::AccessorType::Mat3)
                } else if str_eq(t.as_str(), "MAT4") {
                    Ok(crate::model::AccessorType::Mat4)
                } else {
                    Err((ErrorKind::BadEnumValue, v.pos))
                }
            },
            _ => Err((ErrorKind::WrongType, v.pos)),
        },
    }
}

/// The enumeration name table for animation interpolation.
pub open spec fn interpolation_from_name(t: Seq<char>) -> Option<crate::model::Interpolation> {
    if t == "LINEAR"@ {
        Some(crate::model::Interpolation::Linear)
    } else if t == "STEP"@ {
        Some(crate::model::Interpolation::Step)
    } else if t == "CUBICSPLINE"@ {
        Some(crate::model::Interpolation::CubicSpline)
    } else {
        None
    }
}

pub open spec fn ok_interpolation(o: Option<GVal>) -> bool {
    match o {
        None => true,
        Some(g) => g.kind matches GKind::Text(t) && interpolation_from_name(t) is Some,
    }
}

pub open spec fn val_interpolation(o: Option<GVal>) -> crate::model::Interpolation {
    match o {
        None => crate::model::Interpolation::Linear,
        Some(g) => match g.kind {
            GKind::Text(t) => match interpolation_from_name(t) {
                Some(m) => m,
                None => crate::model::Interpolation::Linear,
            },
            _ => crate::model::Interpolation::Linear,
        },
    }
}

fn get_interpolation(ms: &Vec<JMember>, k: &str) -> (r: Result<
    crate::model::Interpolation,
    (ErrorKind, usize),
>)
    ensures
        r is Ok <==> ok_interpolation(obj_get(members_view(ms@), k@)),
        r matches Ok(v) ==> v == val_interpolation(obj_get(members_view(ms@), k@)),
{
    match jget(ms, k) {
        None => Ok(crate::model::Interpolation::Linear),
        Some(v) => match &v.kind {
            JKind::Text(t) => {
                if str_eq(t.as_str(), "LINEAR") {
                    Ok(crate::model::Interpolation::Linear)
                } else if str_eq(t.as_str(), "STEP") {
                    Ok(crate::model::Interpolation::Step)
                } else if str_eq(t.as_str(), "CUBICSPLINE") {
                    Ok(crate::model::Interpolation::CubicSpline)
                } else {
                    Err((ErrorKind::BadEnumValue, v.pos))
                }
            },
            _ => Err((ErrorKind::WrongType, v.pos)),
        },
    }
}

/// The enumeration name table for animation target paths.
pub open spec fn target_path_from_name(t: Seq<char>) -> Option<crate::model::TargetPath> {
    if t == "translation"@ {
        Some(crate::model::TargetPath::Translation)
    } else if t == "rotation"@ {
        Some(crate::model::TargetPath::Rotation)
    } else if t == "scale"@ {
        Some(crate::model::TargetPath::Scale)
    } else if t == "weights"@ {
        Some(crate::model::TargetPath::Weights)
    } else {
        None
    }
}

pub open spec fn ok_req_target_path(o: Option<GVal>) -> bool {
    o matches Some(g) && g.kind matches GKind::Text(t) && target_path_from_name(t) is Some
}

pub open spec fn val_target_path(o: Option<GVal>) -> crate::model::TargetPath {
    match o {
        None => crate::model::TargetPath::Translation,
        Some(g) => match g.kind {
            GKind::Text(t) => match target_path_from_name(t) {
                Some(m) => m,
                None => crate::model::TargetPath::Translation,
            },
            _ => crate::model::TargetPath::Translation,
        },
    }
}

fn get_target_path(ms: &Vec<JMember>, k: &str, pos: usize) -> (r: Result<
    crate::model::TargetPath,
    (ErrorKind, usize),
>)
    ensures
        r is Ok <==> ok_req_target_path(obj_get(members_view(ms@), k@)),
        r matches Ok(v) ==> v == val_target_path(obj_get(members_view(ms@), k@)),
{
    match jget(ms, k) {
        None => Err((ErrorKind::MissingField, pos)),
        Some(v) => match &v.kind {
            JKind::Text(t) => {
                if str_eq(t.as_str(), "translation") {
                    Ok(crate::model::TargetPath::Translation)
                } else if str_eq(t.as_str(), "rotation") {
                    Ok(crate::model::TargetPath::Rotation)
                } else if str_eq(t.as_str(), "scale") {
                    Ok(crate::model::TargetPath::Scale)
                } else if str_eq(t.as_str(), "weights") {
                    Ok(crate::model::TargetPath::Weights)
                } else {
                    Err((ErrorKind::BadEnumValue, v.pos))
                }
            },
            _ => Err((ErrorKind::WrongType, v.pos)),
        },
    }
}

/// The enumeration name table for camera kinds.
pub open spec fn camera_type_from_name(t: Seq<char>) -> Option<crate::model::CameraType> {
    if t == "perspective"@ {
        Some(crate::model::CameraType::Perspective)
    } else if t == "orthographic"@ {
        Some(crate::model::CameraType::Orthographic)
    } else {
        None
    }
}

pub open spec fn ok_req_camera_type(o: Option<GVal>) -> bool {
    o matches Some(g) && g.kind matches GKind::Text(t) && camera_type_from_name(t) is Some
}

pub open spec fn val_camera_type(o: Option<GVal>) -> crate::model::CameraType {
    match o {
        None => crate::model::CameraType::Perspective,
        Some(g) => match g.kind {
            GKind::Text(t) => match camera_type_from_name(t) {
                Some(m) => m,
                None => crate::model::CameraType::Perspective,
            },
            _ => crate::model::CameraType::Perspective,
        },
    }
}

fn get_camera_type(ms: &Vec<JMember>, k: &str, pos: usize) -> (r: Result<
    crate::model::CameraType,
    (ErrorKind, usize),
>)
    ensures
        r is Ok <==> ok_req_camera_type(obj_get(members_view(ms@), k@)),
        r matches Ok(v) ==> v == val_camera_type(obj_get(members_view(ms@), k@)),
{
    match jget(ms, k) {
        None => Err((ErrorKind::MissingField, pos)),
        Some(v) => match &v.kind {
            JKind::Text(t) => {
                if str_eq(t.as_str(), "perspective") {
                    Ok(crate::model::CameraType::Perspective)
                } else if str_eq(t.as_str(), "orthographic") {
                    Ok(crate::model::CameraType::Orthographic)
                } else {
                    Err((ErrorKind::BadEnumValue, v.pos))
                }
            },
            _ => Err((ErrorKind::WrongType, v.pos)),
        },
    }
}

/// The enumeration name table for light kinds.
pub open spec fn light_type_from_name(t: Seq<char>) -> Option<crate::extensions::LightType> {
    if t == "point"@ {
        Some(crate::extensions::LightType::Point)
    } else if t == "directional"@ {
        Some(crate::extensions::LightType::Directional)
    } else if t == "spot"@ {
        Some(crate::extensions::LightType::Spot)
    } else {
        None
    }
}

pub open spec fn ok_req_light_type(o: Option<GVal>) -> bool {
    o matches Some(g) && g.kind matches GKind::Text(t) && light_type_from_name(t) is Some
}

pub open spec fn val_light_type(o: Option<GVal>) -> crate::extensions::LightType {
    match o {
        None => crate::extensions::LightType::Point,
        Some(g) => match g.kind {
            GKind::Text(t) => match light_type_from_name(t) {
                Some(m) => m,
                None => crate::extensions::LightType::Point,
            },
            _ => crate::extensions::LightType::Point,
        },
    }
}

fn get_light_type(ms: &Vec<JMember>, k: &str, pos: usize) -> (r: Result<
    crate::extensions::LightType,
    (ErrorKind, usize),
>)
    ensures
        r is Ok <==> ok_req_light_type(obj_get(members_view(ms@), k@)),
        r matches Ok(v) ==> v == val_light_type(obj_get(members_view(ms@), k@)),
{
    match jget(ms, k) {
        None => Err((ErrorKind::MissingField, pos)),
        Some(v) => match &v.kind {
            JKind::Text(t) => {
                if str_eq(t.as_str(), "point") {
                    Ok(crate::extensions::LightType::Point)
                } else if str_eq(t.as_str(), "directional") {
                    Ok(crate::extensions::LightType::Directional)
                } else if str_eq(t.as_str(), "spot") {
                    Ok(crate::extensions::LightType::Spot)
                } else {
                    Err((ErrorKind::BadEnumValue, v.pos))
                }
            },
            _ => Err((ErrorKind::WrongType, v.pos)),
        },
    }
}

/// The enumeration name table for compression modes.
pub open spec fn compression_mode_from_name(t: Seq<char>) -> Option<
    crate::extensions::CompressionMode,
> {
    if t == "ATTRIBUTES"@ {
        Some(crate::extensions::CompressionMode::Attributes)
    } else if t == "TRIANGLES"@ {
        Some(crate::extensions::CompressionMode::Triangles)
    } else if t == "INDICES"@ {
        Some(crate::extensions::CompressionMode::Indices)
    } else {
        None
    }
}

pub open spec fn ok_req_compression_mode(o: Option<GVal>) -> bool {
    o matches Some(g) && g.kind matches GKind::Text(t) && compression_mode_from_name(t) is Some
}

pub open spec fn val_compression_mode(o: Option<GVal>) -> crate::extensions::CompressionMode {
    match o {
        None => crate::extensions::CompressionMode::Attributes,
        Some(g) => match g.kind {
            GKind::Text(t) => match compression_mode_from_name(t) {
                Some(m) => m,
                None => crate::extensions::CompressionMode::Attributes,
            },
            _ => crate::extensions::CompressionMode::Attributes,
        },
    }
}

fn get_compression_mode(ms: &Vec<JMember>, k: &str, pos: usize) -> (r: Result<
    crate::extensions::CompressionMode,
    (ErrorKind, usize),
>)
    ensures
        r is Ok <==> ok_req_compression_mode(obj_get(members_view(ms@), k@)),
        r matches Ok(v) ==> v == val_compression_mode(obj_get(members_view(ms@), k@)),
{
    match jget(ms, k) {
        None => Err((ErrorKind::MissingField, pos)),
        Some(v) => match &v.kind {
            JKind::Text(t) => {
                if str_eq(t.as_str(), "ATTRIBUTES") {
                    Ok(crate::extensions::CompressionMode::Attributes)
                } else if str_eq(t.as_str(), "TRIANGLES") {
                    Ok(crate::extensions::CompressionMode::Triangles)
                } else if str_eq(t.as_str(), "INDICES") {
                    Ok(crate::extensions::CompressionMode::Indices)
                } else {
                    Err((ErrorKind::BadEnumValue, v.pos))
                }
            },
            _ => Err((ErrorKind::WrongType, v.pos)),
        },
    }
}

/// The enumeration name table for compression filters.
pub open spec fn compression_filter_from_name(t: Seq<char>) -> Option<
    crate::extensions::CompressionFilter,
> {
    if t == "NONE"@ {
        Some(crate::extensions::CompressionFilter::NoFilter)
    } else if t == "OCTAHEDRAL"@ {
        Some(crate::extensions::CompressionFilter::Octahedral)
    } else if t == "QUATERNION"@ {
        Some(crate::extensions::CompressionFilter::Quaternion)
    } else if t == "EXPONENTIAL"@ {
        Some(crate::extensions::CompressionFilter::Exponential)
    } else {
        None
    }
}

pub open spec fn ok_compression_filter(o: Option<GVal>) -> bool {
    match o {
        None => true,
        Some(g) => g.kind matches GKind::Text(t) && compression_filter_from_name(t) is Some,
    }
}

pub open spec fn val_compression_filter(o: Option<GVal>) -> crate::extensions::CompressionFilter {
    match o {
        None => crate::extensions::CompressionFilter::NoFilter,
        Some(g) => match g.kind {
            GKind::Text(t) => match compression_filter_from_name(t) {
                Some(m) => m,
                None => crate::extensions::CompressionFilter::NoFilter,
            },
            _ => crate::extensions::CompressionFilter::NoFilter,
        },
    }
}

fn get_compression_filter(ms: &Vec<JMember>, k: &str) -> (r: Result<
    crate::extensions::CompressionFilter,
    (ErrorKind, usize),
>)
    ensures
        r is Ok <==> ok_compression_filter(obj_get(members_view(ms@), k@)),
        r matches Ok(v) ==> v == val_compression_filter(obj_get(members_view(ms@), k@)),
{
    match jget(ms, k) {
        None => Ok(crate::extensions::CompressionFilter::NoFilter),
        Some(v) => match &v.kind {
            JKind::Text(t) => {
                if str_eq(t.as_str(), "NONE") {
                    Ok(crate::extensions::CompressionFilter::NoFilter)
                } else if str_eq(t.as_str(), "OCTAHEDRAL") {
                    Ok(crate::extensions::CompressionFilter::Octahedral)
                } else if str_eq(t.as_str(), "QUATERNION") {
                    Ok(crate::extensions::CompressionFilter::Quaternion)
                } else if str_eq(t.as_str(), "EXPONENTIAL") {
                    Ok(crate::extensions::CompressionFilter::Exponential)
                } else {
                    Err((ErrorKind::BadEnumValue, v.pos))
                }
            },
            _ => Err((ErrorKind::WrongType, v.pos)),
        },
    }
}

/// An optional component-type field, decoded through the wire-code table.
pub open spec fn ok_req_component_type(o: Option<GVal>) -> bool {
    o matches Some(g) && g.kind matches GKind::Num { int_val: Some(v), .. }
        && crate::model::ComponentType::spec_from_code(v) is Some
}

pub open spec fn val_component_type(o: Option<GVal>) -> crate::model::ComponentType {
    match o {
        None => crate::model::ComponentType::Float,
        Some(g) => match g.kind {
            GKind::Num { int_val, .. } => match int_val {
                Some(v) => match crate::model::ComponentType::spec_from_code(v) {
                    Some(ct) => ct,
                    None => crate::model::ComponentType::Float,
                },
                None => crate::model::ComponentType::Float,
            },
            _ => crate::model::ComponentType::Float,
        },
    }
}

fn get_component_type(ms: &Vec<JMember>, k: &str, pos: usize) -> (r: Result<
    crate::model::ComponentType,
    (ErrorKind, usize),
>)
    ensures
        r is Ok <==> ok_req_component_type(obj_get(members_view(ms@), k@)),
        r matches Ok(v) ==> v == val_component_type(obj_get(members_view(ms@), k@)),
{
    match jget(ms, k) {
        None => Err((ErrorKind::MissingField, pos)),
        Some(v) => match &v.kind {
            JKind::Num(n) => match n.int_val {
                Some(code) => match crate::model::ComponentType::from_code(code) {
                    Some(ct) => Ok(ct),
                    None => Err((ErrorKind::BadEnumValue, v.pos)),
                },
                None => Err((ErrorKind::WrongType, v.pos)),
            },
            _ => Err((ErrorKind::WrongType, v.pos)),
        },
    }
}

/// An optional magnification-filter field, decoded through the wire-code
/// table.
pub open spec fn ok_opt_filter_mode(o: Option<GVal>) -> bool {
    match o {
        None => true,
        Some(g) => g.kind matches GKind::Num { int_val: Some(v), .. }
            && crate::model::FilterMode::spec_from_code(v) is Some,
    }
}

pub open spec fn val_opt_filter_mode(o: Option<GVal>) -> Option<crate::model::FilterMode> {
    match o {
        None => None,
        Some(g) => match g.kind {
            GKind::Num { int_val, .. } => match int_val {
                Some(v) => crate::model::FilterMode::spec_from_code(v),
                None => None,
            },
            _ => None,
        },
    }
}

fn get_opt_filter_mode(ms: &Vec<JMember>, k: &str) -> (r: Result<
    Option<crate::model::FilterMode>,
    (ErrorKind, usize),
>)
    ensures
        r is Ok <==> ok_opt_filter_mode(obj_get(members_view(ms@), k@)),
        r matches Ok(v) ==> v == val_opt_filter_mode(obj_get(members_view(ms@), k@)),
{
    match jget(ms, k) {
        None => Ok(None),
        Some(v) => match &v.kind {
            JKind::Num(n) => match n.int_val {
                Some(code) => match crate::model::FilterMode::from_code(code) {
                    Some(m) => Ok(Some(m)),
                    None => Err((ErrorKind::BadEnumValue, v.pos)),
                },
                None => Err((ErrorKind::WrongType, v.pos)),
            },
            _ => Err((ErrorKind::WrongType, v.pos)),
        },
    }
}

/// An optional minification-filter field, decoded through the wire-code
/// table.
pub open spec fn ok_opt_min_filter(o: Option<GVal>) -> bool {
    match o {
        None => true,
        Some(g) => g.kind matches GKind::Num { int_val: Some(v), .. }
            && crate::model::MinFilter::spec_from_code(v) is Some,
    }
}

pub open spec fn val_opt_min_filter(o: Option<GVal>) -> Option<crate::model::MinFilter> {
    match o {
        None => None,
        Some(g) => match g.kind {
            GKind::Num { int_val, .. } => match int_val {
                Some(v) => crate::model::MinFilter::spec_from_code(v),
                None => None,
            },
            _ => None,
        },
    }
}

fn get_opt_min_filter(ms: &Vec<JMember>, k: &str) -> (r: Result<
    Option<crate::model::MinFilter>,
    (ErrorKind, usize),
>)
    ensures
        r is Ok <==> ok_opt_min_filter(obj_get(members_view(ms@), k@)),
        r matches Ok(v) ==> v == val_opt_min_filter(obj_get(members_view(ms@), k@)),
{
    match jget(ms, k) {
        None => Ok(None),
        Some(v) => match &v.kind {
            JKind::Num(n) => match n.int_val {
                Some(code) => match crate::model::MinFilter::from_code(code) {
                    Some(m) => Ok(Some(m)),
                    None => Err((ErrorKind::BadEnumValue, v.pos)),
                },
                None => Err((ErrorKind::WrongType, v.pos)),
            },
            _ => Err((ErrorKind::WrongType, v.pos)),
        },
    }
}

/// A wrap-rule field with the repeat default, decoded through the wire-code
/// table.
pub open spec fn ok_sampler_wrap(o: Option<GVal>) -> bool {
    match o {
        None => true,
        Some(g) => g.kind matches GKind::Num { int_val: Some(v), .. }
            && crate::model::SamplerWrap::spec_from_code(v) is Some,
    }
}

pub open spec fn val_sampler_wrap(o: Option<GVal>) -> crate::model::SamplerWrap {
    match o {
        None => crate::model::SamplerWrap::Repeat,
        Some(g) => match g.kind {
            GKind::Num { int_val, .. } => match int_val {
                Some(v) => match crate::model::SamplerWrap::spec_from_code(v) {
                    Some(w) => w,
                    None => crate::model::SamplerWrap::Repeat,
                },
                None => crate::model::SamplerWrap::Repeat,
            },
            _ => crate::model::SamplerWrap::Repeat,
        },
    }
}

fn get_sampler_wrap(ms: &Vec<JMember>, k: &str) -> (r: Result<
    crate::model::SamplerWrap,
    (ErrorKind, usize),
>)
    ensures
        r is Ok <==> ok_sampler_wrap(obj_get(members_view(ms@), k@)),
        r matches Ok(v) ==> v == val_sampler_wrap(obj_get(members_view(ms@), k@)),
{
    match jget(ms, k) {
        None => Ok(crate::model::SamplerWrap::Repeat),
        Some(v) => match &v.kind {
            JKind::Num(n) => match n.int_val {
                Some(code) => match crate::model::SamplerWrap::from_code(code) {
                    Some(w) => Ok(w),
                    None => Err((ErrorKind::BadEnumValue, v.pos)),
                },
                None => Err((ErrorKind::WrongType, v.pos)),
            },
            _ => Err((ErrorKind::WrongType, v.pos)),
        },
    }
}

/// A topology field with the triangles default, decoded through the
/// wire-code table.
pub open spec fn ok_primitive_mode(o: Option<GVal>) -> bool {
    match o {
        None => true,
        Some(g) => g.kind matches GKind::Num { int_val: Some(v), .. }
            && crate::model::PrimitiveMode::spec_from_code(v) is Some,
    }
}

pub open spec fn val_primitive_mode(o: Option<GVal>) -> crate::model::PrimitiveMode {
    match o {
        None => crate::model::PrimitiveMode::Triangles,
        Some(g) => match g.kind {
            GKind::Num { int_val, .. } => match int_val {
                Some(v) => match crate::model::PrimitiveMode::spec_from_code(v) {
                    Some(m) => m,
                    None => crate::model::PrimitiveMode::Triangles,
                },
                None => crate::model::PrimitiveMode::Triangles,
            },
            _ => crate::model::PrimitiveMode::Triangles,
        },
    }
}

fn get_primitive_mode(ms: &Vec<JMember>, k: &str) -> (r: Result<
    crate::model::PrimitiveMode,
    (ErrorKind, usize),
>)
    ensures
        r is Ok <==> ok_primitive_mode(obj_get(members_view(ms@), k@)),
        r matches Ok(v) ==> v == val_primitive_mode(obj_get(members_view(ms@), k@)),
{
    match jget(ms, k) {
        None => Ok(crate::model::PrimitiveMode::Triangles),
        Some(v) => match &v.kind {
            JKind::Num(n) => match n.int_val {
                Some(code) => match crate::model::PrimitiveMode::from_code(code) {
                    Some(m) => Ok(m),
                    None => Err((ErrorKind::BadEnumValue, v.pos)),
                },
                None => Err((ErrorKind::WrongType, v.pos)),
            },
            _ => Err((ErrorKind::WrongType, v.pos)),
        },
    }
}


fn vec2_of(a: u32, b: u32) -> (r: Vec<u32>)
    ensures
        r@ == seq![a, b],
{
    let mut v: Vec<u32> = Vec::new();
    v.push(a);
    v.push(b);
    proof {
        assert(v@ =~= seq![a, b]);
    }
    v
}

fn vec3_of(a: u32, b: u32, c: u32) -> (r: Vec<u32>)
    ensures
        r@ == seq![a, b, c],
{
    let mut v: Vec<u32> = Vec::new();
    v.push(a);
    v.push(b);
    v.push(c);
    proof {
        assert(v@ =~= seq![a, b, c]);
    }
    v
}

fn vec4_of(a: u32, b: u32, c: u32, d: u32) -> (r: Vec<u32>)
    ensures
        r@ == seq![a, b, c, d],
{
    let mut v: Vec<u32> = Vec::new();
    v.push(a);
    v.push(b);
    v.push(c);
    v.push(d);
    proof {
        assert(v@ =~= seq![a, b, c, d]);
    }
    v
}

/// A coordinate transform attached to a texture reference.
pub open spec fn texture_transform_ok(g: GVal) -> bool {
    &&& g.kind is Obj
    &&& ok_fixed_bits(fget(g, "offset"@), 2)
    &&& ok_opt_bits(fget(g, "rotation"@))
    &&& ok_fixed_bits(fget(g, "scale"@), 2)
    &&& ok_opt_usize(fget(g, "texCoord"@))
}

pub open spec fn texture_transform_rep(x: KhrTextureTransform, g: GVal) -> bool {
    &&& x.offset@ == val_fixed_bits(fget(g, "offset"@), seq![0u32, 0u32])
    &&& x.rotation == val_bits_def(fget(g, "rotation"@), 0)
    &&& x.scale@ == val_fixed_bits(fget(g, "scale"@), seq![ONE_BITS, ONE_BITS])
    &&& x.tex_coord == val_usize_def(fget(g, "texCoord"@), 0)
}

fn parse_texture_transform(v: &JVal) -> (r: Result<KhrTextureTransform, (ErrorKind, usize)>)
    ensures
        r is Ok <==> texture_transform_ok(v@),
        r matches Ok(x) ==> texture_transform_rep(x, v@),
{
    let ms = obj_of(v)?;
    let offset = get_fixed_bits(ms, "offset", 2, vec2_of(0, 0))?;
    let rotation = get_bits_def(ms, "rotation", 0)?;
    let scale = get_fixed_bits(ms, "scale", 2, vec2_of(ONE_BITS, ONE_BITS))?;
    let tex_coord = get_usize_def(ms, "texCoord", 0)?;
    Ok(KhrTextureTransform { offset, rotation, scale, tex_coord })
}

pub open spec fn opt_texture_transform_ok(o: Option<GVal>) -> bool {
    match o {
        None => true,
        Some(g) => texture_transform_ok(g),
    }
}

pub open spec fn opt_texture_transform_rep(x: Option<KhrTextureTransform>, o: Option<GVal>) -> bool {
    match o {
        None => x is None,
        Some(g) => x matches Some(t) && texture_transform_rep(t, g),
    }
}

/// The extension slot of a texture reference.
pub open spec fn texture_info_extensions_ok(o: Option<GVal>) -> bool {
    match o {
        None => true,
        Some(g) => g.kind is Obj && opt_texture_transform_ok(fget(g, "KHR_texture_transform"@)),
    }
}

pub open spec fn texture_info_extensions_rep(x: TextureInfoExtensions, o: Option<GVal>) -> bool {
    match o {
        None => x.khr_texture_transform is None,
        Some(g) => opt_texture_transform_rep(
            x.khr_texture_transform,
            fget(g, "KHR_texture_transform"@),
        ),
    }
}

fn parse_texture_info_extensions(o: Option<&JVal>) -> (r: Result<
    TextureInfoExtensions,
    (ErrorKind, usize),
>)
    ensures
        r is Ok <==> texture_info_extensions_ok(oview(o)),
        r matches Ok(x) ==> texture_info_extensions_rep(x, oview(o)),
{
    match o {
        None => Ok(TextureInfoExtensions { khr_texture_transform: None }),
        Some(v) => {
            let ms = obj_of(v)?;
            let khr_texture_transform = match jget(ms, "KHR_texture_transform") {
                None => None,
                Some(t) => Some(parse_texture_transform(t)?),
            };
            Ok(TextureInfoExtensions { khr_texture_transform })
        },
    }
}

/// A reference from a material to a texture.
pub open spec fn texture_info_ok(g: GVal) -> bool {
    &&& g.kind is Obj
    &&& ok_req_usize(fget(g, "index"@))
    &&& ok_opt_usize(fget(g, "texCoord"@))
    &&& texture_info_extensions_ok(fget(g, "extensions"@))
}

pub open spec fn texture_info_rep(x: TextureInfo, g: GVal) -> bool {
    &&& x.index == val_req_usize(fget(g, "index"@), 0)
    &&& x.tex_coord == val_usize_def(fget(g, "texCoord"@), 0)
    &&& texture_info_extensions_rep(x.extensions, fget(g, "extensions"@))
}

fn parse_texture_info(v: &JVal) -> (r: Result<TextureInfo, (ErrorKind, usize)>)
    ensures
        r is Ok <==> texture_info_ok(v@),
        r matches Ok(x) ==> texture_info_rep(x, v@),
{
    let ms = obj_of(v)?;
    let index = get_req_usize(ms, "index", v.pos)?;
    let tex_coord = get_usize_def(ms, "texCoord", 0)?;
    let extensions = parse_texture_info_extensions(jget(ms, "extensions"))?;
    Ok(TextureInfo { index, tex_coord, extensions })
}

pub open spec fn opt_texture_info_ok(o: Option<GVal>) -> bool {
    match o {
        None => true,
        Some(g) => texture_info_ok(g),
    }
}

pub open spec fn opt_texture_info_rep(x: Option<TextureInfo>, o: Option<GVal>) -> bool {
    match o {
        None => x is None,
        Some(g) => x matches Some(t) && texture_info_rep(t, g),
    }
}

fn parse_opt_texture_info(o: Option<&JVal>) -> (r: Result<
    Option<TextureInfo>,
    (ErrorKind, usize),
>)
    ensures
        r is Ok <==> opt_texture_info_ok(oview(o)),
        r matches Ok(x) ==> opt_texture_info_rep(x, oview(o)),
{
    match o {
        None => Ok(None),
        Some(v) => Ok(Some(parse_texture_info(v)?)),
    }
}

/// A texture reference carrying a normal-map scale.
pub open spec fn normal_texture_info_ok(g: GVal) -> bool {
    &&& g.kind is Obj
    &&& ok_req_usize(fget(g, "index"@))
    &&& ok_opt_usize(fget(g, "texCoord"@))
    &&& ok_opt_bits(fget(g, "scale"@))
    &&& texture_info_extensions_ok(fget(g, "extensions"@))
}

pub open spec fn normal_texture_info_rep(x: NormalTextureInfo, g: GVal) -> bool {
    &&& x.index == val_req_usize(fget(g, "index"@), 0)
    &&& x.tex_coord == val_usize_def(fget(g, "texCoord"@), 0)
    &&& x.scale == val_bits_def(fget(g, "scale"@), ONE_BITS)
    &&& texture_info_extensions_rep(x.extensions, fget(g, "extensions"@))
}

fn parse_normal_texture_info(v: &JVal) -> (r: Result<NormalTextureInfo, (ErrorKind, usize)>)
    ensures
        r is Ok <==> normal_texture_info_ok(v@),
        r matches Ok(x) ==> normal_texture_info_rep(x, v@),
{
    let ms = obj_of(v)?;
    let index = get_req_usize(ms, "index", v.pos)?;
    let tex_coord = get_usize_def(ms, "texCoord", 0)?;
    let scale = get_bits_def(ms, "scale", ONE_BITS)?;
    let extensions = parse_texture_info_extensions(jget(ms, "extensions"))?;
    Ok(NormalTextureInfo { index, tex_coord, scale, extensions })
}

/// A texture reference carrying an occlusion strength.
pub open spec fn occlusion_texture_info_ok(g: GVal) -> bool {
    &&& g.kind is Obj
    &&& ok_req_usize(fget(g, "index"@))
    &&& ok_opt_usize(fget(g, "texCoord"@))
    &&& ok_opt_bits(fget(g, "strength"@))
    &&& texture_info_extensions_ok(fget(g, "extensions"@))
}

pub open spec fn occlusion_texture_info_rep(x: OcclusionTextureInfo, g: GVal) -> bool {
    &&& x.index == val_req_usize(fget(g, "index"@), 0)
    &&& x.tex_coord == val_usize_def(fget(g, "texCoord"@), 0)
    &&& x.strength == val_bits_def(fget(g, "strength"@), ONE_BITS)
    &&& texture_info_extensions_rep(x.extensions, fget(g, "extensions"@))
}

fn parse_occlusion_texture_info(v: &JVal) -> (r: Result<OcclusionTextureInfo, (ErrorKind, usize)>)
    ensures
        r is Ok <==> occlusion_texture_info_ok(v@),
        r matches Ok(x) ==> occlusion_texture_info_rep(x, v@),
{
    let ms = obj_of(v)?;
    let index = get_req_usize(ms, "index", v.pos)?;
    let tex_coord = get_usize_def(ms, "texCoord", 0)?;
    let strength = get_bits_def(ms, "strength", ONE_BITS)?;
    let extensions = parse_texture_info_extensions(jget(ms, "extensions"))?;
    Ok(OcclusionTextureInfo { index, tex_coord, strength, extensions })
}

/// The metallic-roughness parameter bag.
pub open spec fn pbr_ok(g: GVal) -> bool {
    &&& g.kind is Obj
    &&& ok_fixed_bits(fget(g, "baseColorFactor"@), 4)
    &&& opt_texture_info_ok(fget(g, "baseColorTexture"@))
    &&& ok_opt_bits(fget(g, "metallicFactor"@))
    &&& ok_opt_bits(fget(g, "roughnessFactor"@))
    &&& opt_texture_info_ok(fget(g, "metallicRoughnessTexture"@))
}

pub open spec fn pbr_rep(x: PbrMetallicRoughness, g: GVal) -> bool {
    &&& x.base_color_factor@ == val_fixed_bits(
        fget(g, "baseColorFactor"@),
        seq![ONE_BITS, ONE_BITS, ONE_BITS, ONE_BITS],
    )
    &&& opt_texture_info_rep(x.base_color_texture, fget(g, "baseColorTexture"@))
    &&& x.metallic_factor == val_bits_def(fget(g, "metallicFactor"@), ONE_BITS)
    &&& x.roughness_factor == val_bits_def(fget(g, "roughnessFactor"@), ONE_BITS)
    &&& opt_texture_info_rep(x.metallic_roughness_texture, fget(g, "metallicRoughnessTexture"@))
}

/// The default parameter bag an absent field denotes.
pub open spec fn pbr_default_rep(x: PbrMetallicRoughness) -> bool {
    &&& x.base_color_factor@ == seq![ONE_BITS, ONE_BITS, ONE_BITS, ONE_BITS]
    &&& x.base_color_texture is None
    &&& x.metallic_factor == ONE_BITS
    &&& x.roughness_factor == ONE_BITS
    &&& x.metallic_roughness_texture is None
}

fn parse_pbr(v: &JVal) -> (r: Result<PbrMetallicRoughness, (ErrorKind, usize)>)
    ensures
        r is Ok <==> pbr_ok(v@),
        r matches Ok(x) ==> pbr_rep(x, v@),
{
    let ms = obj_of(v)?;
    let base_color_factor = get_fixed_bits(
        ms,
        "baseColorFactor",
        4,
        vec4_of(ONE_BITS, ONE_BITS, ONE_BITS, ONE_BITS),
    )?;
    let base_color_texture = parse_opt_texture_info(jget(ms, "baseColorTexture"))?;
    let metallic_factor = get_bits_def(ms, "metallicFactor", ONE_BITS)?;
    let roughness_factor = get_bits_def(ms, "roughnessFactor", ONE_BITS)?;
    let metallic_roughness_texture = parse_opt_texture_info(jget(ms, "metallicRoughnessTexture"))?;
    Ok(
        PbrMetallicRoughness {
            base_color_factor,
            base_color_texture,
            metallic_factor,
            roughness_factor,
            metallic_roughness_texture,
        },
    )
}

/// A sheen layer.
pub open spec fn sheen_ok(g: GVal) -> bool {
    &&& g.kind is Obj
    &&& ok_fixed_bits(fget(g, "sheenColorFactor"@), 3)
    &&& opt_texture_info_ok(fget(g, "sheenColorTexture"@))
    &&& ok_opt_bits(fget(g, "sheenRoughnessFactor"@))
    &&& opt_texture_info_ok(fget(g, "sheenRoughnessTexture"@))
}

pub open spec fn sheen_rep(x: KhrMaterialsSheen, g: GVal) -> bool {
    &&& x.sheen_color_factor@ == val_fixed_bits(
        fget(g, "sheenColorFactor"@),
        seq![0u32, 0u32, 0u32],
    )
    &&& opt_texture_info_rep(x.sheen_color_texture, fget(g, "sheenColorTexture"@))
    &&& x.sheen_roughness_factor == val_bits_def(fget(g, "sheenRoughnessFactor"@), 0)
    &&& opt_texture_info_rep(x.sheen_roughness_texture, fget(g, "sheenRoughnessTexture"@))
}

fn parse_sheen(v: &JVal) -> (r: Result<KhrMaterialsSheen, (ErrorKind, usize)>)
    ensures
        r is Ok <==> sheen_ok(v@),
        r matches Ok(x) ==> sheen_rep(x, v@),
{
    let ms = obj_of(v)?;
    let sheen_color_factor = get_fixed_bits(ms, "sheenColorFactor", 3, vec3_of(0, 0, 0))?;
    let sheen_color_texture = parse_opt_texture_info(jget(ms, "sheenColorTexture"))?;
    let sheen_roughness_factor = get_bits_def(ms, "sheenRoughnessFactor", 0)?;
    let sheen_roughness_texture = parse_opt_texture_info(jget(ms, "sheenRoughnessTexture"))?;
    Ok(
        KhrMaterialsSheen {
            sheen_color_factor,
            sheen_color_texture,
            sheen_roughness_factor,
            sheen_roughness_texture,
        },
    )
}

/// A specular layer.
pub open spec fn specular_ok(g: GVal) -> bool {
    &&& g.kind is Obj
    &&& ok_opt_bits(fget(g, "specularFactor"@))
    &&& opt_texture_info_ok(fget(g, "specularTexture"@))
    &&& ok_fixed_bits(fget(g, "specularColorFactor"@), 3)
    &&& opt_texture_info_ok(fget(g, "specularColorTexture"@))
}

pub open spec fn specular_rep(x: KhrMaterialsSpecular, g: GVal) -> bool {
    &&& x.specular_factor == val_bits_def(fget(g, "specularFactor"@), ONE_BITS)
    &&& opt_texture_info_rep(x.specular_texture, fget(g, "specularTexture"@))
    &&& x.specular_color_factor@ == val_fixed_bits(
        fget(g, "specularColorFactor"@),
        seq![ONE_BITS, ONE_BITS, ONE_BITS],
    )
    &&& opt_texture_info_rep(x.specular_color_texture, fget(g, "specularColorTexture"@))
}

fn parse_specular(v: &JVal) -> (r: Result<KhrMaterialsSpecular, (ErrorKind, usize)>)
    ensures
        r is Ok <==> specular_ok(v@),
        r matches Ok(x) ==> specular_rep(x, v@),
{
    let ms = obj_of(v)?;
    let specular_factor = get_bits_def(ms, "specularFactor", ONE_BITS)?;
    let specular_texture = parse_opt_texture_info(jget(ms, "specularTexture"))?;
    let specular_color_factor = get_fixed_bits(
        ms,
        "specularColorFactor",
        3,
        vec3_of(ONE_BITS, ONE_BITS, ONE_BITS),
    )?;
    let specular_color_texture = parse_opt_texture_info(jget(ms, "specularColorTexture"))?;
    Ok(
        KhrMaterialsSpecular {
            specular_factor,
            specular_texture,
            specular_color_factor,
            specular_color_texture,
        },
    )
}

/// A transmission layer.
pub open spec fn transmission_ok(g: GVal) -> bool {
    &&& g.kind is Obj
    &&& ok_opt_bits(fget(g, "transmissionFactor"@))
    &&& opt_texture_info_ok(fget(g, "transmissionTexture"@))
}

pub open spec fn transmission_rep(x: KhrMaterialsTransmission, g: GVal) -> bool {
    &&& x.transmission_factor == val_bits_def(fget(g, "transmissionFactor"@), 0)
    &&& opt_texture_info_rep(x.transmission_texture, fget(g, "transmissionTexture"@))
}

fn parse_transmission(v: &JVal) -> (r: Result<KhrMaterialsTransmission, (ErrorKind, usize)>)
    ensures
        r is Ok <==> transmission_ok(v@),
        r matches Ok(x) ==> transmission_rep(x, v@),
{
    let ms = obj_of(v)?;
    let transmission_factor = get_bits_def(ms, "transmissionFactor", 0)?;
    let transmission_texture = parse_opt_texture_info(jget(ms, "transmissionTexture"))?;
    Ok(KhrMaterialsTransmission { transmission_factor, transmission_texture })
}

/// An emissive-strength scale.
pub open spec fn emissive_strength_ok(g: GVal) -> bool {
    &&& g.kind is Obj
    &&& ok_opt_bits(fget(g, "emissiveStrength"@))
}

pub open spec fn emissive_strength_rep(x: KhrMaterialsEmissiveStrength, g: GVal) -> bool {
    x.emissive_strength == val_bits_def(fget(g, "emissiveStrength"@), ONE_BITS)
}

fn parse_emissive_strength(v: &JVal) -> (r: Result<
    KhrMaterialsEmissiveStrength,
    (ErrorKind, usize),
>)
    ensures
        r is Ok <==> emissive_strength_ok(v@),
        r matches Ok(x) ==> emissive_strength_rep(x, v@),
{
    let ms = obj_of(v)?;
    let emissive_strength = get_bits_def(ms, "emissiveStrength", ONE_BITS)?;
    Ok(KhrMaterialsEmissiveStrength { emissive_strength })
}

/// An index of refraction.
pub open spec fn ior_ok(g: GVal) -> bool {
    &&& g.kind is Obj
    &&& ok_opt_bits(fget(g, "ior"@))
}

pub open spec fn ior_rep(x: KhrMaterialsIor, g: GVal) -> bool {
    x.ior == val_bits_def(fget(g, "ior"@), THREE_HALVES_BITS)
}

fn parse_ior(v: &JVal) -> (r: Result<KhrMaterialsIor, (ErrorKind, usize)>)
    ensures
        r is Ok <==> ior_ok(v@),
        r matches Ok(x) ==> ior_rep(x, v@),
{
    let ms = obj_of(v)?;
    let ior = get_bits_def(ms, "ior", THREE_HALVES_BITS)?;
    Ok(KhrMaterialsIor { ior })
}

/// The extension slot of a material.
pub open spec fn material_extensions_ok(o: Option<GVal>) -> bool {
    match o {
        None => true,
        Some(g) => {
            &&& g.kind is Obj
            &&& match fget(g, "KHR_materials_sheen"@) {
                None => true,
                Some(x) => sheen_ok(x),
            }
            &&& match fget(g, "KHR_materials_emissive_strength"@) {
                None => true,
                Some(x) => emissive_strength_ok(x),
            }
            &&& match fget(g, "KHR_materials_unlit"@) {
                None => true,
                Some(x) => x.kind is Obj,
            }
            &&& match fget(g, "KHR_materials_ior"@) {
                None => true,
                Some(x) => ior_ok(x),
            }
            &&& match fget(g, "KHR_materials_specular"@) {
                None => true,
                Some(x) => specular_ok(x),
            }
            &&& match fget(g, "KHR_materials_transmission"@) {
                None => true,
                Some(x) => transmission_ok(x),
            }
        },
    }
}

pub open spec fn material_extensions_rep(x: MaterialExtensions, o: Option<GVal>) -> bool {
    match o {
        None => {
            &&& x.khr_materials_sheen is None
            &&& x.khr_materials_emissive_strength is None
            &&& x.khr_materials_unlit is None
            &&& x.khr_materials_ior is None
            &&& x.khr_materials_specular is None
            &&& x.khr_materials_transmission is None
        },
        Some(g) => {
            &&& match fget(g, "KHR_materials_sheen"@) {
                None => x.khr_materials_sheen is None,
                Some(e) => x.khr_materials_sheen matches Some(v) && sheen_rep(v, e),
            }
            &&& match fget(g, "KHR_materials_emissive_strength"@) {
                None => x.khr_materials_emissive_strength is None,
                Some(e) => x.khr_materials_emissive_strength matches Some(v)
                    && emissive_strength_rep(v, e),
            }
            &&& match fget(g, "KHR_materials_unlit"@) {
                None => x.khr_materials_unlit is None,
                Some(e) => x.khr_materials_unlit is Some,
            }
            &&& match fget(g, "KHR_materials_ior"@) {
                None => x.khr_materials_ior is None,
                Some(e) => x.khr_materials_ior matches Some(v) && ior_rep(v, e),
            }
            &&& match fget(g, "KHR_materials_specular"@) {
                None => x.khr_materials_specular is None,
                Some(e) => x.khr_materials_specular matches Some(v) && specular_rep(v, e),
            }
            &&& match fget(g, "KHR_materials_transmission"@) {
                None => x.khr_materials_transmission is None,
                Some(e) => x.khr_materials_transmission matches Some(v) && transmission_rep(v, e),
            }
        },
    }
}

fn parse_material_extensions(o: Option<&JVal>) -> (r: Result<
    MaterialExtensions,
    (ErrorKind, usize),
>)
    ensures
        r is Ok <==> material_extensions_ok(oview(o)),
        r matches Ok(x) ==> material_extensions_rep(x, oview(o)),
{
    match o {
        None => Ok(
            MaterialExtensions {
                khr_materials_sheen: None,
                khr_materials_emissive_strength: None,
                khr_materials_unlit: None,
                khr_materials_ior: None,
                khr_materials_specular: None,
                khr_materials_transmission: None,
            },
        ),
        Some(v) => {
            let ms = obj_of(v)?;
            let khr_materials_sheen = match jget(ms, "KHR_materials_sheen") {
                None => None,
                Some(e) => Some(parse_sheen(e)?),
            };
            let khr_materials_emissive_strength = match jget(
                ms,
                "KHR_materials_emissive_strength",
            ) {
                None => None,
                Some(e) => Some(parse_emissive_strength(e)?),
            };
            let khr_materials_unlit = match jget(ms, "KHR_materials_unlit") {
                None => None,
                Some(e) => {
                    let _ = obj_of(e)?;
                    Some(KhrMaterialsUnlit {  })
                },
            };
            let khr_materials_ior = match jget(ms, "KHR_materials_ior") {
                None => None,
                Some(e) => Some(parse_ior(e)?),
            };
            let khr_materials_specular = match jget(ms, "KHR_materials_specular") {
                None => None,
                Some(e) => Some(parse_specular(e)?),
            };
            let khr_materials_transmission = match jget(ms, "KHR_materials_transmission") {
                None => None,
                Some(e) => Some(parse_transmission(e)?),
            };
            Ok(
                MaterialExtensions {
                    khr_materials_sheen,
                    khr_materials_emissive_strength,
                    khr_materials_unlit,
                    khr_materials_ior,
                    khr_materials_specular,
                    khr_materials_transmission,
                },
            )
        },
    }
}

/// A surface description.
pub open spec fn material_ok(g: GVal) -> bool {
    &&& g.kind is Obj
    &&& match fget(g, "pbrMetallicRoughness"@) {
        None => true,
        Some(x) => pbr_ok(x),
    }
    &&& match fget(g, "normalTexture"@) {
        None => true,
        Some(x) => normal_texture_info_ok(x),
    }
    &&& match fget(g, "occlusionTexture"@) {
        None => true,
        Some(x) => occlusion_texture_info_ok(x),
    }
    &&& opt_texture_info_ok(fget(g, "emissiveTexture"@))
    &&& ok_fixed_bits(fget(g, "emissiveFactor"@), 3)
    &&& ok_alpha_mode(fget(g, "alphaMode"@))
    &&& ok_opt_bits(fget(g, "alphaCutoff"@))
    &&& ok_opt_bool(fget(g, "doubleSided"@))
    &&& material_extensions_ok(fget(g, "extensions"@))
}

pub open spec fn material_rep(x: Material, g: GVal) -> bool {
    &&& match fget(g, "pbrMetallicRoughness"@) {
        None => pbr_default_rep(x.pbr_metallic_roughness),
        Some(e) => pbr_rep(x.pbr_metallic_roughness, e),
    }
    &&& match fget(g, "normalTexture"@) {
        None => x.normal_texture is None,
        Some(e) => x.normal_texture matches Some(v) && normal_texture_info_rep(v, e),
    }
    &&& match fget(g, "occlusionTexture"@) {
        None => x.occlusion_texture is None,
        Some(e) => x.occlusion_texture matches Some(v) && occlusion_texture_info_rep(v, e),
    }
    &&& opt_texture_info_rep(x.emissive_texture, fget(g, "emissiveTexture"@))
    &&& x.emissive_factor@ == val_fixed_bits(fget(g, "emissiveFactor"@), seq![0u32, 0u32, 0u32])
    &&& x.alpha_mode == val_alpha_mode(fget(g, "alphaMode"@), crate::model::AlphaMode::Opaque)
    &&& x.alpha_cutoff == val_bits_def(fget(g, "alphaCutoff"@), HALF_BITS)
    &&& x.double_sided == val_bool_def(fget(g, "doubleSided"@), false)
    &&& material_extensions_rep(x.extensions, fget(g, "extensions"@))
}

fn parse_material(v: &JVal) -> (r: Result<Material, (ErrorKind, usize)>)
    ensures
        r is Ok <==> material_ok(v@),
        r matches Ok(x) ==> material_rep(x, v@),
{
    let ms = obj_of(v)?;
    let pbr_metallic_roughness = match jget(ms, "pbrMetallicRoughness") {
        None => PbrMetallicRoughness::default(),
        Some(e) => parse_pbr(e)?,
    };
    let normal_texture = match jget(ms, "normalTexture") {
        None => None,
        Some(e) => Some(parse_normal_texture_info(e)?),
    };
    let occlusion_texture = match jget(ms, "occlusionTexture") {
        None => None,
        Some(e) => Some(parse_occlusion_texture_info(e)?),
    };
    let emissive_texture = parse_opt_texture_info(jget(ms, "emissiveTexture"))?;
    let emissive_factor = get_fixed_bits(ms, "emissiveFactor", 3, vec3_of(0, 0, 0))?;
    let alpha_mode = get_alpha_mode(ms, "alphaMode", crate::model::AlphaMode::Opaque)?;
    let alpha_cutoff = get_bits_def(ms, "alphaCutoff", HALF_BITS)?;
    let double_sided = get_bool_def(ms, "doubleSided", false)?;
    let extensions = parse_material_extensions(jget(ms, "extensions"))?;
    Ok(
        Material {
            pbr_metallic_roughness,
            normal_texture,
            occlusion_texture,
            emissive_texture,
            emissive_factor,
            alpha_mode,
            alpha_cutoff,
            double_sided,
            extensions,
        },
    )
}


/// The extension slot of a buffer.
pub open spec fn buffer_extensions_ok(o: Option<GVal>) -> bool {
    match o {
        None => true,
        Some(g) => {
            &&& g.kind is Obj
            &&& match fget(g, "EXT_meshopt_compression"@) {
                None => true,
                Some(x) => x.kind is Obj && ok_opt_bool(fget(x, "fallback"@)),
            }
        },
    }
}

pub open spec fn buffer_extensions_rep(x: BufferExtensions, o: Option<GVal>) -> bool {
    match o {
        None => x.ext_meshopt_compression is None,
        Some(g) => match fget(g, "EXT_meshopt_compression"@) {
            None => x.ext_meshopt_compression is None,
            Some(e) => x.ext_meshopt_compression matches Some(v) && v.fallback == val_bool_def(
                fget(e, "fallback"@),
                false,
            ),
        },
    }
}

fn parse_buffer_extensions(o: Option<&JVal>) -> (r: Result<BufferExtensions, (ErrorKind, usize)>)
    ensures
        r is Ok <==> buffer_extensions_ok(oview(o)),
        r matches Ok(x) ==> buffer_extensions_rep(x, oview(o)),
{
    match o {
        None => Ok(BufferExtensions { ext_meshopt_compression: None }),
        Some(v) => {
            let ms = obj_of(v)?;
            let ext_meshopt_compression = match jget(ms, "EXT_meshopt_compression") {
                None => None,
                Some(e) => {
                    let ems = obj_of(e)?;
                    let fallback = get_bool_def(ems, "fallback", false)?;
                    Some(ExtMeshoptCompressionBuffer { fallback })
                },
            };
            Ok(BufferExtensions { ext_meshopt_compression })
        },
    }
}

/// An opaque byte blob.
pub open spec fn buffer_ok(g: GVal) -> bool {
    &&& g.kind is Obj
    &&& ok_opt_text(fget(g, "uri"@))
    &&& ok_req_usize(fget(g, "byteLength"@))
    &&& buffer_extensions_ok(fget(g, "extensions"@))
}

pub open spec fn buffer_rep(x: Buffer, g: GVal) -> bool {
    &&& opt_string_view(x.uri) == val_opt_text(fget(g, "uri"@))
    &&& x.byte_length == val_req_usize(fget(g, "byteLength"@), 0)
    &&& buffer_extensions_rep(x.extensions, fget(g, "extensions"@))
}

fn parse_buffer(v: &JVal) -> (r: Result<Buffer, (ErrorKind, usize)>)
    ensures
        r is Ok <==> buffer_ok(v@),
        r matches Ok(x) ==> buffer_rep(x, v@),
{
    let ms = obj_of(v)?;
    let uri = get_opt_string(ms, "uri")?;
    let byte_length = get_req_usize(ms, "byteLength", v.pos)?;
    let extensions = parse_buffer_extensions(jget(ms, "extensions"))?;
    Ok(Buffer { uri, byte_length, extensions })
}

/// A compressed-view description.
pub open spec fn meshopt_compression_ok(g: GVal) -> bool {
    &&& g.kind is Obj
    &&& ok_req_usize(fget(g, "buffer"@))
    &&& ok_opt_usize(fget(g, "byteOffset"@))
    &&& ok_req_usize(fget(g, "byteLength"@))
    &&& ok_req_usize(fget(g, "byteStride"@))
    &&& ok_req_compression_mode(fget(g, "mode"@))
    &&& ok_req_usize(fget(g, "count"@))
    &&& ok_compression_filter(fget(g, "filter"@))
}

pub open spec fn meshopt_compression_rep(x: ExtMeshoptCompression, g: GVal) -> bool {
    &&& x.buffer == val_req_usize(fget(g, "buffer"@), 0)
    &&& x.byte_offset == val_usize_def(fget(g, "byteOffset"@), 0)
    &&& x.byte_length == val_req_usize(fget(g, "byteLength"@), 0)
    &&& x.byte_stride == val_req_usize(fget(g, "byteStride"@), 0)
    &&& x.mode == val_compression_mode(fget(g, "mode"@))
    &&& x.count == val_req_usize(fget(g, "count"@), 0)
    &&& x.filter == val_compression_filter(fget(g, "filter"@))
}

fn parse_meshopt_compression(v: &JVal) -> (r: Result<ExtMeshoptCompression, (ErrorKind, usize)>)
    ensures
        r is Ok <==> meshopt_compression_ok(v@),
        r matches Ok(x) ==> meshopt_compression_rep(x, v@),
{
    let ms = obj_of(v)?;
    let buffer = get_req_usize(ms, "buffer", v.pos)?;
    let byte_offset = get_usize_def(ms, "byteOffset", 0)?;
    let byte_length = get_req_usize(ms, "byteLength", v.pos)?;
    let byte_stride = get_req_usize(ms, "byteStride", v.pos)?;
    let mode = get_compression_mode(ms, "mode", v.pos)?;
    let count = get_req_usize(ms, "count", v.pos)?;
    let filter = get_compression_filter(ms, "filter")?;
    Ok(ExtMeshoptCompression { buffer, byte_offset, byte_length, byte_stride, mode, count, filter })
}

/// The extension slot of a buffer view.
pub open spec fn buffer_view_extensions_ok(o: Option<GVal>) -> bool {
    match o {
        None => true,
        Some(g) => {
            &&& g.kind is Obj
            &&& match fget(g, "EXT_meshopt_compression"@) {
                None => true,
                Some(x) => meshopt_compression_ok(x),
            }
        },
    }
}

pub open spec fn buffer_view_extensions_rep(x: BufferViewExtensions, o: Option<GVal>) -> bool {
    match o {
        None => x.ext_meshopt_compression is None,
        Some(g) => match fget(g, "EXT_meshopt_compression"@) {
            None => x.ext_meshopt_compression is None,
            Some(e) => x.ext_meshopt_compression matches Some(v) && meshopt_compression_rep(v, e),
        },
    }
}

fn parse_buffer_view_extensions(o: Option<&JVal>) -> (r: Result<
    BufferViewExtensions,
    (ErrorKind, usize),
>)
    ensures
        r is Ok <==> buffer_view_extensions_ok(oview(o)),
        r matches Ok(x) ==> buffer_view_extensions_rep(x, oview(o)),
{
    match o {
        None => Ok(BufferViewExtensions { ext_meshopt_compression: None }),
        Some(v) => {
            let ms = obj_of(v)?;
            let ext_meshopt_compression = match jget(ms, "EXT_meshopt_compression") {
                None => None,
                Some(e) => Some(parse_meshopt_compression(e)?),
            };
            Ok(BufferViewExtensions { ext_meshopt_compression })
        },
    }
}

/// A byte sub-range of a buffer.
pub open spec fn buffer_view_ok(g: GVal) -> bool {
    &&& g.kind is Obj
    &&& ok_req_usize(fget(g, "buffer"@))
    &&& ok_opt_usize(fget(g, "byteOffset"@))
    &&& ok_req_usize(fget(g, "byteLength"@))
    &&& ok_opt_usize(fget(g, "byteStride"@))
    &&& buffer_view_extensions_ok(fget(g, "extensions"@))
}

pub open spec fn buffer_view_rep(x: BufferView, g: GVal) -> bool {
    &&& x.buffer == val_req_usize(fget(g, "buffer"@), 0)
    &&& x.byte_offset == val_usize_def(fget(g, "byteOffset"@), 0)
    &&& x.byte_length == val_req_usize(fget(g, "byteLength"@), 0)
    &&& x.byte_stride == val_opt_usize(fget(g, "byteStride"@))
    &&& buffer_view_extensions_rep(x.extensions, fget(g, "extensions"@))
}

fn parse_buffer_view(v: &JVal) -> (r: Result<BufferView, (ErrorKind, usize)>)
    ensures
        r is Ok <==> buffer_view_ok(v@),
        r matches Ok(x) ==> buffer_view_rep(x, v@),
{
    let ms = obj_of(v)?;
    let buffer = get_req_usize(ms, "buffer", v.pos)?;
    let byte_offset = get_usize_def(ms, "byteOffset", 0)?;
    let byte_length = get_req_usize(ms, "byteLength", v.pos)?;
    let byte_stride = get_opt_usize(ms, "byteStride")?;
    let extensions = parse_buffer_view_extensions(jget(ms, "extensions"))?;
    Ok(BufferView { buffer, byte_offset, byte_length, byte_stride, extensions })
}

/// Where sparse override indices come from.
pub open spec fn sparse_indices_ok(g: GVal) -> bool {
    &&& g.kind is Obj
    &&& ok_req_usize(fget(g, "bufferView"@))
    &&& ok_opt_usize(fget(g, "byteOffset"@))
    &&& ok_req_component_type(fget(g, "componentType"@))
}

pub open spec fn sparse_indices_rep(x: SparseIndices, g: GVal) -> bool {
    &&& x.buffer_view == val_req_usize(fget(g, "bufferView"@), 0)
    &&& x.byte_offset == val_usize_def(fget(g, "byteOffset"@), 0)
    &&& x.component_type == val_component_type(fget(g, "componentType"@))
}

fn parse_sparse_indices(v: &JVal) -> (r: Result<SparseIndices, (ErrorKind, usize)>)
    ensures
        r is Ok <==> sparse_indices_ok(v@),
        r matches Ok(x) ==> sparse_indices_rep(x, v@),
{
    let ms = obj_of(v)?;
    let buffer_view = get_req_usize(ms, "bufferView", v.pos)?;
    let byte_offset = get_usize_def(ms, "byteOffset", 0)?;
    let component_type = get_component_type(ms, "componentType", v.pos)?;
    Ok(SparseIndices { buffer_view, byte_offset, component_type })
}

/// Where sparse override values come from.
pub open spec fn sparse_values_ok(g: GVal) -> bool {
    &&& g.kind is Obj
    &&& ok_req_usize(fget(g, "bufferView"@))
    &&& ok_opt_usize(fget(g, "byteOffset"@))
}

pub open spec fn sparse_values_rep(x: SparseValues, g: GVal) -> bool {
    &&& x.buffer_view == val_req_usize(fget(g, "bufferView"@), 0)
    &&& x.byte_offset == val_usize_def(fget(g, "byteOffset"@), 0)
}

fn parse_sparse_values(v: &JVal) -> (r: Result<SparseValues, (ErrorKind, usize)>)
    ensures
        r is Ok <==> sparse_values_ok(v@),
        r matches Ok(x) ==> sparse_values_rep(x, v@),
{
    let ms = obj_of(v)?;
    let buffer_view = get_req_usize(ms, "bufferView", v.pos)?;
    let byte_offset = get_usize_def(ms, "byteOffset", 0)?;
    Ok(SparseValues { buffer_view, byte_offset })
}

/// A sparse override set.
pub open spec fn sparse_ok(g: GVal) -> bool {
    &&& g.kind is Obj
    &&& ok_req_usize(fget(g, "count"@))
    &&& fget(g, "indices"@) matches Some(x) && sparse_indices_ok(x)
    &&& fget(g, "values"@) matches Some(x) && sparse_values_ok(x)
}

pub open spec fn sparse_rep(x: Sparse, g: GVal) -> bool {
    &&& x.count == val_req_usize(fget(g, "count"@), 0)
    &&& fget(g, "indices"@) matches Some(e) && sparse_indices_rep(x.indices, e)
    &&& fget(g, "values"@) matches Some(e) && sparse_values_rep(x.values, e)
}

fn parse_sparse(v: &JVal) -> (r: Result<Sparse, (ErrorKind, usize)>)
    ensures
        r is Ok <==> sparse_ok(v@),
        r matches Ok(x) ==> sparse_rep(x, v@),
{
    let ms = obj_of(v)?;
    let count = get_req_usize(ms, "count", v.pos)?;
    let indices = match jget(ms, "indices") {
        None => {
            return Err((ErrorKind::MissingField, v.pos));
        },
        Some(e) => parse_sparse_indices(e)?,
    };
    let values = match jget(ms, "values") {
        None => {
            return Err((ErrorKind::MissingField, v.pos));
        },
        Some(e) => parse_sparse_values(e)?,
    };
    Ok(Sparse { count, indices, values })
}

/// A typed reinterpretation rule for a buffer view's bytes.
pub open spec fn accessor_ok(g: GVal) -> bool {
    &&& g.kind is Obj
    &&& ok_opt_usize(fget(g, "bufferView"@))
    &&& ok_opt_usize(fget(g, "byteOffset"@))
    &&& ok_req_component_type(fget(g, "componentType"@))
    &&& ok_opt_bool(fget(g, "normalized"@))
    &&& ok_req_usize(fget(g, "count"@))
    &&& ok_req_accessor_type(fget(g, "type"@))
    &&& match fget(g, "sparse"@) {
        None => true,
        Some(x) => sparse_ok(x),
    }
    &&& ok_opt_bits_arr(fget(g, "min"@))
    &&& ok_opt_bits_arr(fget(g, "max"@))
}

pub open spec fn accessor_rep(x: Accessor, g: GVal) -> bool {
    &&& x.buffer_view == val_opt_usize(fget(g, "bufferView"@))
    &&& x.byte_offset == val_usize_def(fget(g, "byteOffset"@), 0)
    &&& x.component_type == val_component_type(fget(g, "componentType"@))
    &&& x.normalized == val_bool_def(fget(g, "normalized"@), false)
    &&& x.count == val_req_usize(fget(g, "count"@), 0)
    &&& x.accessor_type == val_accessor_type(fget(g, "type"@))
    &&& match fget(g, "sparse"@) {
        None => x.sparse is None,
        Some(e) => x.sparse matches Some(sp) && sparse_rep(sp, e),
    }
    &&& opt_vec_view(x.min) == val_opt_bits_arr(fget(g, "min"@))
    &&& opt_vec_view(x.max) == val_opt_bits_arr(fget(g, "max"@))
}

fn parse_accessor(v: &JVal) -> (r: Result<Accessor, (ErrorKind, usize)>)
    ensures
        r is Ok <==> accessor_ok(v@),
        r matches Ok(x) ==> accessor_rep(x, v@),
{
    let ms = obj_of(v)?;
    let buffer_view = get_opt_usize(ms, "bufferView")?;
    let byte_offset = get_usize_def(ms, "byteOffset", 0)?;
    let component_type = get_component_type(ms, "componentType", v.pos)?;
    let normalized = get_bool_def(ms, "normalized", false)?;
    let count = get_req_usize(ms, "count", v.pos)?;
    let accessor_type = get_accessor_type(ms, "type", v.pos)?;
    let sparse = match jget(ms, "sparse") {
        None => None,
        Some(e) => Some(parse_sparse(e)?),
    };
    let min = get_opt_bits_arr(ms, "min")?;
    let max = get_opt_bits_arr(ms, "max")?;
    Ok(
        Accessor {
            buffer_view,
            byte_offset,
            component_type,
            normalized,
            count,
            accessor_type,
            sparse,
            min,
            max,
        },
    )
}

/// A picture.
pub open spec fn image_ok(g: GVal) -> bool {
    &&& g.kind is Obj
    &&& ok_opt_text(fget(g, "uri"@))
    &&& ok_opt_text(fget(g, "mimeType"@))
    &&& ok_opt_usize(fget(g, "bufferView"@))
}

pub open spec fn image_rep(x: Image, g: GVal) -> bool {
    &&& opt_string_view(x.uri) == val_opt_text(fget(g, "uri"@))
    &&& opt_string_view(x.mime_type) == val_opt_text(fget(g, "mimeType"@))
    &&& x.buffer_view == val_opt_usize(fget(g, "bufferView"@))
}

fn parse_image(v: &JVal) -> (r: Result<Image, (ErrorKind, usize)>)
    ensures
        r is Ok <==> image_ok(v@),
        r matches Ok(x) ==> image_rep(x, v@),
{
    let ms = obj_of(v)?;
    let uri = get_opt_string(ms, "uri")?;
    let mime_type = get_opt_string(ms, "mimeType")?;
    let buffer_view = get_opt_usize(ms, "bufferView")?;
    Ok(Image { uri, mime_type, buffer_view })
}

/// The extension slot of a texture.
pub open spec fn texture_extensions_ok(o: Option<GVal>) -> bool {
    match o {
        None => true,
        Some(g) => {
            &&& g.kind is Obj
            &&& match fget(g, "KHR_texture_basisu"@) {
                None => true,
                Some(x) => x.kind is Obj && ok_req_usize(fget(x, "source"@)),
            }
        },
    }
}

pub open spec fn texture_extensions_rep(x: TextureExtensions, o: Option<GVal>) -> bool {
    match o {
        None => x.khr_texture_basisu is None,
        Some(g) => match fget(g, "KHR_texture_basisu"@) {
            None => x.khr_texture_basisu is None,
            Some(e) => x.khr_texture_basisu matches Some(v) && v.source == val_req_usize(
                fget(e, "source"@),
                0,
            ),
        },
    }
}

fn parse_texture_extensions(o: Option<&JVal>) -> (r: Result<TextureExtensions, (ErrorKind, usize)>)
    ensures
        r is Ok <==> texture_extensions_ok(oview(o)),
        r matches Ok(x) ==> texture_extensions_rep(x, oview(o)),
{
    match o {
        None => Ok(TextureExtensions { khr_texture_basisu: None }),
        Some(v) => {
            let ms = obj_of(v)?;
            let khr_texture_basisu = match jget(ms, "KHR_texture_basisu") {
                None => None,
                Some(e) => {
                    let ems = obj_of(e)?;
                    let source = get_req_usize(ems, "source", e.pos)?;
                    Some(KhrTextureBasisu { source })
                },
            };
            Ok(TextureExtensions { khr_texture_basisu })
        },
    }
}

/// A sampled reference to an image.
pub open spec fn texture_ok(g: GVal) -> bool {
    &&& g.kind is Obj
    &&& ok_opt_usize(fget(g, "sampler"@))
    &&& ok_opt_usize(fget(g, "source"@))
    &&& texture_extensions_ok(fget(g, "extensions"@))
}

pub open spec fn texture_rep(x: Texture, g: GVal) -> bool {
    &&& x.sampler == val_opt_usize(fget(g, "sampler"@))
    &&& x.source == val_opt_usize(fget(g, "source"@))
    &&& texture_extensions_rep(x.extensions, fget(g, "extensions"@))
}

fn parse_texture(v: &JVal) -> (r: Result<Texture, (ErrorKind, usize)>)
    ensures
        r is Ok <==> texture_ok(v@),
        r matches Ok(x) ==> texture_rep(x, v@),
{
    let ms = obj_of(v)?;
    let sampler = get_opt_usize(ms, "sampler")?;
    let source = get_opt_usize(ms, "source")?;
    let extensions = parse_texture_extensions(jget(ms, "extensions"))?;
    Ok(Texture { sampler, source, extensions })
}

/// Filtering and wrapping rules.
pub open spec fn sampler_ok(g: GVal) -> bool {
    &&& g.kind is Obj
    &&& ok_opt_filter_mode(fget(g, "magFilter"@))
    &&& ok_opt_min_filter(fget(g, "minFilter"@))
    &&& ok_sampler_wrap(fget(g, "wrapS"@))
    &&& ok_sampler_wrap(fget(g, "wrapT"@))
}

pub open spec fn sampler_rep(x: Sampler, g: GVal) -> bool {
    &&& x.mag_filter == val_opt_filter_mode(fget(g, "magFilter"@))
    &&& x.min_filter == val_opt_min_filter(fget(g, "minFilter"@))
    &&& x.wrap_s == val_sampler_wrap(fget(g, "wrapS"@))
    &&& x.wrap_t == val_sampler_wrap(fget(g, "wrapT"@))
}

fn parse_sampler(v: &JVal) -> (r: Result<Sampler, (ErrorKind, usize)>)
    ensures
        r is Ok <==> sampler_ok(v@),
        r matches Ok(x) ==> sampler_rep(x, v@),
{
    let ms = obj_of(v)?;
    let mag_filter = get_opt_filter_mode(ms, "magFilter")?;
    let min_filter = get_opt_min_filter(ms, "minFilter")?;
    let wrap_s = get_sampler_wrap(ms, "wrapS")?;
    let wrap_t = get_sampler_wrap(ms, "wrapT")?;
    Ok(Sampler { mag_filter, min_filter, wrap_s, wrap_t })
}


/// The fixed attribute vocabulary of a primitive.
pub open spec fn attributes_ok(g: GVal) -> bool {
    &&& g.kind is Obj
    &&& ok_opt_usize(fget(g, "POSITION"@))
    &&& ok_opt_usize(fget(g, "TANGENT"@))
    &&& ok_opt_usize(fget(g, "NORMAL"@))
    &&& ok_opt_usize(fget(g, "TEXCOORD_0"@))
    &&& ok_opt_usize(fget(g, "TEXCOORD_1"@))
    &&& ok_opt_usize(fget(g, "JOINTS_0"@))
    &&& ok_opt_usize(fget(g, "WEIGHTS_0"@))
}

pub open spec fn attributes_rep(x: Attributes, g: GVal) -> bool {
    &&& x.position == val_opt_usize(fget(g, "POSITION"@))
    &&& x.tangent == val_opt_usize(fget(g, "TANGENT"@))
    &&& x.normal == val_opt_usize(fget(g, "NORMAL"@))
    &&& x.texcoord_0 == val_opt_usize(fget(g, "TEXCOORD_0"@))
    &&& x.texcoord_1 == val_opt_usize(fget(g, "TEXCOORD_1"@))
    &&& x.joints_0 == val_opt_usize(fget(g, "JOINTS_0"@))
    &&& x.weights_0 == val_opt_usize(fget(g, "WEIGHTS_0"@))
}

fn parse_attributes(v: &JVal) -> (r: Result<Attributes, (ErrorKind, usize)>)
    ensures
        r is Ok <==> attributes_ok(v@),
        r matches Ok(x) ==> attributes_rep(x, v@),
{
    let ms = obj_of(v)?;
    let position = get_opt_usize(ms, "POSITION")?;
    let tangent = get_opt_usize(ms, "TANGENT")?;
    let normal = get_opt_usize(ms, "NORMAL")?;
    let texcoord_0 = get_opt_usize(ms, "TEXCOORD_0")?;
    let texcoord_1 = get_opt_usize(ms, "TEXCOORD_1")?;
    let joints_0 = get_opt_usize(ms, "JOINTS_0")?;
    let weights_0 = get_opt_usize(ms, "WEIGHTS_0")?;
    Ok(Attributes { position, tangent, normal, texcoord_0, texcoord_1, joints_0, weights_0 })
}

/// Every entry of a sequence is an attribute bag.
pub open spec fn all_attributes_ok(es: Seq<GVal>) -> bool {
    forall|i: int| 0 <= i < es.len() ==> attributes_ok(#[trigger] es[i])
}

pub open spec fn attributes_list_rep(xs: Seq<Attributes>, es: Seq<GVal>) -> bool {
    &&& xs.len() == es.len()
    &&& forall|i: int| 0 <= i < es.len() ==> attributes_rep(#[trigger] xs[i], es[i])
}

fn parse_attributes_list(es: &Vec<JVal>) -> (r: Result<Vec<Attributes>, (ErrorKind, usize)>)
    ensures
        r is Ok <==> all_attributes_ok(crate::json::elems_view(es@)),
        r matches Ok(v) ==> attributes_list_rep(v@, crate::json::elems_view(es@)),
{
    let mut out: Vec<Attributes> = Vec::new();
    let mut i: usize = 0;
    while i < es.len()
        invariant
            i <= es@.len(),
            out@.len() == i,
            forall|j: int| 0 <= j < i ==> attributes_ok(#[trigger] crate::json::elems_view(es@)[j]),
            forall|j: int|
                0 <= j < i ==> attributes_rep(#[trigger] out@[j], crate::json::elems_view(es@)[j]),
        decreases es@.len() - i,
    {
        proof {
            assert(crate::json::elems_view(es@)[i as int] == es@[i as int]@);
        }
        match parse_attributes(&es[i]) {
            Ok(x) => {
                out.push(x);
            },
            Err(e) => {
                return Err(e);
            },
        }
        i = i + 1;
    }
    Ok(out)
}

/// One drawable piece of a mesh.
pub open spec fn primitive_ok(g: GVal) -> bool {
    &&& g.kind is Obj
    &&& fget(g, "attributes"@) matches Some(a) && attributes_ok(a)
    &&& ok_opt_usize(fget(g, "indices"@))
    &&& ok_opt_usize(fget(g, "material"@))
    &&& ok_primitive_mode(fget(g, "mode"@))
    &&& match fget(g, "targets"@) {
        None => true,
        Some(t) => t.kind matches GKind::Arr(es) && all_attributes_ok(es),
    }
}

pub open spec fn primitive_rep(x: Primitive, g: GVal) -> bool {
    &&& fget(g, "attributes"@) matches Some(a) && attributes_rep(x.attributes, a)
    &&& x.indices == val_opt_usize(fget(g, "indices"@))
    &&& x.material == val_opt_usize(fget(g, "material"@))
    &&& x.mode == val_primitive_mode(fget(g, "mode"@))
    &&& match fget(g, "targets"@) {
        None => x.targets is None,
        Some(t) => t.kind matches GKind::Arr(es) && x.targets matches Some(ts)
            && attributes_list_rep(ts@, es),
    }
}

fn parse_primitive(v: &JVal) -> (r: Result<Primitive, (ErrorKind, usize)>)
    ensures
        r is Ok <==> primitive_ok(v@),
        r matches Ok(x) ==> primitive_rep(x, v@),
{
    let ms = obj_of(v)?;
    let attributes = match jget(ms, "attributes") {
        None => {
            return Err((ErrorKind::MissingField, v.pos));
        },
        Some(a) => parse_attributes(a)?,
    };
    let indices = get_opt_usize(ms, "indices")?;
    let material = get_opt_usize(ms, "material")?;
    let mode = get_primitive_mode(ms, "mode")?;
    let targets = match jget(ms, "targets") {
        None => None,
        Some(t) => match &t.kind {
            JKind::Arr(es) => Some(parse_attributes_list(es)?),
            _ => {
                return Err((ErrorKind::WrongType, t.pos));
            },
        },
    };
    Ok(Primitive { attributes, indices, material, mode, targets })
}

/// Every entry of a sequence is a primitive.
pub open spec fn all_primitives_ok(es: Seq<GVal>) -> bool {
    forall|i: int| 0 <= i < es.len() ==> primitive_ok(#[trigger] es[i])
}

pub open spec fn primitives_list_rep(xs: Seq<Primitive>, es: Seq<GVal>) -> bool {
    &&& xs.len() == es.len()
    &&& forall|i: int| 0 <= i < es.len() ==> primitive_rep(#[trigger] xs[i], es[i])
}

fn parse_primitives_list(es: &Vec<JVal>) -> (r: Result<Vec<Primitive>, (ErrorKind, usize)>)
    ensures
        r is Ok <==> all_primitives_ok(crate::json::elems_view(es@)),
        r matches Ok(v) ==> primitives_list_rep(v@, crate::json::elems_view(es@)),
{
    let mut out: Vec<Primitive> = Vec::new();
    let mut i: usize = 0;
    while i < es.len()
        invariant
            i <= es@.len(),
            out@.len() == i,
            forall|j: int| 0 <= j < i ==> primitive_ok(#[trigger] crate::json::elems_view(es@)[j]),
            forall|j: int|
                0 <= j < i ==> primitive_rep(#[trigger] out@[j], crate::json::elems_view(es@)[j]),
        decreases es@.len() - i,
    {
        proof {
            assert(crate::json::elems_view(es@)[i as int] == es@[i as int]@);
        }
        match parse_primitive(&es[i]) {
            Ok(x) => {
                out.push(x);
            },
            Err(e) => {
                return Err(e);
            },
        }
        i = i + 1;
    }
    Ok(out)
}

/// A list of primitives with optional morph-target weights.
pub open spec fn mesh_ok(g: GVal) -> bool {
    &&& g.kind is Obj
    &&& fget(g, "primitives"@) matches Some(p) && p.kind matches GKind::Arr(es)
        && all_primitives_ok(es)
    &&& ok_opt_bits_arr(fget(g, "weights"@))
}

pub open spec fn mesh_rep(x: Mesh, g: GVal) -> bool {
    &&& fget(g, "primitives"@) matches Some(p) && p.kind matches GKind::Arr(es)
        && primitives_list_rep(x.primitives@, es)
    &&& opt_vec_view(x.weights) == val_opt_bits_arr(fget(g, "weights"@))
}

fn parse_mesh(v: &JVal) -> (r: Result<Mesh, (ErrorKind, usize)>)
    ensures
        r is Ok <==> mesh_ok(v@),
        r matches Ok(x) ==> mesh_rep(x, v@),
{
    let ms = obj_of(v)?;
    let primitives = match jget(ms, "primitives") {
        None => {
            return Err((ErrorKind::MissingField, v.pos));
        },
        Some(p) => match &p.kind {
            JKind::Arr(es) => parse_primitives_list(es)?,
            _ => {
                return Err((ErrorKind::WrongType, p.pos));
            },
        },
    };
    let weights = get_opt_bits_arr(ms, "weights")?;
    Ok(Mesh { primitives, weights })
}

/// Per-node instancing accessors.
pub open spec fn gpu_instancing_ok(g: GVal) -> bool {
    &&& g.kind is Obj
    &&& fget(g, "attributes"@) matches Some(a) && a.kind is Obj && ok_req_usize(
        fget(a, "ROTATION"@),
    ) && ok_req_usize(fget(a, "SCALE"@)) && ok_req_usize(fget(a, "TRANSLATION"@))
}

pub open spec fn gpu_instancing_rep(x: ExtMeshGpuInstancing, g: GVal) -> bool {
    fget(g, "attributes"@) matches Some(a) && x.attributes.rotation == val_req_usize(
        fget(a, "ROTATION"@),
        0,
    ) && x.attributes.scale == val_req_usize(fget(a, "SCALE"@), 0) && x.attributes.translation
        == val_req_usize(fget(a, "TRANSLATION"@), 0)
}

fn parse_gpu_instancing(v: &JVal) -> (r: Result<ExtMeshGpuInstancing, (ErrorKind, usize)>)
    ensures
        r is Ok <==> gpu_instancing_ok(v@),
        r matches Ok(x) ==> gpu_instancing_rep(x, v@),
{
    let ms = obj_of(v)?;
    match jget(ms, "attributes") {
        None => Err((ErrorKind::MissingField, v.pos)),
        Some(a) => {
            let ams = obj_of(a)?;
            let rotation = get_req_usize(ams, "ROTATION", a.pos)?;
            let scale = get_req_usize(ams, "SCALE", a.pos)?;
            let translation = get_req_usize(ams, "TRANSLATION", a.pos)?;
            Ok(
                ExtMeshGpuInstancing {
                    attributes: ExtMeshGpuInstancingAttributes { rotation, scale, translation },
                },
            )
        },
    }
}

/// The extension slot of a node.
pub open spec fn node_extensions_ok(o: Option<GVal>) -> bool {
    match o {
        None => true,
        Some(g) => {
            &&& g.kind is Obj
            &&& match fget(g, "EXT_mesh_gpu_instancing"@) {
                None => true,
                Some(x) => gpu_instancing_ok(x),
            }
            &&& match fget(g, "MSFT_lod"@) {
                None => true,
                Some(x) => x.kind is Obj && ok_req_usize_arr(fget(x, "ids"@)),
            }
        },
    }
}

pub open spec fn node_extensions_rep(x: NodeExtensions, o: Option<GVal>) -> bool {
    match o {
        None => x.ext_mesh_gpu_instancing is None && x.msft_lod is None,
        Some(g) => {
            &&& match fget(g, "EXT_mesh_gpu_instancing"@) {
                None => x.ext_mesh_gpu_instancing is None,
                Some(e) => x.ext_mesh_gpu_instancing matches Some(v) && gpu_instancing_rep(v, e),
            }
            &&& match fget(g, "MSFT_lod"@) {
                None => x.msft_lod is None,
                Some(e) => x.msft_lod matches Some(v) && v.ids@ == val_usize_arr_def(
                    fget(e, "ids"@),
                ),
            }
        },
    }
}

fn parse_node_extensions(o: Option<&JVal>) -> (r: Result<NodeExtensions, (ErrorKind, usize)>)
    ensures
        r is Ok <==> node_extensions_ok(oview(o)),
        r matches Ok(x) ==> node_extensions_rep(x, oview(o)),
{
    match o {
        None => Ok(NodeExtensions { ext_mesh_gpu_instancing: None, msft_lod: None }),
        Some(v) => {
            let ms = obj_of(v)?;
            let ext_mesh_gpu_instancing = match jget(ms, "EXT_mesh_gpu_instancing") {
                None => None,
                Some(e) => Some(parse_gpu_instancing(e)?),
            };
            let msft_lod = match jget(ms, "MSFT_lod") {
                None => None,
                Some(e) => {
                    let ems = obj_of(e)?;
                    let ids = get_req_usize_arr(ems, "ids", e.pos)?;
                    Some(MsftLod { ids })
                },
            };
            Ok(NodeExtensions { ext_mesh_gpu_instancing, msft_lod })
        },
    }
}

/// The extras slot of a node.
pub open spec fn node_extras_ok(o: Option<GVal>) -> bool {
    match o {
        None => true,
        Some(g) => g.kind is Obj && ok_opt_bits_arr(fget(g, "MSFT_screencoverage"@)),
    }
}

pub open spec fn node_extras_rep(x: NodeExtras, o: Option<GVal>) -> bool {
    match o {
        None => x.msft_screencoverage is None,
        Some(g) => opt_vec_view(x.msft_screencoverage) == val_opt_bits_arr(
            fget(g, "MSFT_screencoverage"@),
        ),
    }
}

fn parse_node_extras(o: Option<&JVal>) -> (r: Result<NodeExtras, (ErrorKind, usize)>)
    ensures
        r is Ok <==> node_extras_ok(oview(o)),
        r matches Ok(x) ==> node_extras_rep(x, oview(o)),
{
    match o {
        None => Ok(NodeExtras { msft_screencoverage: None }),
        Some(v) => {
            let ms = obj_of(v)?;
            let msft_screencoverage = get_opt_bits_arr(ms, "MSFT_screencoverage")?;
            Ok(NodeExtras { msft_screencoverage })
        },
    }
}

/// A scene-graph node.
pub open spec fn node_ok(g: GVal) -> bool {
    &&& g.kind is Obj
    &&& ok_opt_usize(fget(g, "camera"@))
    &&& ok_opt_usize_arr(fget(g, "children"@))
    &&& ok_opt_usize(fget(g, "skin"@))
    &&& ok_fixed_bits(fget(g, "matrix"@), 16)
    &&& ok_opt_usize(fget(g, "mesh"@))
    &&& ok_fixed_bits(fget(g, "rotation"@), 4)
    &&& ok_fixed_bits(fget(g, "scale"@), 3)
    &&& ok_fixed_bits(fget(g, "translation"@), 3)
    &&& node_extensions_ok(fget(g, "extensions"@))
    &&& node_extras_ok(fget(g, "extras"@))
}

pub open spec fn node_rep(x: Node, g: GVal) -> bool {
    &&& x.camera == val_opt_usize(fget(g, "camera"@))
    &&& x.children@ == val_usize_arr_def(fget(g, "children"@))
    &&& x.skin == val_opt_usize(fget(g, "skin"@))
    &&& opt_vec_view(x.matrix) == val_opt_fixed_bits(fget(g, "matrix"@))
    &&& x.mesh == val_opt_usize(fget(g, "mesh"@))
    &&& opt_vec_view(x.rotation) == val_opt_fixed_bits(fget(g, "rotation"@))
    &&& opt_vec_view(x.scale) == val_opt_fixed_bits(fget(g, "scale"@))
    &&& opt_vec_view(x.translation) == val_opt_fixed_bits(fget(g, "translation"@))
    &&& node_extensions_rep(x.extensions, fget(g, "extensions"@))
    &&& node_extras_rep(x.extras, fget(g, "extras"@))
}

fn parse_node(v: &JVal) -> (r: Result<Node, (ErrorKind, usize)>)
    ensures
        r is Ok <==> node_ok(v@),
        r matches Ok(x) ==> node_rep(x, v@),
{
    let ms = obj_of(v)?;
    let camera = get_opt_usize(ms, "camera")?;
    let children = get_usize_arr_def(ms, "children")?;
    let skin = get_opt_usize(ms, "skin")?;
    let matrix = get_opt_fixed_bits(ms, "matrix", 16)?;
    let mesh = get_opt_usize(ms, "mesh")?;
    let rotation = get_opt_fixed_bits(ms, "rotation", 4)?;
    let scale = get_opt_fixed_bits(ms, "scale", 3)?;
    let translation = get_opt_fixed_bits(ms, "translation", 3)?;
    let extensions = parse_node_extensions(jget(ms, "extensions"))?;
    let extras = parse_node_extras(jget(ms, "extras"))?;
    Ok(
        Node {
            camera,
            children,
            skin,
            matrix,
            mesh,
            rotation,
            scale,
            translation,
            extensions,
            extras,
        },
    )
}

/// What an animation channel drives.
pub open spec fn target_ok(g: GVal) -> bool {
    &&& g.kind is Obj
    &&& ok_opt_usize(fget(g, "node"@))
    &&& ok_req_target_path(fget(g, "path"@))
}

pub open spec fn target_rep(x: Target, g: GVal) -> bool {
    &&& x.node == val_opt_usize(fget(g, "node"@))
    &&& x.path == val_target_path(fget(g, "path"@))
}

fn parse_target(v: &JVal) -> (r: Result<Target, (ErrorKind, usize)>)
    ensures
        r is Ok <==> target_ok(v@),
        r matches Ok(x) ==> target_rep(x, v@),
{
    let ms = obj_of(v)?;
    let node = get_opt_usize(ms, "node")?;
    let path = get_target_path(ms, "path", v.pos)?;
    Ok(Target { node, path })
}

/// One animation channel.
pub open spec fn channel_ok(g: GVal) -> bool {
    &&& g.kind is Obj
    &&& ok_req_usize(fget(g, "sampler"@))
    &&& fget(g, "target"@) matches Some(t) && target_ok(t)
}

pub open spec fn channel_rep(x: Channel, g: GVal) -> bool {
    &&& x.sampler == val_req_usize(fget(g, "sampler"@), 0)
    &&& fget(g, "target"@) matches Some(t) && target_rep(x.target, t)
}

fn parse_channel(v: &JVal) -> (r: Result<Channel, (ErrorKind, usize)>)
    ensures
        r is Ok <==> channel_ok(v@),
        r matches Ok(x) ==> channel_rep(x, v@),
{
    let ms = obj_of(v)?;
    let sampler = get_req_usize(ms, "sampler", v.pos)?;
    let target = match jget(ms, "target") {
        None => {
            return Err((ErrorKind::MissingField, v.pos));
        },
        Some(t) => parse_target(t)?,
    };
    Ok(Channel { sampler, target })
}

/// Keyframe accessors and the interpolation rule.
pub open spec fn animation_sampler_ok(g: GVal) -> bool {
    &&& g.kind is Obj
    &&& ok_req_usize(fget(g, "input"@))
    &&& ok_interpolation(fget(g, "interpolation"@))
    &&& ok_req_usize(fget(g, "output"@))
}

pub open spec fn animation_sampler_rep(x: AnimationSampler, g: GVal) -> bool {
    &&& x.input == val_req_usize(fget(g, "input"@), 0)
    &&& x.interpolation == val_interpolation(fget(g, "interpolation"@))
    &&& x.output == val_req_usize(fget(g, "output"@), 0)
}

fn parse_animation_sampler(v: &JVal) -> (r: Result<AnimationSampler, (ErrorKind, usize)>)
    ensures
        r is Ok <==> animation_sampler_ok(v@),
        r matches Ok(x) ==> animation_sampler_rep(x, v@),
{
    let ms = obj_of(v)?;
    let input = get_req_usize(ms, "input", v.pos)?;
    let interpolation = get_interpolation(ms, "interpolation")?;
    let output = get_req_usize(ms, "output", v.pos)?;
    Ok(AnimationSampler { input, interpolation, output })
}

pub open spec fn all_channels_ok(es: Seq<GVal>) -> bool {
    forall|i: int| 0 <= i < es.len() ==> channel_ok(#[trigger] es[i])
}

pub open spec fn channels_list_rep(xs: Seq<Channel>, es: Seq<GVal>) -> bool {
    &&& xs.len() == es.len()
    &&& forall|i: int| 0 <= i < es.len() ==> channel_rep(#[trigger] xs[i], es[i])
}

fn parse_channels_list(es: &Vec<JVal>) -> (r: Result<Vec<Channel>, (ErrorKind, usize)>)
    ensures
        r is Ok <==> all_channels_ok(crate::json::elems_view(es@)),
        r matches Ok(v) ==> channels_list_rep(v@, crate::json::elems_view(es@)),
{
    let mut out: Vec<Channel> = Vec::new();
    let mut i: usize = 0;
    while i < es.len()
        invariant
            i <= es@.len(),
            out@.len() == i,
            forall|j: int| 0 <= j < i ==> channel_ok(#[trigger] crate::json::elems_view(es@)[j]),
            forall|j: int|
                0 <= j < i ==> channel_rep(#[trigger] out@[j], crate::json::elems_view(es@)[j]),
        decreases es@.len() - i,
    {
        proof {
            assert(crate::json::elems_view(es@)[i as int] == es@[i as int]@);
        }
        match parse_channel(&es[i]) {
            Ok(x) => {
                out.push(x);
            },
            Err(e) => {
                return Err(e);
            },
        }
        i = i + 1;
    }
    Ok(out)
}

pub open spec fn all_animation_samplers_ok(es: Seq<GVal>) -> bool {
    forall|i: int| 0 <= i < es.len() ==> animation_sampler_ok(#[trigger] es[i])
}

pub open spec fn animation_samplers_list_rep(xs: Seq<AnimationSampler>, es: Seq<GVal>) -> bool {
    &&& xs.len() == es.len()
    &&& forall|i: int| 0 <= i < es.len() ==> animation_sampler_rep(#[trigger] xs[i], es[i])
}

fn parse_animation_samplers_list(es: &Vec<JVal>) -> (r: Result<
    Vec<AnimationSampler>,
    (ErrorKind, usize),
>)
    ensures
        r is Ok <==> all_animation_samplers_ok(crate::json::elems_view(es@)),
        r matches Ok(v) ==> animation_samplers_list_rep(v@, crate::json::elems_view(es@)),
{
    let mut out: Vec<AnimationSampler> = Vec::new();
    let mut i: usize = 0;
    while i < es.len()
        invariant
            i <= es@.len(),
            out@.len() == i,
            forall|j: int|
                0 <= j < i ==> animation_sampler_ok(#[trigger] crate::json::elems_view(es@)[j]),
            forall|j: int|
                0 <= j < i ==> animation_sampler_rep(
                    #[trigger] out@[j],
                    crate::json::elems_view(es@)[j],
                ),
        decreases es@.len() - i,
    {
        proof {
            assert(crate::json::elems_view(es@)[i as int] == es@[i as int]@);
        }
        match parse_animation_sampler(&es[i]) {
            Ok(x) => {
                out.push(x);
            },
            Err(e) => {
                return Err(e);
            },
        }
        i = i + 1;
    }
    Ok(out)
}

/// One keyframe animation.
pub open spec fn animation_ok(g: GVal) -> bool {
    &&& g.kind is Obj
    &&& fget(g, "channels"@) matches Some(c) && c.kind matches GKind::Arr(es) && all_channels_ok(
        es,
    )
    &&& fget(g, "samplers"@) matches Some(sp) && sp.kind matches GKind::Arr(es)
        && all_animation_samplers_ok(es)
}

pub open spec fn animation_rep(x: Animation, g: GVal) -> bool {
    &&& fget(g, "channels"@) matches Some(c) && c.kind matches GKind::Arr(es) && channels_list_rep(
        x.channels@,
        es,
    )
    &&& fget(g, "samplers"@) matches Some(sp) && sp.kind matches GKind::Arr(es)
        && animation_samplers_list_rep(x.samplers@, es)
}

fn parse_animation(v: &JVal) -> (r: Result<Animation, (ErrorKind, usize)>)
    ensures
        r is Ok <==> animation_ok(v@),
        r matches Ok(x) ==> animation_rep(x, v@),
{
    let ms = obj_of(v)?;
    let channels = match jget(ms, "channels") {
        None => {
            return Err((ErrorKind::MissingField, v.pos));
        },
        Some(c) => match &c.kind {
            JKind::Arr(es) => parse_channels_list(es)?,
            _ => {
                return Err((ErrorKind::WrongType, c.pos));
            },
        },
    };
    let samplers = match jget(ms, "samplers") {
        None => {
            return Err((ErrorKind::MissingField, v.pos));
        },
        Some(sp) => match &sp.kind {
            JKind::Arr(es) => parse_animation_samplers_list(es)?,
            _ => {
                return Err((ErrorKind::WrongType, sp.pos));
            },
        },
    };
    Ok(Animation { channels, samplers })
}

/// Joints and bind matrices of a skinned mesh.
pub open spec fn skin_ok(g: GVal) -> bool {
    &&& g.kind is Obj
    &&& ok_opt_usize(fget(g, "inverseBindMatrices"@))
    &&& ok_opt_usize(fget(g, "skeleton"@))
    &&& ok_req_usize_arr(fget(g, "joints"@))
}

pub open spec fn skin_rep(x: Skin, g: GVal) -> bool {
    &&& x.inverse_bind_matrices == val_opt_usize(fget(g, "inverseBindMatrices"@))
    &&& x.skeleton == val_opt_usize(fget(g, "skeleton"@))
    &&& x.joints@ == val_usize_arr_def(fget(g, "joints"@))
}

fn parse_skin(v: &JVal) -> (r: Result<Skin, (ErrorKind, usize)>)
    ensures
        r is Ok <==> skin_ok(v@),
        r matches Ok(x) ==> skin_rep(x, v@),
{
    let ms = obj_of(v)?;
    let inverse_bind_matrices = get_opt_usize(ms, "inverseBindMatrices")?;
    let skeleton = get_opt_usize(ms, "skeleton")?;
    let joints = get_req_usize_arr(ms, "joints", v.pos)?;
    Ok(Skin { inverse_bind_matrices, skeleton, joints })
}

/// A camera, of either projection kind.
pub open spec fn camera_ok(g: GVal) -> bool {
    &&& g.kind is Obj
    &&& match fget(g, "perspective"@) {
        None => true,
        Some(p) => {
            &&& p.kind is Obj
            &&& ok_req_bits(fget(p, "yfov"@))
            &&& ok_req_bits(fget(p, "znear"@))
            &&& ok_opt_bits(fget(p, "zfar"@))
            &&& ok_opt_bits(fget(p, "aspectRatio"@))
        },
    }
    &&& match fget(g, "orthographic"@) {
        None => true,
        Some(p) => {
            &&& p.kind is Obj
            &&& ok_req_bits(fget(p, "xmag"@))
            &&& ok_req_bits(fget(p, "ymag"@))
            &&& ok_req_bits(fget(p, "zfar"@))
            &&& ok_req_bits(fget(p, "znear"@))
        },
    }
    &&& ok_req_camera_type(fget(g, "type"@))
}

pub open spec fn camera_rep(x: Camera, g: GVal) -> bool {
    &&& match fget(g, "perspective"@) {
        None => x.perspective is None,
        Some(p) => x.perspective matches Some(cp) && cp.yfov == val_bits_def(fget(p, "yfov"@), 0)
            && cp.znear == val_bits_def(fget(p, "znear"@), 0) && cp.zfar == val_opt_bits(
            fget(p, "zfar"@),
        ) && cp.aspect_ratio == val_opt_bits(fget(p, "aspectRatio"@)),
    }
    &&& match fget(g, "orthographic"@) {
        None => x.orthographic is None,
        Some(p) => x.orthographic matches Some(co) && co.xmag == val_bits_def(fget(p, "xmag"@), 0)
            && co.ymag == val_bits_def(fget(p, "ymag"@), 0) && co.zfar == val_bits_def(
            fget(p, "zfar"@),
            0,
        ) && co.znear == val_bits_def(fget(p, "znear"@), 0),
    }
    &&& x.ty == val_camera_type(fget(g, "type"@))
}

fn parse_camera(v: &JVal) -> (r: Result<Camera, (ErrorKind, usize)>)
    ensures
        r is Ok <==> camera_ok(v@),
        r matches Ok(x) ==> camera_rep(x, v@),
{
    let ms = obj_of(v)?;
    let perspective = match jget(ms, "perspective") {
        None => None,
        Some(p) => {
            let pms = obj_of(p)?;
            let yfov = get_req_bits(pms, "yfov", p.pos)?;
            let znear = get_req_bits(pms, "znear", p.pos)?;
            let zfar = get_opt_bits(pms, "zfar")?;
            let aspect_ratio = get_opt_bits(pms, "aspectRatio")?;
            Some(CameraPerspective { yfov, znear, zfar, aspect_ratio })
        },
    };
    let orthographic = match jget(ms, "orthographic") {
        None => None,
        Some(p) => {
            let pms = obj_of(p)?;
            let xmag = get_req_bits(pms, "xmag", p.pos)?;
            let ymag = get_req_bits(pms, "ymag", p.pos)?;
            let zfar = get_req_bits(pms, "zfar", p.pos)?;
            let znear = get_req_bits(pms, "znear", p.pos)?;
            Some(CameraOrthographic { xmag, ymag, zfar, znear })
        },
    };
    let ty = get_camera_type(ms, "type", v.pos)?;
    Ok(Camera { perspective, orthographic, ty })
}

/// The root nodes of one scene.
pub open spec fn scene_ok(g: GVal) -> bool {
    &&& g.kind is Obj
    &&& ok_req_usize_arr(fget(g, "nodes"@))
}

pub open spec fn scene_rep(x: Scene, g: GVal) -> bool {
    x.nodes@ == val_usize_arr_def(fget(g, "nodes"@))
}

fn parse_scene(v: &JVal) -> (r: Result<Scene, (ErrorKind, usize)>)
    ensures
        r is Ok <==> scene_ok(v@),
        r matches Ok(x) ==> scene_rep(x, v@),
{
    let ms = obj_of(v)?;
    let nodes = get_req_usize_arr(ms, "nodes", v.pos)?;
    Ok(Scene { nodes })
}

/// A spot light's cone.
pub open spec fn light_spot_ok(g: GVal) -> bool {
    &&& g.kind is Obj
    &&& ok_opt_bits(fget(g, "innerConeAngle"@))
    &&& ok_opt_bits(fget(g, "outerConeAngle"@))
}

pub open spec fn light_spot_rep(x: LightSpot, g: GVal) -> bool {
    &&& x.inner_cone_angle == val_bits_def(fget(g, "innerConeAngle"@), 0)
    &&& x.outer_cone_angle == val_bits_def(fget(g, "outerConeAngle"@), QUARTER_PI_BITS)
}

fn parse_light_spot(v: &JVal) -> (r: Result<LightSpot, (ErrorKind, usize)>)
    ensures
        r is Ok <==> light_spot_ok(v@),
        r matches Ok(x) ==> light_spot_rep(x, v@),
{
    let ms = obj_of(v)?;
    let inner_cone_angle = get_bits_def(ms, "innerConeAngle", 0)?;
    let outer_cone_angle = get_bits_def(ms, "outerConeAngle", QUARTER_PI_BITS)?;
    Ok(LightSpot { inner_cone_angle, outer_cone_angle })
}

/// One punctual light.
pub open spec fn light_ok(g: GVal) -> bool {
    &&& g.kind is Obj
    &&& ok_fixed_bits(fget(g, "color"@), 3)
    &&& ok_opt_bits(fget(g, "intensity"@))
    &&& ok_req_light_type(fget(g, "type"@))
    &&& match fget(g, "spot"@) {
        None => true,
        Some(x) => light_spot_ok(x),
    }
}

pub open spec fn light_rep(x: Light, g: GVal) -> bool {
    &&& x.color@ == val_fixed_bits(fget(g, "color"@), seq![ONE_BITS, ONE_BITS, ONE_BITS])
    &&& x.intensity == val_bits_def(fget(g, "intensity"@), ONE_BITS)
    &&& x.ty == val_light_type(fget(g, "type"@))
    &&& match fget(g, "spot"@) {
        None => x.spot is None,
        Some(e) => x.spot matches Some(sp) && light_spot_rep(sp, e),
    }
}

fn parse_light(v: &JVal) -> (r: Result<Light, (ErrorKind, usize)>)
    ensures
        r is Ok <==> light_ok(v@),
        r matches Ok(x) ==> light_rep(x, v@),
{
    let ms = obj_of(v)?;
    let color = get_fixed_bits(ms, "color", 3, vec3_of(ONE_BITS, ONE_BITS, ONE_BITS))?;
    let intensity = get_bits_def(ms, "intensity", ONE_BITS)?;
    let ty = get_light_type(ms, "type", v.pos)?;
    let spot = match jget(ms, "spot") {
        None => None,
        Some(e) => Some(parse_light_spot(e)?),
    };
    Ok(Light { color, intensity, ty, spot })
}

pub open spec fn all_lights_ok(es: Seq<GVal>) -> bool {
    forall|i: int| 0 <= i < es.len() ==> light_ok(#[trigger] es[i])
}

pub open spec fn lights_list_rep(xs: Seq<Light>, es: Seq<GVal>) -> bool {
    &&& xs.len() == es.len()
    &&& forall|i: int| 0 <= i < es.len() ==> light_rep(#[trigger] xs[i], es[i])
}

fn parse_lights_list(es: &Vec<JVal>) -> (r: Result<Vec<Light>, (ErrorKind, usize)>)
    ensures
        r is Ok <==> all_lights_ok(crate::json::elems_view(es@)),
        r matches Ok(v) ==> lights_list_rep(v@, crate::json::elems_view(es@)),
{
    let mut out: Vec<Light> = Vec::new();
    let mut i: usize = 0;
    while i < es.len()
        invariant
            i <= es@.len(),
            out@.len() == i,
            forall|j: int| 0 <= j < i ==> light_ok(#[trigger] crate::json::elems_view(es@)[j]),
            forall|j: int|
                0 <= j < i ==> light_rep(#[trigger] out@[j], crate::json::elems_view(es@)[j]),
        decreases es@.len() - i,
    {
        proof {
            assert(crate::json::elems_view(es@)[i as int] == es@[i as int]@);
        }
        match parse_light(&es[i]) {
            Ok(x) => {
                out.push(x);
            },
            Err(e) => {
                return Err(e);
            },
        }
        i = i + 1;
    }
    Ok(out)
}

/// The extension slot of the document root.
pub open spec fn root_extensions_ok(o: Option<GVal>) -> bool {
    match o {
        None => true,
        Some(g) => {
            &&& g.kind is Obj
            &&& match fget(g, "KHR_lights_punctual"@) {
                None => true,
                Some(x) => {
                    &&& x.kind is Obj
                    &&& match fget(x, "lights"@) {
                        None => true,
                        Some(l) => l.kind matches GKind::Arr(es) && all_lights_ok(es),
                    }
                },
            }
        },
    }
}

pub open spec fn root_extensions_rep(x: RootExtensions, o: Option<GVal>) -> bool {
    match o {
        None => x.khr_lights_punctual is None,
        Some(g) => match fget(g, "KHR_lights_punctual"@) {
            None => x.khr_lights_punctual is None,
            Some(e) => x.khr_lights_punctual matches Some(v) && (match fget(e, "lights"@) {
                None => v.lights@.len() == 0,
                Some(l) => l.kind matches GKind::Arr(es) && lights_list_rep(v.lights@, es),
            }),
        },
    }
}

pub(crate) fn parse_root_extensions(o: Option<&JVal>) -> (r: Result<RootExtensions, (ErrorKind, usize)>)
    ensures
        r is Ok <==> root_extensions_ok(oview(o)),
        r matches Ok(x) ==> root_extensions_rep(x, oview(o)),
{
    match o {
        None => Ok(RootExtensions { khr_lights_punctual: None }),
        Some(v) => {
            let ms = obj_of(v)?;
            let khr_lights_punctual = match jget(ms, "KHR_lights_punctual") {
                None => None,
                Some(e) => {
                    let ems = obj_of(e)?;
                    let lights = match jget(ems, "lights") {
                        None => {
                            let empty: Vec<Light> = Vec::new();
                            empty
                        },
                        Some(l) => match &l.kind {
                            JKind::Arr(es) => parse_lights_list(es)?,
                            _ => {
                                return Err((ErrorKind::WrongType, l.pos));
                            },
                        },
                    };
                    Some(KhrLightsPunctual { lights })
                },
            };
            Ok(RootExtensions { khr_lights_punctual })
        },
    }
}


pub open spec fn all_image_ok(es: Seq<GVal>) -> bool {
    forall|i: int| 0 <= i < es.len() ==> image_ok(#[trigger] es[i])
}

pub open spec fn image_list_rep(xs: Seq<Image>, es: Seq<GVal>) -> bool {
    &&& xs.len() == es.len()
    &&& forall|i: int| 0 <= i < es.len() ==> image_rep(#[trigger] xs[i], es[i])
}

/// Whether an optional field is, if present, an array of these entities.
pub open spec fn image_field_ok(o: Option<GVal>) -> bool {
    match o {
        None => true,
        Some(g) => g.kind matches GKind::Arr(es) && all_image_ok(es),
    }
}

/// Pins the parsed entity list to the optional field: absent means empty.
pub open spec fn image_field_rep(xs: Seq<Image>, o: Option<GVal>) -> bool {
    match o {
        None => xs.len() == 0,
        Some(g) => g.kind matches GKind::Arr(es) && image_list_rep(xs, es),
    }
}

fn parse_image_field(o: Option<&JVal>) -> (r: Result<Vec<Image>, (ErrorKind, usize)>)
    ensures
        r is Ok <==> image_field_ok(oview(o)),
        r matches Ok(v) ==> image_field_rep(v@, oview(o)),
{
    match o {
        None => Ok(Vec::new()),
        Some(v) => match &v.kind {
            JKind::Arr(es) => {
                proof {
                    assert(v@.kind == GKind::Arr(crate::json::elems_view(es@)));
                    assert(crate::json::elems_view(es@).len() == es@.len());
                }
                let mut out: Vec<Image> = Vec::new();
                let mut i: usize = 0;
                while i < es.len()
                    invariant
                        oview(o) == Some(v@),
                        v@.kind == GKind::Arr(crate::json::elems_view(es@)),
                        crate::json::elems_view(es@).len() == es@.len(),
                        i <= es@.len(),
                        out@.len() == i,
                        forall|j: int|
                            0 <= j < i ==> image_ok(#[trigger] crate::json::elems_view(es@)[j]),
                        forall|j: int|
                            0 <= j < i ==> image_rep(
                                #[trigger] out@[j],
                                crate::json::elems_view(es@)[j],
                            ),
                    decreases es@.len() - i,
                {
                    proof {
                        assert(crate::json::elems_view(es@)[i as int] == es@[i as int]@);
                    }
                    match parse_image(&es[i]) {
                        Ok(x) => {
                            out.push(x);
                        },
                        Err(e) => {
                            proof {
                                assert(!image_ok(crate::json::elems_view(es@)[i as int]));
                                assert(!all_image_ok(crate::json::elems_view(es@)));
                            }
                            return Err(e);
                        },
                    }
                    i = i + 1;
                }
                Ok(out)
            },
            _ => Err((ErrorKind::WrongType, v.pos)),
        },
    }
}

pub open spec fn all_texture_ok(es: Seq<GVal>) -> bool {
    forall|i: int| 0 <= i < es.len() ==> texture_ok(#[trigger] es[i])
}

pub open spec fn texture_list_rep(xs: Seq<Texture>, es: Seq<GVal>) -> bool {
    &&& xs.len() == es.len()
    &&& forall|i: int| 0 <= i < es.len() ==> texture_rep(#[trigger] xs[i], es[i])
}

/// Whether an optional field is, if present, an array of these entities.
pub open spec fn texture_field_ok(o: Option<GVal>) -> bool {
    match o {
        None => true,
        Some(g) => g.kind matches GKind::Arr(es) && all_texture_ok(es),
    }
}

/// Pins the parsed entity list to the optional field: absent means empty.
pub open spec fn texture_field_rep(xs: Seq<Texture>, o: Option<GVal>) -> bool {
    match o {
        None => xs.len() == 0,
        Some(g) => g.kind matches GKind::Arr(es) && texture_list_rep(xs, es),
    }
}

fn parse_texture_field(o: Option<&JVal>) -> (r: Result<Vec<Texture>, (ErrorKind, usize)>)
    ensures
        r is Ok <==> texture_field_ok(oview(o)),
        r matches Ok(v) ==> texture_field_rep(v@, oview(o)),
{
    match o {
        None => Ok(Vec::new()),
        Some(v) => match &v.kind {
            JKind::Arr(es) => {
                proof {
                    assert(v@.kind == GKind::Arr(crate::json::elems_view(es@)));
                    assert(crate::json::elems_view(es@).len() == es@.len());
                }
                let mut out: Vec<Texture> = Vec::new();
                let mut i: usize = 0;
                while i < es.len()
                    invariant
                        oview(o) == Some(v@),
                        v@.kind == GKind::Arr(crate::json::elems_view(es@)),
                        crate::json::elems_view(es@).len() == es@.len(),
                        i <= es@.len(),
                        out@.len() == i,
                        forall|j: int|
                            0 <= j < i ==> texture_ok(#[trigger] crate::json::elems_view(es@)[j]),
                        forall|j: int|
                            0 <= j < i ==> texture_rep(
                                #[trigger] out@[j],
                                crate::json::elems_view(es@)[j],
                            ),
                    decreases es@.len() - i,
                {
                    proof {
                        assert(crate::json::elems_view(es@)[i as int] == es@[i as int]@);
                    }
                    match parse_texture(&es[i]) {
                        Ok(x) => {
                            out.push(x);
                        },
                        Err(e) => {
                            proof {
                                assert(!texture_ok(crate::json::elems_view(es@)[i as int]));
                                assert(!all_texture_ok(crate::json::elems_view(es@)));
                            }
                            return Err(e);
                        },
                    }
                    i = i + 1;
                }
                Ok(out)
            },
            _ => Err((ErrorKind::WrongType, v.pos)),
        },
    }
}

pub open spec fn all_material_ok(es: Seq<GVal>) -> bool {
    forall|i: int| 0 <= i < es.len() ==> material_ok(#[trigger] es[i])
}

pub open spec fn material_list_rep(xs: Seq<Material>, es: Seq<GVal>) -> bool {
    &&& xs.len() == es.len()
    &&& forall|i: int| 0 <= i < es.len() ==> material_rep(#[trigger] xs[i], es[i])
}

/// Whether an optional field is, if present, an array of these entities.
pub open spec fn material_field_ok(o: Option<GVal>) -> bool {
    match o {
        None => true,
        Some(g) => g.kind matches GKind::Arr(es) && all_material_ok(es),
    }
}

/// Pins the parsed entity list to the optional field: absent means empty.
pub open spec fn material_field_rep(xs: Seq<Material>, o: Option<GVal>) -> bool {
    match o {
        None => xs.len() == 0,
        Some(g) => g.kind matches GKind::Arr(es) && material_list_rep(xs, es),
    }
}

fn parse_material_field(o: Option<&JVal>) -> (r: Result<Vec<Material>, (ErrorKind, usize)>)
    ensures
        r is Ok <==> material_field_ok(oview(o)),
        r matches Ok(v) ==> material_field_rep(v@, oview(o)),
{
    match o {
        None => Ok(Vec::new()),
        Some(v) => match &v.kind {
            JKind::Arr(es) => {
                proof {
                    assert(v@.kind == GKind::Arr(crate::json::elems_view(es@)));
                    assert(crate::json::elems_view(es@).len() == es@.len());
                }
                let mut out: Vec<Material> = Vec::new();
                let mut i: usize = 0;
                while i < es.len()
                    invariant
                        oview(o) == Some(v@),
                        v@.kind == GKind::Arr(crate::json::elems_view(es@)),
                        crate::json::elems_view(es@).len() == es@.len(),
                        i <= es@.len(),
                        out@.len() == i,
                        forall|j: int|
                            0 <= j < i ==> material_ok(#[trigger] crate::json::elems_view(es@)[j]),
                        forall|j: int|
                            0 <= j < i ==> material_rep(
                                #[trigger] out@[j],
                                crate::json::elems_view(es@)[j],
                            ),
                    decreases es@.len() - i,
                {
                    proof {
                        assert(crate::json::elems_view(es@)[i as int] == es@[i as int]@);
                    }
                    match parse_material(&es[i]) {
                        Ok(x) => {
                            out.push(x);
                        },
                        Err(e) => {
                            proof {
                                assert(!material_ok(crate::json::elems_view(es@)[i as int]));
                                assert(!all_material_ok(crate::json::elems_view(es@)));
                            }
                            return Err(e);
                        },
                    }
                    i = i + 1;
                }
                Ok(out)
            },
            _ => Err((ErrorKind::WrongType, v.pos)),
        },
    }
}

pub open spec fn all_buffer_ok(es: Seq<GVal>) -> bool {
    forall|i: int| 0 <= i < es.len() ==> buffer_ok(#[trigger] es[i])
}

pub open spec fn buffer_list_rep(xs: Seq<Buffer>, es: Seq<GVal>) -> bool {
    &&& xs.len() == es.len()
    &&& forall|i: int| 0 <= i < es.len() ==> buffer_rep(#[trigger] xs[i], es[i])
}

/// Whether an optional field is, if present, an array of these entities.
pub open spec fn buffer_field_ok(o: Option<GVal>) -> bool {
    match o {
        None => true,
        Some(g) => g.kind matches GKind::Arr(es) && all_buffer_ok(es),
    }
}

/// Pins the parsed entity list to the optional field: absent means empty.
pub open spec fn buffer_field_rep(xs: Seq<Buffer>, o: Option<GVal>) -> bool {
    match o {
        None => xs.len() == 0,
        Some(g) => g.kind matches GKind::Arr(es) && buffer_list_rep(xs, es),
    }
}

fn parse_buffer_field(o: Option<&JVal>) -> (r: Result<Vec<Buffer>, (ErrorKind, usize)>)
    ensures
        r is Ok <==> buffer_field_ok(oview(o)),
        r matches Ok(v) ==> buffer_field_rep(v@, oview(o)),
{
    match o {
        None => Ok(Vec::new()),
        Some(v) => match &v.kind {
            JKind::Arr(es) => {
                proof {
                    assert(v@.kind == GKind::Arr(crate::json::elems_view(es@)));
                    assert(crate::json::elems_view(es@).len() == es@.len());
                }
                let mut out: Vec<Buffer> = Vec::new();
                let mut i: usize = 0;
                while i < es.len()
                    invariant
                        oview(o) == Some(v@),
                        v@.kind == GKind::Arr(crate::json::elems_view(es@)),
                        crate::json::elems_view(es@).len() == es@.len(),
                        i <= es@.len(),
                        out@.len() == i,
                        forall|j: int|
                            0 <= j < i ==> buffer_ok(#[trigger] crate::json::elems_view(es@)[j]),
                        forall|j: int|
                            0 <= j < i ==> buffer_rep(
                                #[trigger] out@[j],
                                crate::json::elems_view(es@)[j],
                            ),
                    decreases es@.len() - i,
                {
                    proof {
                        assert(crate::json::elems_view(es@)[i as int] == es@[i as int]@);
                    }
                    match parse_buffer(&es[i]) {
                        Ok(x) => {
                            out.push(x);
                        },
                        Err(e) => {
                            proof {
                                assert(!buffer_ok(crate::json::elems_view(es@)[i as int]));
                                assert(!all_buffer_ok(crate::json::elems_view(es@)));
                            }
                            return Err(e);
                        },
                    }
                    i = i + 1;
                }
                Ok(out)
            },
            _ => Err((ErrorKind::WrongType, v.pos)),
        },
    }
}

pub open spec fn all_buffer_view_ok(es: Seq<GVal>) -> bool {
    forall|i: int| 0 <= i < es.len() ==> buffer_view_ok(#[trigger] es[i])
}

pub open spec fn buffer_view_list_rep(xs: Seq<BufferView>, es: Seq<GVal>) -> bool {
    &&& xs.len() == es.len()
    &&& forall|i: int| 0 <= i < es.len() ==> buffer_view_rep(#[trigger] xs[i], es[i])
}

/// Whether an optional field is, if present, an array of these entities.
pub open spec fn buffer_view_field_ok(o: Option<GVal>) -> bool {
    match o {
        None => true,
        Some(g) => g.kind matches GKind::Arr(es) && all_buffer_view_ok(es),
    }
}

/// Pins the parsed entity list to the optional field: absent means empty.
pub open spec fn buffer_view_field_rep(xs: Seq<BufferView>, o: Option<GVal>) -> bool {
    match o {
        None => xs.len() == 0,
        Some(g) => g.kind matches GKind::Arr(es) && buffer_view_list_rep(xs, es),
    }
}

fn parse_buffer_view_field(o: Option<&JVal>) -> (r: Result<Vec<BufferView>, (ErrorKind, usize)>)
    ensures
        r is Ok <==> buffer_view_field_ok(oview(o)),
        r matches Ok(v) ==> buffer_view_field_rep(v@, oview(o)),
{
    match o {
        None => Ok(Vec::new()),
        Some(v) => match &v.kind {
            JKind::Arr(es) => {
                proof {
                    assert(v@.kind == GKind::Arr(crate::json::elems_view(es@)));
                    assert(crate::json::elems_view(es@).len() == es@.len());
                }
                let mut out: Vec<BufferView> = Vec::new();
                let mut i: usize = 0;
                while i < es.len()
                    invariant
                        oview(o) == Some(v@),
                        v@.kind == GKind::Arr(crate::json::elems_view(es@)),
                        crate::json::elems_view(es@).len() == es@.len(),
                        i <= es@.len(),
                        out@.len() == i,
                        forall|j: int|
                            0 <= j < i ==> buffer_view_ok(#[trigger] crate::json::elems_view(es@)[j]),
                        forall|j: int|
                            0 <= j < i ==> buffer_view_rep(
                                #[trigger] out@[j],
                                crate::json::elems_view(es@)[j],
                            ),
                    decreases es@.len() - i,
                {
                    proof {
                        assert(crate::json::elems_view(es@)[i as int] == es@[i as int]@);
                    }
                    match parse_buffer_view(&es[i]) {
                        Ok(x) => {
                            out.push(x);
                        },
                        Err(e) => {
                            proof {
                                assert(!buffer_view_ok(crate::json::elems_view(es@)[i as int]));
                                assert(!all_buffer_view_ok(crate::json::elems_view(es@)));
                            }
                            return Err(e);
                        },
                    }
                    i = i + 1;
                }
                Ok(out)
            },
            _ => Err((ErrorKind::WrongType, v.pos)),
        },
    }
}

pub open spec fn all_accessor_ok(es: Seq<GVal>) -> bool {
    forall|i: int| 0 <= i < es.len() ==> accessor_ok(#[trigger] es[i])
}

pub open spec fn accessor_list_rep(xs: Seq<Accessor>, es: Seq<GVal>) -> bool {
    &&& xs.len() == es.len()
    &&& forall|i: int| 0 <= i < es.len() ==> accessor_rep(#[trigger] xs[i], es[i])
}

/// Whether an optional field is, if present, an array of these entities.
pub open spec fn accessor_field_ok(o: Option<GVal>) -> bool {
    match o {
        None => true,
        Some(g) => g.kind matches GKind::Arr(es) && all_accessor_ok(es),
    }
}

/// Pins the parsed entity list to the optional field: absent means empty.
pub open spec fn accessor_field_rep(xs: Seq<Accessor>, o: Option<GVal>) -> bool {
    match o {
        None => xs.len() == 0,
        Some(g) => g.kind matches GKind::Arr(es) && accessor_list_rep(xs, es),
    }
}

fn parse_accessor_field(o: Option<&JVal>) -> (r: Result<Vec<Accessor>, (ErrorKind, usize)>)
    ensures
        r is Ok <==> accessor_field_ok(oview(o)),
        r matches Ok(v) ==> accessor_field_rep(v@, oview(o)),
{
    match o {
        None => Ok(Vec::new()),
        Some(v) => match &v.kind {
            JKind::Arr(es) => {
                proof {
                    assert(v@.kind == GKind::Arr(crate::json::elems_view(es@)));
                    assert(crate::json::elems_view(es@).len() == es@.len());
                }
                let mut out: Vec<Accessor> = Vec::new();
                let mut i: usize = 0;
                while i < es.len()
                    invariant
                        oview(o) == Some(v@),
                        v@.kind == GKind::Arr(crate::json::elems_view(es@)),
                        crate::json::elems_view(es@).len() == es@.len(),
                        i <= es@.len(),
                        out@.len() == i,
                        forall|j: int|
                            0 <= j < i ==> accessor_ok(#[trigger] crate::json::elems_view(es@)[j]),
                        forall|j: int|
                            0 <= j < i ==> accessor_rep(
                                #[trigger] out@[j],
                                crate::json::elems_view(es@)[j],
                            ),
                    decreases es@.len() - i,
                {
                    proof {
                        assert(crate::json::elems_view(es@)[i as int] == es@[i as int]@);
                    }
                    match parse_accessor(&es[i]) {
                        Ok(x) => {
                            out.push(x);
                        },
                        Err(e) => {
                            proof {
                                assert(!accessor_ok(crate::json::elems_view(es@)[i as int]));
                                assert(!all_accessor_ok(crate::json::elems_view(es@)));
                            }
                            return Err(e);
                        },
                    }
                    i = i + 1;
                }
                Ok(out)
            },
            _ => Err((ErrorKind::WrongType, v.pos)),
        },
    }
}

pub open spec fn all_mesh_ok(es: Seq<GVal>) -> bool {
    forall|i: int| 0 <= i < es.len() ==> mesh_ok(#[trigger] es[i])
}

pub open spec fn mesh_list_rep(xs: Seq<Mesh>, es: Seq<GVal>) -> bool {
    &&& xs.len() == es.len()
    &&& forall|i: int| 0 <= i < es.len() ==> mesh_rep(#[trigger] xs[i], es[i])
}

/// Whether an optional field is, if present, an array of these entities.
pub open spec fn mesh_field_ok(o: Option<GVal>) -> bool {
    match o {
        None => true,
        Some(g) => g.kind matches GKind::Arr(es) && all_mesh_ok(es),
    }
}

/// Pins the parsed entity list to the optional field: absent means empty.
pub open spec fn mesh_field_rep(xs: Seq<Mesh>, o: Option<GVal>) -> bool {
    match o {
        None => xs.len() == 0,
        Some(g) => g.kind matches GKind::Arr(es) && mesh_list_rep(xs, es),
    }
}

fn parse_mesh_field(o: Option<&JVal>) -> (r: Result<Vec<Mesh>, (ErrorKind, usize)>)
    ensures
        r is Ok <==> mesh_field_ok(oview(o)),
        r matches Ok(v) ==> mesh_field_rep(v@, oview(o)),
{
    match o {
        None => Ok(Vec::new()),
        Some(v) => match &v.kind {
            JKind::Arr(es) => {
                proof {
                    assert(v@.kind == GKind::Arr(crate::json::elems_view(es@)));
                    assert(crate::json::elems_view(es@).len() == es@.len());
                }
                let mut out: Vec<Mesh> = Vec::new();
                let mut i: usize = 0;
                while i < es.len()
                    invariant
                        oview(o) == Some(v@),
                        v@.kind == GKind::Arr(crate::json::elems_view(es@)),
                        crate::json::elems_view(es@).len() == es@.len(),
                        i <= es@.len(),
                        out@.len() == i,
                        forall|j: int|
                            0 <= j < i ==> mesh_ok(#[trigger] crate::json::elems_view(es@)[j]),
                        forall|j: int|
                            0 <= j < i ==> mesh_rep(
                                #[trigger] out@[j],
                                crate::json::elems_view(es@)[j],
                            ),
                    decreases es@.len() - i,
                {
                    proof {
                        assert(crate::json::elems_view(es@)[i as int] == es@[i as int]@);
                    }
                    match parse_mesh(&es[i]) {
                        Ok(x) => {
                            out.push(x);
                        },
                        Err(e) => {
                            proof {
                                assert(!mesh_ok(crate::json::elems_view(es@)[i as int]));
                                assert(!all_mesh_ok(crate::json::elems_view(es@)));
                            }
                            return Err(e);
                        },
                    }
                    i = i + 1;
                }
                Ok(out)
            },
            _ => Err((ErrorKind::WrongType, v.pos)),
        },
    }
}

pub open spec fn all_animation_ok(es: Seq<GVal>) -> bool {
    forall|i: int| 0 <= i < es.len() ==> animation_ok(#[trigger] es[i])
}

pub open spec fn animation_list_rep(xs: Seq<Animation>, es: Seq<GVal>) -> bool {
    &&& xs.len() == es.len()
    &&& forall|i: int| 0 <= i < es.len() ==> animation_rep(#[trigger] xs[i], es[i])
}

/// Whether an optional field is, if present, an array of these entities.
pub open spec fn animation_field_ok(o: Option<GVal>) -> bool {
    match o {
        None => true,
        Some(g) => g.kind matches GKind::Arr(es) && all_animation_ok(es),
    }
}

/// Pins the parsed entity list to the optional field: absent means empty.
pub open spec fn animation_field_rep(xs: Seq<Animation>, o: Option<GVal>) -> bool {
    match o {
        None => xs.len() == 0,
        Some(g) => g.kind matches GKind::Arr(es) && animation_list_rep(xs, es),
    }
}

fn parse_animation_field(o: Option<&JVal>) -> (r: Result<Vec<Animation>, (ErrorKind, usize)>)
    ensures
        r is Ok <==> animation_field_ok(oview(o)),
        r matches Ok(v) ==> animation_field_rep(v@, oview(o)),
{
    match o {
        None => Ok(Vec::new()),
        Some(v) => match &v.kind {
            JKind::Arr(es) => {
                proof {
                    assert(v@.kind == GKind::Arr(crate::json::elems_view(es@)));
                    assert(crate::json::elems_view(es@).len() == es@.len());
                }
                let mut out: Vec<Animation> = Vec::new();
                let mut i: usize = 0;
                while i < es.len()
                    invariant
                        oview(o) == Some(v@),
                        v@.kind == GKind::Arr(crate::json::elems_view(es@)),
                        crate::json::elems_view(es@).len() == es@.len(),
                        i <= es@.len(),
                        out@.len() == i,
                        forall|j: int|
                            0 <= j < i ==> animation_ok(#[trigger] crate::json::elems_view(es@)[j]),
                        forall|j: int|
                            0 <= j < i ==> animation_rep(
                                #[trigger] out@[j],
                                crate::json::elems_view(es@)[j],
                            ),
                    decreases es@.len() - i,
                {
                    proof {
                        assert(crate::json::elems_view(es@)[i as int] == es@[i as int]@);
                    }
                    match parse_animation(&es[i]) {
                        Ok(x) => {
                            out.push(x);
                        },
                        Err(e) => {
                            proof {
                                assert(!animation_ok(crate::json::elems_view(es@)[i as int]));
                                assert(!all_animation_ok(crate::json::elems_view(es@)));
                            }
                            return Err(e);
                        },
                    }
                    i = i + 1;
                }
                Ok(out)
            },
            _ => Err((ErrorKind::WrongType, v.pos)),
        },
    }
}

pub open spec fn all_node_ok(es: Seq<GVal>) -> bool {
    forall|i: int| 0 <= i < es.len() ==> node_ok(#[trigger] es[i])
}

pub open spec fn node_list_rep(xs: Seq<Node>, es: Seq<GVal>) -> bool {
    &&& xs.len() == es.len()
    &&& forall|i: int| 0 <= i < es.len() ==> node_rep(#[trigger] xs[i], es[i])
}

/// Whether an optional field is, if present, an array of these entities.
pub open spec fn node_field_ok(o: Option<GVal>) -> bool {
    match o {
        None => true,
        Some(g) => g.kind matches GKind::Arr(es) && all_node_ok(es),
    }
}

/// Pins the parsed entity list to the optional field: absent means empty.
pub open spec fn node_field_rep(xs: Seq<Node>, o: Option<GVal>) -> bool {
    match o {
        None => xs.len() == 0,
        Some(g) => g.kind matches GKind::Arr(es) && node_list_rep(xs, es),
    }
}

pub(crate) fn parse_node_field(o: Option<&JVal>) -> (r: Result<Vec<Node>, (ErrorKind, usize)>)
    ensures
        r is Ok <==> node_field_ok(oview(o)),
        r matches Ok(v) ==> node_field_rep(v@, oview(o)),
{
    match o {
        None => Ok(Vec::new()),
        Some(v) => match &v.kind {
            JKind::Arr(es) => {
                proof {
                    assert(v@.kind == GKind::Arr(crate::json::elems_view(es@)));
                    assert(crate::json::elems_view(es@).len() == es@.len());
                }
                let mut out: Vec<Node> = Vec::new();
                let mut i: usize = 0;
                while i < es.len()
                    invariant
                        oview(o) == Some(v@),
                        v@.kind == GKind::Arr(crate::json::elems_view(es@)),
                        crate::json::elems_view(es@).len() == es@.len(),
                        i <= es@.len(),
                        out@.len() == i,
                        forall|j: int|
                            0 <= j < i ==> node_ok(#[trigger] crate::json::elems_view(es@)[j]),
                        forall|j: int|
                            0 <= j < i ==> node_rep(
                                #[trigger] out@[j],
                                crate::json::elems_view(es@)[j],
                            ),
                    decreases es@.len() - i,
                {
                    proof {
                        assert(crate::json::elems_view(es@)[i as int] == es@[i as int]@);
                    }
                    match parse_node(&es[i]) {
                        Ok(x) => {
                            out.push(x);
                        },
                        Err(e) => {
                            proof {
                                assert(!node_ok(crate::json::elems_view(es@)[i as int]));
                                assert(!all_node_ok(crate::json::elems_view(es@)));
                            }
                            return Err(e);
                        },
                    }
                    i = i + 1;
                }
                Ok(out)
            },
            _ => Err((ErrorKind::WrongType, v.pos)),
        },
    }
}

pub open spec fn all_skin_ok(es: Seq<GVal>) -> bool {
    forall|i: int| 0 <= i < es.len() ==> skin_ok(#[trigger] es[i])
}

pub open spec fn skin_list_rep(xs: Seq<Skin>, es: Seq<GVal>) -> bool {
    &&& xs.len() == es.len()
    &&& forall|i: int| 0 <= i < es.len() ==> skin_rep(#[trigger] xs[i], es[i])
}

/// Whether an optional field is, if present, an array of these entities.
pub open spec fn skin_field_ok(o: Option<GVal>) -> bool {
    match o {
        None => true,
        Some(g) => g.kind matches GKind::Arr(es) && all_skin_ok(es),
    }
}

/// Pins the parsed entity list to the optional field: absent means empty.
pub open spec fn skin_field_rep(xs: Seq<Skin>, o: Option<GVal>) -> bool {
    match o {
        None => xs.len() == 0,
        Some(g) => g.kind matches GKind::Arr(es) && skin_list_rep(xs, es),
    }
}

fn parse_skin_field(o: Option<&JVal>) -> (r: Result<Vec<Skin>, (ErrorKind, usize)>)
    ensures
        r is Ok <==> skin_field_ok(oview(o)),
        r matches Ok(v) ==> skin_field_rep(v@, oview(o)),
{
    match o {
        None => Ok(Vec::new()),
        Some(v) => match &v.kind {
            JKind::Arr(es) => {
                proof {
                    assert(v@.kind == GKind::Arr(crate::json::elems_view(es@)));
                    assert(crate::json::elems_view(es@).len() == es@.len());
                }
                let mut out: Vec<Skin> = Vec::new();
                let mut i: usize = 0;
                while i < es.len()
                    invariant
                        oview(o) == Some(v@),
                        v@.kind == GKind::Arr(crate::json::elems_view(es@)),
                        crate::json::elems_view(es@).len() == es@.len(),
                        i <= es@.len(),
                        out@.len() == i,
                        forall|j: int|
                            0 <= j < i ==> skin_ok(#[trigger] crate::json::elems_view(es@)[j]),
                        forall|j: int|
                            0 <= j < i ==> skin_rep(
                                #[trigger] out@[j],
                                crate::json::elems_view(es@)[j],
                            ),
                    decreases es@.len() - i,
                {
                    proof {
                        assert(crate::json::elems_view(es@)[i as int] == es@[i as int]@);
                    }
                    match parse_skin(&es[i]) {
                        Ok(x) => {
                            out.push(x);
                        },
                        Err(e) => {
                            proof {
                                assert(!skin_ok(crate::json::elems_view(es@)[i as int]));
                                assert(!all_skin_ok(crate::json::elems_view(es@)));
                            }
                            return Err(e);
                        },
                    }
                    i = i + 1;
                }
                Ok(out)
            },
            _ => Err((ErrorKind::WrongType, v.pos)),
        },
    }
}

pub open spec fn all_sampler_ok(es: Seq<GVal>) -> bool {
    forall|i: int| 0 <= i < es.len() ==> sampler_ok(#[trigger] es[i])
}

pub open spec fn sampler_list_rep(xs: Seq<Sampler>, es: Seq<GVal>) -> bool {
    &&& xs.len() == es.len()
    &&& forall|i: int| 0 <= i < es.len() ==> sampler_rep(#[trigger] xs[i], es[i])
}

/// Whether an optional field is, if present, an array of these entities.
pub open spec fn sampler_field_ok(o: Option<GVal>) -> bool {
    match o {
        None => true,
        Some(g) => g.kind matches GKind::Arr(es) && all_sampler_ok(es),
    }
}

/// Pins the parsed entity list to the optional field: absent means empty.
pub open spec fn sampler_field_rep(xs: Seq<Sampler>, o: Option<GVal>) -> bool {
    match o {
        None => xs.len() == 0,
        Some(g) => g.kind matches GKind::Arr(es) && sampler_list_rep(xs, es),
    }
}

fn parse_sampler_field(o: Option<&JVal>) -> (r: Result<Vec<Sampler>, (ErrorKind, usize)>)
    ensures
        r is Ok <==> sampler_field_ok(oview(o)),
        r matches Ok(v) ==> sampler_field_rep(v@, oview(o)),
{
    match o {
        None => Ok(Vec::new()),
        Some(v) => match &v.kind {
            JKind::Arr(es) => {
                proof {
                    assert(v@.kind == GKind::Arr(crate::json::elems_view(es@)));
                    assert(crate::json::elems_view(es@).len() == es@.len());
                }
                let mut out: Vec<Sampler> = Vec::new();
                let mut i: usize = 0;
                while i < es.len()
                    invariant
                        oview(o) == Some(v@),
                        v@.kind == GKind::Arr(crate::json::elems_view(es@)),
                        crate::json::elems_view(es@).len() == es@.len(),
                        i <= es@.len(),
                        out@.len() == i,
                        forall|j: int|
                            0 <= j < i ==> sampler_ok(#[trigger] crate::json::elems_view(es@)[j]),
                        forall|j: int|
                            0 <= j < i ==> sampler_rep(
                                #[trigger] out@[j],
                                crate::json::elems_view(es@)[j],
                            ),
                    decreases es@.len() - i,
                {
                    proof {
                        assert(crate::json::elems_view(es@)[i as int] == es@[i as int]@);
                    }
                    match parse_sampler(&es[i]) {
                        Ok(x) => {
                            out.push(x);
                        },
                        Err(e) => {
                            proof {
                                assert(!sampler_ok(crate::json::elems_view(es@)[i as int]));
                                assert(!all_sampler_ok(crate::json::elems_view(es@)));
                            }
                            return Err(e);
                        },
                    }
                    i = i + 1;
                }
                Ok(out)
            },
            _ => Err((ErrorKind::WrongType, v.pos)),
        },
    }
}

pub open spec fn all_camera_ok(es: Seq<GVal>) -> bool {
    forall|i: int| 0 <= i < es.len() ==> camera_ok(#[trigger] es[i])
}

pub open spec fn camera_list_rep(xs: Seq<Camera>, es: Seq<GVal>) -> bool {
    &&& xs.len() == es.len()
    &&& forall|i: int| 0 <= i < es.len() ==> camera_rep(#[trigger] xs[i], es[i])
}

/// Whether an optional field is, if present, an array of these entities.
pub open spec fn camera_field_ok(o: Option<GVal>) -> bool {
    match o {
        None => true,
        Some(g) => g.kind matches GKind::Arr(es) && all_camera_ok(es),
    }
}

/// Pins the parsed entity list to the optional field: absent means empty.
pub open spec fn camera_field_rep(xs: Seq<Camera>, o: Option<GVal>) -> bool {
    match o {
        None => xs.len() == 0,
        Some(g) => g.kind matches GKind::Arr(es) && camera_list_rep(xs, es),
    }
}

pub(crate) fn parse_camera_field(o: Option<&JVal>) -> (r: Result<Vec<Camera>, (ErrorKind, usize)>)
    ensures
        r is Ok <==> camera_field_ok(oview(o)),
        r matches Ok(v) ==> camera_field_rep(v@, oview(o)),
{
    match o {
        None => Ok(Vec::new()),
        Some(v) => match &v.kind {
            JKind::Arr(es) => {
                proof {
                    assert(v@.kind == GKind::Arr(crate::json::elems_view(es@)));
                    assert(crate::json::elems_view(es@).len() == es@.len());
                }
                let mut out: Vec<Camera> = Vec::new();
                let mut i: usize = 0;
                while i < es.len()
                    invariant
                        oview(o) == Some(v@),
                        v@.kind == GKind::Arr(crate::json::elems_view(es@)),
                        crate::json::elems_view(es@).len() == es@.len(),
                        i <= es@.len(),
                        out@.len() == i,
                        forall|j: int|
                            0 <= j < i ==> camera_ok(#[trigger] crate::json::elems_view(es@)[j]),
                        forall|j: int|
                            0 <= j < i ==> camera_rep(
                                #[trigger] out@[j],
                                crate::json::elems_view(es@)[j],
                            ),
                    decreases es@.len() - i,
                {
                    proof {
                        assert(crate::json::elems_view(es@)[i as int] == es@[i as int]@);
                    }
                    match parse_camera(&es[i]) {
                        Ok(x) => {
                            out.push(x);
                        },
                        Err(e) => {
                            proof {
                                assert(!camera_ok(crate::json::elems_view(es@)[i as int]));
                                assert(!all_camera_ok(crate::json::elems_view(es@)));
                            }
                            return Err(e);
                        },
                    }
                    i = i + 1;
                }
                Ok(out)
            },
            _ => Err((ErrorKind::WrongType, v.pos)),
        },
    }
}

pub open spec fn all_scene_ok(es: Seq<GVal>) -> bool {
    forall|i: int| 0 <= i < es.len() ==> scene_ok(#[trigger] es[i])
}

pub open spec fn scene_list_rep(xs: Seq<Scene>, es: Seq<GVal>) -> bool {
    &&& xs.len() == es.len()
    &&& forall|i: int| 0 <= i < es.len() ==> scene_rep(#[trigger] xs[i], es[i])
}

/// Whether an optional field is, if present, an array of these entities.
pub open spec fn scene_field_ok(o: Option<GVal>) -> bool {
    match o {
        None => true,
        Some(g) => g.kind matches GKind::Arr(es) && all_scene_ok(es),
    }
}

/// Pins the parsed entity list to the optional field: absent means empty.
pub open spec fn scene_field_rep(xs: Seq<Scene>, o: Option<GVal>) -> bool {
    match o {
        None => xs.len() == 0,
        Some(g) => g.kind matches GKind::Arr(es) && scene_list_rep(xs, es),
    }
}

pub(crate) fn parse_scene_field(o: Option<&JVal>) -> (r: Result<Vec<Scene>, (ErrorKind, usize)>)
    ensures
        r is Ok <==> scene_field_ok(oview(o)),
        r matches Ok(v) ==> scene_field_rep(v@, oview(o)),
{
    match o {
        None => Ok(Vec::new()),
        Some(v) => match &v.kind {
            JKind::Arr(es) => {
                proof {
                    assert(v@.kind == GKind::Arr(crate::json::elems_view(es@)));
                    assert(crate::json::elems_view(es@).len() == es@.len());
                }
                let mut out: Vec<Scene> = Vec::new();
                let mut i: usize = 0;
                while i < es.len()
                    invariant
                        oview(o) == Some(v@),
                        v@.kind == GKind::Arr(crate::json::elems_view(es@)),
                        crate::json::elems_view(es@).len() == es@.len(),
                        i <= es@.len(),
                        out@.len() == i,
                        forall|j: int|
                            0 <= j < i ==> scene_ok(#[trigger] crate::json::elems_view(es@)[j]),
                        forall|j: int|
                            0 <= j < i ==> scene_rep(
                                #[trigger] out@[j],
                                crate::json::elems_view(es@)[j],
                            ),
                    decreases es@.len() - i,
                {
                    proof {
                        assert(crate::json::elems_view(es@)[i as int] == es@[i as int]@);
                    }
                    match parse_scene(&es[i]) {
                        Ok(x) => {
                            out.push(x);
                        },
                        Err(e) => {
                            proof {
                                assert(!scene_ok(crate::json::elems_view(es@)[i as int]));
                                assert(!all_scene_ok(crate::json::elems_view(es@)));
                            }
                            return Err(e);
                        },
                    }
                    i = i + 1;
                }
                Ok(out)
            },
            _ => Err((ErrorKind::WrongType, v.pos)),
        },
    }
}

/// A whole document: every entity list (absent lists are empty), the root
/// extensions, and the default scene index.
pub open spec fn gltf_ok(g: GVal) -> bool {
    &&& g.kind is Obj
    &&& image_field_ok(fget(g, "images"@))
    &&& texture_field_ok(fget(g, "textures"@))
    &&& material_field_ok(fget(g, "materials"@))
    &&& buffer_field_ok(fget(g, "buffers"@))
    &&& buffer_view_field_ok(fget(g, "bufferViews"@))
    &&& accessor_field_ok(fget(g, "accessors"@))
    &&& mesh_field_ok(fget(g, "meshes"@))
    &&& animation_field_ok(fget(g, "animations"@))
    &&& node_field_ok(fget(g, "nodes"@))
    &&& skin_field_ok(fget(g, "skins"@))
    &&& sampler_field_ok(fget(g, "samplers"@))
    &&& camera_field_ok(fget(g, "cameras"@))
    &&& root_extensions_ok(fget(g, "extensions"@))
    &&& scene_field_ok(fget(g, "scenes"@))
    &&& ok_opt_usize(fget(g, "scene"@))
}

pub open spec fn gltf_rep(x: Gltf, g: GVal) -> bool {
    &&& image_field_rep(x.images@, fget(g, "images"@))
    &&& texture_field_rep(x.textures@, fget(g, "textures"@))
    &&& material_field_rep(x.materials@, fget(g, "materials"@))
    &&& buffer_field_rep(x.buffers@, fget(g, "buffers"@))
    &&& buffer_view_field_rep(x.buffer_views@, fget(g, "bufferViews"@))
    &&& accessor_field_rep(x.accessors@, fget(g, "accessors"@))
    &&& mesh_field_rep(x.meshes@, fget(g, "meshes"@))
    &&& animation_field_rep(x.animations@, fget(g, "animations"@))
    &&& node_field_rep(x.nodes@, fget(g, "nodes"@))
    &&& skin_field_rep(x.skins@, fget(g, "skins"@))
    &&& sampler_field_rep(x.samplers@, fget(g, "samplers"@))
    &&& camera_field_rep(x.cameras@, fget(g, "cameras"@))
    &&& root_extensions_rep(x.extensions, fget(g, "extensions"@))
    &&& scene_field_rep(x.scenes@, fget(g, "scenes"@))
    &&& x.scene == val_usize_def(fget(g, "scene"@), 0)
}

/// Builds the document model from one parsed value: succeeds exactly when
/// the value matches the document schema, and pins every field of the
/// result to the value's content.
pub fn parse_gltf(v: &JVal) -> (r: Result<Gltf, (ErrorKind, usize)>)
    ensures
        r is Ok <==> gltf_ok(v@),
        r matches Ok(x) ==> gltf_rep(x, v@),
{
    let ms = obj_of(v)?;
    let images = parse_image_field(jget(ms, "images"))?;
    let textures = parse_texture_field(jget(ms, "textures"))?;
    let materials = parse_material_field(jget(ms, "materials"))?;
    let buffers = parse_buffer_field(jget(ms, "buffers"))?;
    let buffer_views = parse_buffer_view_field(jget(ms, "bufferViews"))?;
    let accessors = parse_accessor_field(jget(ms, "accessors"))?;
    let meshes = parse_mesh_field(jget(ms, "meshes"))?;
    let animations = parse_animation_field(jget(ms, "animations"))?;
    let nodes = parse_node_field(jget(ms, "nodes"))?;
    let skins = parse_skin_field(jget(ms, "skins"))?;
    let samplers = parse_sampler_field(jget(ms, "samplers"))?;
    let cameras = parse_camera_field(jget(ms, "cameras"))?;
    let extensions = parse_root_extensions(jget(ms, "extensions"))?;
    let scenes = parse_scene_field(jget(ms, "scenes"))?;
    let scene = get_usize_def(ms, "scene", 0)?;
    Ok(
        Gltf {
            images,
            textures,
            materials,
            buffers,
            buffer_views,
            accessors,
            meshes,
            animations,
            nodes,
            skins,
            samplers,
            cameras,
            extensions,
            scenes,
            scene,
        },
    )
}


/// Observational equality of texture transforms: every stored datum agrees.
pub open spec fn ktt_obs_eq(a: KhrTextureTransform, b: KhrTextureTransform) -> bool {
    a.offset@ == b.offset@ && a.rotation == b.rotation && a.scale@ == b.scale@ && a.tex_coord
        == b.tex_coord
}

pub open spec fn opt_ktt_obs_eq(a: Option<KhrTextureTransform>, b: Option<KhrTextureTransform>) -> bool {
    match a {
        None => b is None,
        Some(x) => b matches Some(y) && ktt_obs_eq(x, y),
    }
}

/// Observational equality of texture references.
pub open spec fn ti_obs_eq(a: TextureInfo, b: TextureInfo) -> bool {
    a.index == b.index && a.tex_coord == b.tex_coord && opt_ktt_obs_eq(
        a.extensions.khr_texture_transform,
        b.extensions.khr_texture_transform,
    )
}

pub open spec fn opt_ti_obs_eq(a: Option<TextureInfo>, b: Option<TextureInfo>) -> bool {
    match a {
        None => b is None,
        Some(x) => b matches Some(y) && ti_obs_eq(x, y),
    }
}

pub open spec fn nti_obs_eq(a: NormalTextureInfo, b: NormalTextureInfo) -> bool {
    a.index == b.index && a.tex_coord == b.tex_coord && a.scale == b.scale && opt_ktt_obs_eq(
        a.extensions.khr_texture_transform,
        b.extensions.khr_texture_transform,
    )
}

pub open spec fn oti_obs_eq(a: OcclusionTextureInfo, b: OcclusionTextureInfo) -> bool {
    a.index == b.index && a.tex_coord == b.tex_coord && a.strength == b.strength && opt_ktt_obs_eq(
        a.extensions.khr_texture_transform,
        b.extensions.khr_texture_transform,
    )
}

pub open spec fn pbr_obs_eq(a: PbrMetallicRoughness, b: PbrMetallicRoughness) -> bool {
    &&& a.base_color_factor@ == b.base_color_factor@
    &&& opt_ti_obs_eq(a.base_color_texture, b.base_color_texture)
    &&& a.metallic_factor == b.metallic_factor
    &&& a.roughness_factor == b.roughness_factor
    &&& opt_ti_obs_eq(a.metallic_roughness_texture, b.metallic_roughness_texture)
}

pub open spec fn material_extensions_obs_eq(a: MaterialExtensions, b: MaterialExtensions) -> bool {
    &&& match a.khr_materials_sheen {
        None => b.khr_materials_sheen is None,
        Some(x) => b.khr_materials_sheen matches Some(y) && x.sheen_color_factor@
            == y.sheen_color_factor@ && opt_ti_obs_eq(x.sheen_color_texture, y.sheen_color_texture)
            && x.sheen_roughness_factor == y.sheen_roughness_factor && opt_ti_obs_eq(
            x.sheen_roughness_texture,
            y.sheen_roughness_texture,
        ),
    }
    &&& a.khr_materials_emissive_strength == b.khr_materials_emissive_strength
    &&& a.khr_materials_unlit is Some == b.khr_materials_unlit is Some
    &&& a.khr_materials_ior == b.khr_materials_ior
    &&& match a.khr_materials_specular {
        None => b.khr_materials_specular is None,
        Some(x) => b.khr_materials_specular matches Some(y) && x.specular_factor
            == y.specular_factor && opt_ti_obs_eq(x.specular_texture, y.specular_texture)
            && x.specular_color_factor@ == y.specular_color_factor@ && opt_ti_obs_eq(
            x.specular_color_texture,
            y.specular_color_texture,
        ),
    }
    &&& match a.khr_materials_transmission {
        None => b.khr_materials_transmission is None,
        Some(x) => b.khr_materials_transmission matches Some(y) && x.transmission_factor
            == y.transmission_factor && opt_ti_obs_eq(
            x.transmission_texture,
            y.transmission_texture,
        ),
    }
}

pub open spec fn material_obs_eq(a: Material, b: Material) -> bool {
    &&& pbr_obs_eq(a.pbr_metallic_roughness, b.pbr_metallic_roughness)
    &&& match a.normal_texture {
        None => b.normal_texture is None,
        Some(x) => b.normal_texture matches Some(y) && nti_obs_eq(x, y),
    }
    &&& match a.occlusion_texture {
        None => b.occlusion_texture is None,
        Some(x) => b.occlusion_texture matches Some(y) && oti_obs_eq(x, y),
    }
    &&& opt_ti_obs_eq(a.emissive_texture, b.emissive_texture)
    &&& a.emissive_factor@ == b.emissive_factor@
    &&& a.alpha_mode == b.alpha_mode
    &&& a.alpha_cutoff == b.alpha_cutoff
    &&& a.double_sided == b.double_sided
    &&& material_extensions_obs_eq(a.extensions, b.extensions)
}

pub open spec fn image_obs_eq(a: Image, b: Image) -> bool {
    opt_string_view(a.uri) == opt_string_view(b.uri) && opt_string_view(a.mime_type)
        == opt_string_view(b.mime_type) && a.buffer_view == b.buffer_view
}

pub open spec fn buffer_obs_eq(a: Buffer, b: Buffer) -> bool {
    opt_string_view(a.uri) == opt_string_view(b.uri) && a.byte_length == b.byte_length
        && a.extensions == b.extensions
}

pub open spec fn accessor_obs_eq(a: Accessor, b: Accessor) -> bool {
    &&& a.buffer_view == b.buffer_view
    &&& a.byte_offset == b.byte_offset
    &&& a.component_type == b.component_type
    &&& a.normalized == b.normalized
    &&& a.count == b.count
    &&& a.accessor_type == b.accessor_type
    &&& a.sparse == b.sparse
    &&& opt_vec_view(a.min) == opt_vec_view(b.min)
    &&& opt_vec_view(a.max) == opt_vec_view(b.max)
}

pub open spec fn primitive_obs_eq(a: Primitive, b: Primitive) -> bool {
    &&& a.attributes == b.attributes
    &&& a.indices == b.indices
    &&& a.material == b.material
    &&& a.mode == b.mode
    &&& match a.targets {
        None => b.targets is None,
        Some(x) => b.targets matches Some(y) && x@ == y@,
    }
}

pub open spec fn mesh_obs_eq(a: Mesh, b: Mesh) -> bool {
    &&& a.primitives@.len() == b.primitives@.len()
    &&& forall|i: int|
        0 <= i < a.primitives@.len() ==> primitive_obs_eq(
            #[trigger] a.primitives@[i],
            b.primitives@[i],
        )
    &&& opt_vec_view(a.weights) == opt_vec_view(b.weights)
}

pub open spec fn node_obs_eq(a: Node, b: Node) -> bool {
    &&& a.camera == b.camera
    &&& a.children@ == b.children@
    &&& a.skin == b.skin
    &&& opt_vec_view(a.matrix) == opt_vec_view(b.matrix)
    &&& a.mesh == b.mesh
    &&& opt_vec_view(a.rotation) == opt_vec_view(b.rotation)
    &&& opt_vec_view(a.scale) == opt_vec_view(b.scale)
    &&& opt_vec_view(a.translation) == opt_vec_view(b.translation)
    &&& a.extensions.ext_mesh_gpu_instancing == b.extensions.ext_mesh_gpu_instancing
    &&& match a.extensions.msft_lod {
        None => b.extensions.msft_lod is None,
        Some(x) => b.extensions.msft_lod matches Some(y) && x.ids@ == y.ids@,
    }
    &&& opt_vec_view(a.extras.msft_screencoverage) == opt_vec_view(b.extras.msft_screencoverage)
}

pub open spec fn animation_obs_eq(a: Animation, b: Animation) -> bool {
    a.channels@ == b.channels@ && a.samplers@ == b.samplers@
}

pub open spec fn skin_obs_eq(a: Skin, b: Skin) -> bool {
    a.inverse_bind_matrices == b.inverse_bind_matrices && a.skeleton == b.skeleton && a.joints@
        == b.joints@
}

pub open spec fn light_obs_eq(a: Light, b: Light) -> bool {
    a.color@ == b.color@ && a.intensity == b.intensity && a.ty == b.ty && a.spot == b.spot
}

pub open spec fn root_extensions_obs_eq(a: RootExtensions, b: RootExtensions) -> bool {
    match a.khr_lights_punctual {
        None => b.khr_lights_punctual is None,
        Some(x) => b.khr_lights_punctual matches Some(y) && x.lights@.len() == y.lights@.len() && (
        forall|i: int|
            0 <= i < x.lights@.len() ==> light_obs_eq(#[trigger] x.lights@[i], y.lights@[i])),
    }
}

/// Observational equality of whole documents: every entity sequence has the
/// same length and observably equal entries, and every scalar agrees.
pub open spec fn gltf_obs_eq(a: Gltf, b: Gltf) -> bool {
    &&& a.images@.len() == b.images@.len()
    &&& forall|i: int|
        0 <= i < a.images@.len() ==> image_obs_eq(#[trigger] a.images@[i], b.images@[i])
    &&& a.textures@ == b.textures@
    &&& a.materials@.len() == b.materials@.len()
    &&& forall|i: int|
        0 <= i < a.materials@.len() ==> material_obs_eq(#[trigger] a.materials@[i], b.materials@[i])
    &&& a.buffers@.len() == b.buffers@.len()
    &&& forall|i: int|
        0 <= i < a.buffers@.len() ==> buffer_obs_eq(#[trigger] a.buffers@[i], b.buffers@[i])
    &&& a.buffer_views@ == b.buffer_views@
    &&& a.accessors@.len() == b.accessors@.len()
    &&& forall|i: int|
        0 <= i < a.accessors@.len() ==> accessor_obs_eq(#[trigger] a.accessors@[i], b.accessors@[i])
    &&& a.meshes@.len() == b.meshes@.len()
    &&& forall|i: int|
        0 <= i < a.meshes@.len() ==> mesh_obs_eq(#[trigger] a.meshes@[i], b.meshes@[i])
    &&& a.animations@.len() == b.animations@.len()
    &&& forall|i: int|
        0 <= i < a.animations@.len() ==> animation_obs_eq(
            #[trigger] a.animations@[i],
            b.animations@[i],
        )
    &&& a.nodes@.len() == b.nodes@.len()
    &&& forall|i: int| 0 <= i < a.nodes@.len() ==> node_obs_eq(#[trigger] a.nodes@[i], b.nodes@[i])
    &&& a.skins@.len() == b.skins@.len()
    &&& forall|i: int| 0 <= i < a.skins@.len() ==> skin_obs_eq(#[trigger] a.skins@[i], b.skins@[i])
    &&& a.samplers@ == b.samplers@
    &&& a.cameras@ == b.cameras@
    &&& root_extensions_obs_eq(a.extensions, b.extensions)
    &&& a.scenes@.len() == b.scenes@.len()
    &&& forall|i: int|
        0 <= i < a.scenes@.len() ==> (#[trigger] a.scenes@[i]).nodes@ == b.scenes@[i].nodes@
    &&& a.scene == b.scene
}

proof fn lemma_ti_determined(a: TextureInfo, b: TextureInfo, g: GVal)
    requires
        texture_info_rep(a, g),
        texture_info_rep(b, g),
    ensures
        ti_obs_eq(a, b),
{
}

proof fn lemma_opt_ti_determined(a: Option<TextureInfo>, b: Option<TextureInfo>, o: Option<GVal>)
    requires
        opt_texture_info_rep(a, o),
        opt_texture_info_rep(b, o),
    ensures
        opt_ti_obs_eq(a, b),
{
    match o {
        None => {},
        Some(g) => {
            lemma_ti_determined(a->Some_0, b->Some_0, g);
        },
    }
}

proof fn lemma_material_determined(a: Material, b: Material, g: GVal)
    requires
        material_rep(a, g),
        material_rep(b, g),
    ensures
        material_obs_eq(a, b),
{
    match fget(g, "pbrMetallicRoughness"@) {
        None => {},
        Some(e) => {
            lemma_opt_ti_determined(
                a.pbr_metallic_roughness.base_color_texture,
                b.pbr_metallic_roughness.base_color_texture,
                fget(e, "baseColorTexture"@),
            );
            lemma_opt_ti_determined(
                a.pbr_metallic_roughness.metallic_roughness_texture,
                b.pbr_metallic_roughness.metallic_roughness_texture,
                fget(e, "metallicRoughnessTexture"@),
            );
        },
    }
    lemma_opt_ti_determined(a.emissive_texture, b.emissive_texture, fget(g, "emissiveTexture"@));
    match fget(g, "extensions"@) {
        None => {},
        Some(e) => {
            match fget(e, "KHR_materials_sheen"@) {
                None => {},
                Some(x) => {
                    let av = a.extensions.khr_materials_sheen->Some_0;
                    let bv = b.extensions.khr_materials_sheen->Some_0;
                    lemma_opt_ti_determined(
                        av.sheen_color_texture,
                        bv.sheen_color_texture,
                        fget(x, "sheenColorTexture"@),
                    );
                    lemma_opt_ti_determined(
                        av.sheen_roughness_texture,
                        bv.sheen_roughness_texture,
                        fget(x, "sheenRoughnessTexture"@),
                    );
                },
            }
            match fget(e, "KHR_materials_specular"@) {
                None => {},
                Some(x) => {
                    let av = a.extensions.khr_materials_specular->Some_0;
                    let bv = b.extensions.khr_materials_specular->Some_0;
                    lemma_opt_ti_determined(
                        av.specular_texture,
                        bv.specular_texture,
                        fget(x, "specularTexture"@),
                    );
                    lemma_opt_ti_determined(
                        av.specular_color_texture,
                        bv.specular_color_texture,
                        fget(x, "specularColorTexture"@),
                    );
                },
            }
            match fget(e, "KHR_materials_transmission"@) {
                None => {},
                Some(x) => {
                    let av = a.extensions.khr_materials_transmission->Some_0;
                    let bv = b.extensions.khr_materials_transmission->Some_0;
                    lemma_opt_ti_determined(
                        av.transmission_texture,
                        bv.transmission_texture,
                        fget(x, "transmissionTexture"@),
                    );
                },
            }
        },
    }
}

proof fn lemma_primitive_determined(a: Primitive, b: Primitive, g: GVal)
    requires
        primitive_rep(a, g),
        primitive_rep(b, g),
    ensures
        primitive_obs_eq(a, b),
{
    match fget(g, "targets"@) {
        None => {},
        Some(t) => {
            let es = t.kind->Arr_0;
            let x = a.targets->Some_0;
            let y = b.targets->Some_0;
            assert(x@ =~= y@);
        },
    }
}

proof fn lemma_mesh_determined(a: Mesh, b: Mesh, g: GVal)
    requires
        mesh_rep(a, g),
        mesh_rep(b, g),
    ensures
        mesh_obs_eq(a, b),
{
    let p = fget(g, "primitives"@)->Some_0;
    let es = p.kind->Arr_0;
    assert forall|i: int| 0 <= i < a.primitives@.len() implies primitive_obs_eq(
        #[trigger] a.primitives@[i],
        b.primitives@[i],
    ) by {
        lemma_primitive_determined(a.primitives@[i], b.primitives@[i], es[i]);
    }
}

proof fn lemma_node_determined(a: Node, b: Node, g: GVal)
    requires
        node_rep(a, g),
        node_rep(b, g),
    ensures
        node_obs_eq(a, b),
{
}

/// Two documents pinned to the same parsed value agree observably: the
/// schema mapping is a function of the parsed value.
pub proof fn lemma_gltf_rep_determined(a: Gltf, b: Gltf, g: GVal)
    requires
        gltf_rep(a, g),
        gltf_rep(b, g),
    ensures
        gltf_obs_eq(a, b),
{
    match fget(g, "images"@) {
        None => {},
        Some(v) => {
            let es = v.kind->Arr_0;
        },
    }
    match fget(g, "materials"@) {
        None => {},
        Some(v) => {
            let es = v.kind->Arr_0;
            assert forall|i: int| 0 <= i < a.materials@.len() implies material_obs_eq(
                #[trigger] a.materials@[i],
                b.materials@[i],
            ) by {
                lemma_material_determined(a.materials@[i], b.materials@[i], es[i]);
            }
        },
    }
    assert(a.textures@ =~= b.textures@);
    assert(a.buffer_views@ =~= b.buffer_views@);
    match fget(g, "meshes"@) {
        None => {},
        Some(v) => {
            let es = v.kind->Arr_0;
            assert forall|i: int| 0 <= i < a.meshes@.len() implies mesh_obs_eq(
                #[trigger] a.meshes@[i],
                b.meshes@[i],
            ) by {
                lemma_mesh_determined(a.meshes@[i], b.meshes@[i], es[i]);
            }
        },
    }
    match fget(g, "animations"@) {
        None => {},
        Some(v) => {
            let es = v.kind->Arr_0;
            assert forall|i: int| 0 <= i < a.animations@.len() implies animation_obs_eq(
                #[trigger] a.animations@[i],
                b.animations@[i],
            ) by {
                assert(a.animations@[i].channels@ =~= b.animations@[i].channels@);
                assert(a.animations@[i].samplers@ =~= b.animations@[i].samplers@);
            }
        },
    }
    match fget(g, "nodes"@) {
        None => {},
        Some(v) => {
            let es = v.kind->Arr_0;
            assert forall|i: int| 0 <= i < a.nodes@.len() implies node_obs_eq(
                #[trigger] a.nodes@[i],
                b.nodes@[i],
            ) by {
                lemma_node_determined(a.nodes@[i], b.nodes@[i], es[i]);
            }
        },
    }
    assert(a.samplers@ =~= b.samplers@);
    assert(a.cameras@ =~= b.cameras@);
}


/// A node parsed from a well-typed value has its fixed-width parts.
proof fn lemma_node_rep_wf(x: Node, g: GVal)
    requires
        node_ok(g),
        node_rep(x, g),
    ensures
        x.wf(),
{
}

/// A material parsed from a well-typed value has its fixed-width factors.
proof fn lemma_material_rep_wf(x: Material, g: GVal)
    requires
        material_ok(g),
        material_rep(x, g),
    ensures
        x.wf(),
{
}

/// Every document the loader returns is well formed: the fixed-width tuple
/// invariants of its nodes and materials hold.
pub proof fn lemma_loaded_document_well_formed(x: Gltf, g: GVal)
    requires
        gltf_ok(g),
        gltf_rep(x, g),
    ensures
        x.wf(),
{
    match fget(g, "nodes"@) {
        None => {},
        Some(v) => {
            let es = v.kind->Arr_0;
            assert forall|i: int| 0 <= i < x.nodes@.len() implies (#[trigger] x.nodes@[i]).wf() by {
                lemma_node_rep_wf(x.nodes@[i], es[i]);
            }
        },
    }
    match fget(g, "materials"@) {
        None => {},
        Some(v) => {
            let es = v.kind->Arr_0;
            assert forall|i: int|
                0 <= i < x.materials@.len() implies (#[trigger] x.materials@[i]).wf() by {
                lemma_material_rep_wf(x.materials@[i], es[i]);
            }
        },
    }
}

} // verus!
