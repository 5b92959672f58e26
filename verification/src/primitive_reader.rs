//! The typed accessor decoder: resolving an accessor to its byte slice
//! through its buffer view, and reinterpreting that slice as typed numeric
//! arrays under the accessor's component type, normalized flag and stride.
//!
//! Each typed reader accepts an explicit allow-list of (component type,
//! normalized, stride) triples — the combinations real content uses — and
//! refuses every other triple with an [`Error::UnsupportedCombination`]
//! naming the reader and the triple.  Byte ranges that overrun the available
//! bytes are clamped to them, a deliberate leniency toward slightly
//! malformed files.  Floating-point results are returned as IEEE-754 bit
//! patterns, one `u32` per component, in element-major order.

use vstd::prelude::*;
use vstd::arithmetic::div_mod::lemma_fundamental_div_mod;
use std::collections::HashMap;
use crate::model::{Gltf, Accessor, BufferView, Primitive, ComponentType};
use crate::extensions::ExtMeshoptCompression;
use crate::fbits::{unorm_bits, snorm_bits, uint_bits, unorm_to_bits, snorm_to_bits, uint_to_bits};

verus! {

broadcast use vstd::std_specs::hash::group_hash_axioms;

/// Access to the compression extension of a buffer view's extension slot.
pub trait MeshOptCompressionExtension {
    fn ext_meshopt_compression(&self) -> (r: Option<ExtMeshoptCompression>)
        ensures
            r == self.spec_ext_meshopt_compression(),
    ;

    spec fn spec_ext_meshopt_compression(&self) -> Option<ExtMeshoptCompression>;
}

impl MeshOptCompressionExtension for crate::extensions::BufferViewExtensions {
    fn ext_meshopt_compression(&self) -> (r: Option<ExtMeshoptCompression>) {
        self.ext_meshopt_compression
    }

    open spec fn spec_ext_meshopt_compression(&self) -> Option<ExtMeshoptCompression> {
        self.ext_meshopt_compression
    }
}

/// Which typed reader reported an unsupported combination.
#[derive(Debug, Clone, Copy, PartialEq, Eq, Structural)]
pub enum ReaderKind {
    F32,
    F32x2,
    F32x3,
    F32x4,
    U32,
    U32x4,
}

/// Failures of a single decode call; none poisons the document.
#[derive(Debug, Clone, Copy, PartialEq, Eq, Structural)]
pub enum Error {
    /// The accessor has no buffer-view link (purely sparse accessors are not
    /// decoded by this layer).
    AccessorMissingBufferView,
    /// The accessor's buffer-view index is out of range, or the caller's
    /// byte map has no entry for it; carries the offending index.
    BufferViewIndexOutOfBounds(usize),
    /// A primitive names an accessor index out of range; carries it.
    AccessorIndexOutOfBounds(usize),
    /// The (component type, normalized, stride) triple has no implemented
    /// reader; carries the reader and the triple.
    UnsupportedCombination(ReaderKind, ComponentType, bool, Option<usize>),
}

/// The element stride the decoder uses: a compression-extension override
/// first, then the view's declared stride, then the natural element size.
pub open spec fn spec_byte_stride(accessor: Accessor, view: BufferView) -> int {
    match view.extensions.ext_meshopt_compression {
        Some(ext) => ext.byte_stride as int,
        None => match view.byte_stride {
            Some(s) => s as int,
            None => accessor.spec_natural_stride(),
        },
    }
}

/// Executable form of [`spec_byte_stride`].
pub fn byte_stride(accessor: &Accessor, buffer_view: &BufferView) -> (r: usize)
    ensures
        r as int == spec_byte_stride(*accessor, *buffer_view),
{
    match buffer_view.extensions.ext_meshopt_compression() {
        Some(ext) => ext.byte_stride,
        None => match buffer_view.byte_stride {
            Some(s) => s,
            None => {
                let w = accessor.component_type.byte_size();
                let n = accessor.accessor_type.num_components();
                proof {
                    assert(w * n <= 64) by (nonlinear_arith)
                        requires
                            w as int <= 4,
                            n as int <= 16,
                            0 <= w,
                            0 <= n,
                    ;
                }
                w * n
            },
        },
    }
}

/// Whether resolving the accessor's bytes succeeds: it has a view link, the
/// index is in range, and the caller's map has bytes for it.
pub open spec fn spec_resolve_ok(gltf: Gltf, m: Map<usize, Vec<u8>>, a: Accessor) -> bool {
    &&& a.buffer_view is Some
    &&& (a.buffer_view matches Some(i) ==> i < gltf.buffer_views@.len() && m.contains_key(i))
}

/// The error a failed resolution reports.
pub open spec fn spec_resolve_err(gltf: Gltf, m: Map<usize, Vec<u8>>, a: Accessor) -> Error {
    match a.buffer_view {
        None => Error::AccessorMissingBufferView,
        Some(i) => Error::BufferViewIndexOutOfBounds(i),
    }
}

/// The clamped byte range an accessor covers within `avail` available bytes:
/// the end is the accessor's offset plus count times stride, held down to
/// `avail`; the start is the offset, held down to that end.
pub open spec fn spec_slice_bounds(a: Accessor, v: BufferView, avail: int) -> (int, int) {
    let end0 = a.byte_offset + a.count * spec_byte_stride(a, v);
    let end = if end0 > avail {
        avail
    } else {
        end0
    };
    let start = if a.byte_offset > end {
        end
    } else {
        a.byte_offset as int
    };
    (start, end)
}

/// The bytes a successful resolution hands to the typed readers.
pub open spec fn spec_resolved_bytes(gltf: Gltf, m: Map<usize, Vec<u8>>, a: Accessor) -> Seq<u8>
    recommends
        spec_resolve_ok(gltf, m, a),
{
    let i = a.buffer_view->Some_0;
    let v = gltf.buffer_views@[i as int];
    let b = m[i]@;
    let bounds = spec_slice_bounds(a, v, b.len() as int);
    b.subrange(bounds.0, bounds.1)
}

/// The declared stride a successful resolution reports alongside the bytes.
pub open spec fn spec_resolved_stride(gltf: Gltf, a: Accessor) -> Option<usize>
    recommends
        a.buffer_view is Some,
{
    gltf.buffer_views@[a.buffer_view->Some_0 as int].byte_stride
}

/// Resolves an accessor to the byte slice its buffer view holds for it, and
/// the view's declared stride.  Fails exactly when the accessor has no view
/// link, the view index is out of range, or the byte map has no entry.
pub fn read_buffer_with_accessor<'a>(
    buffer_view_map: &'a HashMap<usize, Vec<u8>>,
    gltf: &'a Gltf,
    accessor: &Accessor,
) -> (r: Result<(&'a [u8], Option<usize>), Error>)
    ensures
        spec_resolve_ok(*gltf, buffer_view_map@, *accessor) ==> (r matches Ok(p) && p.0@
            == spec_resolved_bytes(*gltf, buffer_view_map@, *accessor) && p.1
            == spec_resolved_stride(*gltf, *accessor)),
        !spec_resolve_ok(*gltf, buffer_view_map@, *accessor) ==> r == Err::<
            (&'a [u8], Option<usize>),
            Error,
        >(spec_resolve_err(*gltf, buffer_view_map@, *accessor)),
{
    let buffer_view_index = match accessor.buffer_view {
        Some(i) => i,
        None => {
            return Err(Error::AccessorMissingBufferView);
        },
    };
    if buffer_view_index >= gltf.buffer_views.len() {
        return Err(Error::BufferViewIndexOutOfBounds(buffer_view_index));
    }
    let buffer_view = &gltf.buffer_views[buffer_view_index];
    let buffer_view_bytes = match buffer_view_map.get(&buffer_view_index) {
        Some(b) => b,
        None => {
            return Err(Error::BufferViewIndexOutOfBounds(buffer_view_index));
        },
    };
    let stride = byte_stride(accessor, buffer_view);
    let avail = buffer_view_bytes.len();
    // Force the end of the slice to be in bounds: real-world files are
    // sometimes a little short, and the computation can exceed the machine's
    // integer range; both clamp to the available bytes.
    let end = match accessor.count.checked_mul(stride) {
        Some(total) => match accessor.byte_offset.checked_add(total) {
            Some(e) =>
                if e > avail {
                    avail
                } else {
                    e
                },
            None => avail,
        },
        None => avail,
    };
    proof {
        let end0 = accessor.byte_offset + accessor.count * spec_byte_stride(
            *accessor,
            *buffer_view,
        );
        assert(accessor.count * (stride as int) >= 0) by (nonlinear_arith)
            requires
                0 <= accessor.count,
                0 <= stride,
        ;
        assert(end as int == if end0 > avail {
            avail as int
        } else {
            end0
        });
    }
    let start = if accessor.byte_offset > end {
        end
    } else {
        accessor.byte_offset
    };
    let slice = &buffer_view_bytes.as_slice()[start..end];
    Ok((slice, buffer_view.byte_stride))
}

/// Whether resolving the accessor would clamp its declared byte range: the
/// declared end oversteps the bytes the caller supplied for the view.
pub open spec fn spec_range_clamped(a: Accessor, v: BufferView, avail: int) -> bool {
    a.byte_offset + a.count * spec_byte_stride(a, v) > avail
}

/// Reports whether this accessor's declared byte range oversteps the
/// available bytes and is therefore clamped by [`read_buffer_with_accessor`]:
/// the observable side of the decoder's deliberate leniency toward slightly
/// malformed files.
pub fn accessor_range_is_clamped(
    buffer_view_map: &HashMap<usize, Vec<u8>>,
    gltf: &Gltf,
    accessor: &Accessor,
) -> (r: Result<bool, Error>)
    ensures
        spec_resolve_ok(*gltf, buffer_view_map@, *accessor) ==> (r matches Ok(b) && b
            == spec_range_clamped(
            *accessor,
            gltf.buffer_views@[accessor.buffer_view->Some_0 as int],
            buffer_view_map@[accessor.buffer_view->Some_0]@.len() as int,
        )),
        !spec_resolve_ok(*gltf, buffer_view_map@, *accessor) ==> r == Err::<bool, Error>(
            spec_resolve_err(*gltf, buffer_view_map@, *accessor),
        ),
{
    let buffer_view_index = match accessor.buffer_view {
        Some(i) => i,
        None => {
            return Err(Error::AccessorMissingBufferView);
        },
    };
    if buffer_view_index >= gltf.buffer_views.len() {
        return Err(Error::BufferViewIndexOutOfBounds(buffer_view_index));
    }
    let buffer_view = &gltf.buffer_views[buffer_view_index];
    let buffer_view_bytes = match buffer_view_map.get(&buffer_view_index) {
        Some(b) => b,
        None => {
            return Err(Error::BufferViewIndexOutOfBounds(buffer_view_index));
        },
    };
    let stride = byte_stride(accessor, buffer_view);
    let avail = buffer_view_bytes.len();
    proof {
        assert(accessor.count * (stride as int) >= 0) by (nonlinear_arith)
            requires
                0 <= accessor.count,
                0 <= stride,
        ;
    }
    match accessor.count.checked_mul(stride) {
        Some(total) => match accessor.byte_offset.checked_add(total) {
            Some(e) => Ok(e > avail),
            None => Ok(true),
        },
        None => {
            proof {
                assert(accessor.byte_offset + accessor.count * (stride as int) > avail);
            }
            Ok(true)
        },
    }
}

/// The little-endian sixteen-bit value at byte offset `i`.
pub open spec fn le16_at(s: Seq<u8>, i: int) -> u16
    recommends
        0 <= i,
        i + 2 <= s.len(),
{
    (s[i] + s[i + 1] * 0x100) as u16
}

/// The little-endian thirty-two-bit value at byte offset `i`.
pub open spec fn le32_at(s: Seq<u8>, i: int) -> u32
    recommends
        0 <= i,
        i + 4 <= s.len(),
{
    (s[i] + s[i + 1] * 0x100 + s[i + 2] * 0x1_0000 + s[i + 3] * 0x100_0000) as u32
}

/// The two's-complement reading of an eight-bit pattern.
pub open spec fn sign8(v: u8) -> int {
    if v >= 0x80 {
        v - 0x100
    } else {
        v as int
    }
}

/// The two's-complement reading of a sixteen-bit pattern.
pub open spec fn sign16(v: u16) -> int {
    if v >= 0x8000 {
        v - 0x1_0000
    } else {
        v as int
    }
}

/// The component conversions the typed readers perform.
#[derive(Debug, Clone, Copy, PartialEq, Eq, Structural)]
pub enum NumConv {
    /// Four little-endian bytes taken verbatim (raw floating-point bits, or
    /// a raw unsigned integer).
    Raw32,
    /// An unsigned byte as a fraction of 255.
    UnormByte,
    /// A signed byte as a fraction of 127, clamped at minus one.
    SnormByte,
    /// An unsigned short as a fraction of 65535.
    UnormShort,
    /// A signed short as a fraction of 32767, clamped at minus one.
    SnormShort,
    /// An unsigned short widened to floating point without scaling.
    FloatOfShort,
    /// An unsigned byte widened to a thirty-two-bit integer.
    IntOfByte,
    /// An unsigned short widened to a thirty-two-bit integer.
    IntOfShort,
}

/// Width in bytes of the component a conversion consumes.
pub open spec fn conv_width(k: NumConv) -> int {
    match k {
        NumConv::Raw32 => 4,
        NumConv::UnormByte | NumConv::SnormByte | NumConv::IntOfByte => 1,
        NumConv::UnormShort | NumConv::SnormShort | NumConv::FloatOfShort | NumConv::IntOfShort
            => 2,
    }
}

/// The converted component at byte offset `i`.
pub open spec fn conv_at(k: NumConv, s: Seq<u8>, i: int) -> u32
    recommends
        0 <= i,
        i + conv_width(k) <= s.len(),
{
    match k {
        NumConv::Raw32 => le32_at(s, i),
        NumConv::UnormByte => unorm_bits(s[i] as int, 255),
        NumConv::SnormByte => snorm_bits(sign8(s[i]), 127),
        NumConv::UnormShort => unorm_bits(le16_at(s, i) as int, 65535),
        NumConv::SnormShort => snorm_bits(sign16(le16_at(s, i)), 32767),
        NumConv::FloatOfShort => uint_bits(le16_at(s, i) as int),
        NumConv::IntOfByte => s[i] as u32,
        NumConv::IntOfShort => le16_at(s, i) as u32,
    }
}

/// How many complete groups of `per` components of width `w` fit in `len`
/// bytes at the given stride: groups whose components all lie within the
/// bytes; a trailing partial group is dropped.
pub open spec fn group_count(len: int, stride: int, per: int, w: int) -> int
    recommends
        1 <= stride,
        1 <= per,
        1 <= w,
{
    if len < per * w {
        0
    } else {
        (len - per * w) / stride + 1
    }
}

/// The flattened component sequence the group reader produces: component
/// `j` of group `g` is converted from byte offset `g * stride + j * w`.
pub open spec fn groups_spec(k: NumConv, s: Seq<u8>, stride: int, per: int) -> Seq<u32>
    recommends
        1 <= stride,
        1 <= per,
        per * conv_width(k) <= stride,
{
    Seq::new(
        (per * group_count(s.len() as int, stride, per, conv_width(k))) as nat,
        |idx: int| conv_at(k, s, (idx / per) * stride + (idx % per) * conv_width(k)),
    )
}

/// Width in bytes of the component a conversion consumes.
fn conv_width_e(k: NumConv) -> (r: usize)
    ensures
        r as int == conv_width(k),
{
    match k {
        NumConv::Raw32 => 4,
        NumConv::UnormByte | NumConv::SnormByte | NumConv::IntOfByte => 1,
        NumConv::UnormShort | NumConv::SnormShort | NumConv::FloatOfShort | NumConv::IntOfShort
            => 2,
    }
}

/// Converts the component at byte offset `off`.
fn conv_one(k: NumConv, slice: &[u8], off: usize) -> (r: u32)
    requires
        off + conv_width(k) <= slice@.len(),
    ensures
        r == conv_at(k, slice@, off as int),
{
    match k {
        NumConv::Raw32 => {
            let b0 = slice[off] as u32;
            let b1 = slice[off + 1] as u32;
            let b2 = slice[off + 2] as u32;
            let b3 = slice[off + 3] as u32;
            b0 + b1 * 0x100 + b2 * 0x1_0000 + b3 * 0x100_0000
        },
        NumConv::UnormByte => unorm_to_bits(slice[off] as u32, 255),
        NumConv::SnormByte => {
            let v = slice[off];
            let sv: i32 = if v >= 0x80 {
                v as i32 - 0x100
            } else {
                v as i32
            };
            snorm_to_bits(sv, 127)
        },
        NumConv::UnormShort => {
            let u = slice[off] as u32 + slice[off + 1] as u32 * 0x100;
            unorm_to_bits(u, 65535)
        },
        NumConv::SnormShort => {
            let u = slice[off] as u32 + slice[off + 1] as u32 * 0x100;
            let sv: i32 = if u >= 0x8000 {
                u as i32 - 0x1_0000
            } else {
                u as i32
            };
            snorm_to_bits(sv, 32767)
        },
        NumConv::FloatOfShort => {
            let u = slice[off] as u32 + slice[off + 1] as u32 * 0x100;
            uint_to_bits(u)
        },
        NumConv::IntOfByte => slice[off] as u32,
        NumConv::IntOfShort => slice[off] as u32 + slice[off + 1] as u32 * 0x100,
    }
}

/// Reads every complete group of `per` components at the given stride,
/// converting each component; the executable form of [`groups_spec`].
fn read_groups(slice: &[u8], stride: usize, per: usize, k: NumConv) -> (r: Vec<u32>)
    requires
        1 <= stride,
        1 <= per,
        per * conv_width(k) <= stride,
    ensures
        r@ == groups_spec(k, slice@, stride as int, per as int),
{
    let w = conv_width_e(k);
    let len = slice.len();
    let pw = per * w;
    let n: usize = if len < pw {
        0
    } else {
        (len - pw) / stride + 1
    };
    proof {
        assert(n as int == group_count(len as int, stride as int, per as int, conv_width(k)));
    }
    let mut out: Vec<u32> = Vec::new();
    let mut g: usize = 0;
    while g < n
        invariant
            g <= n,
            1 <= stride,
            1 <= per,
            w as int == conv_width(k),
            pw == per * w,
            pw <= stride,
            len == slice@.len(),
            n as int == group_count(len as int, stride as int, per as int, conv_width(k)),
            out@.len() == g * per,
            forall|gi: int, j: int|
                0 <= gi < g && 0 <= j < per ==> #[trigger] out@[gi * per + j] == conv_at(
                    k,
                    slice@,
                    gi * (stride as int) + j * conv_width(k),
                ),
        decreases n - g,
    {
        proof {
            // every component of group g lies within the slice
            assert(g as int <= (len - pw) / (stride as int));
            lemma_fundamental_div_mod(len - pw, stride as int);
            assert((g as int) * (stride as int) <= len - pw) by (nonlinear_arith)
                requires
                    g as int <= (len - pw) / (stride as int),
                    (len - pw) == ((len - pw) / (stride as int)) * (stride as int) + (len - pw) % (
                    stride as int),
                    0 <= (len - pw) % (stride as int),
                    1 <= stride,
            ;
            assert((g as int) * (per as int) + per <= n as int * per) by (nonlinear_arith)
                requires
                    g < n,
                    1 <= per,
            ;
        }
        let base = g * stride;
        let mut j: usize = 0;
        while j < per
            invariant
                g < n,
                j <= per,
                1 <= stride,
                1 <= per,
                w as int == conv_width(k),
                pw == per * w,
                pw <= stride,
                len == slice@.len(),
                n as int == group_count(len as int, stride as int, per as int, conv_width(k)),
                base == g * stride,
                base + pw <= len,
                out@.len() == g * per + j,
                forall|gi: int, ji: int|
                    0 <= gi < g && 0 <= ji < per ==> #[trigger] out@[gi * per + ji] == conv_at(
                        k,
                        slice@,
                        gi * (stride as int) + ji * conv_width(k),
                    ),
                forall|ji: int|
                    0 <= ji < j ==> #[trigger] out@[g * per + ji] == conv_at(
                        k,
                        slice@,
                        (g as int) * (stride as int) + ji * conv_width(k),
                    ),
            decreases per - j,
        {
            proof {
                assert((j as int + 1) * (w as int) <= (per as int) * (w as int))
                    by (nonlinear_arith)
                    requires
                        j < per,
                        1 <= w,
                ;
                assert((j as int) * (w as int) + w <= pw);
            }
            let off = base + j * w;
            let v = conv_one(k, slice, off);
            let ghost pre = out@;
            out.push(v);
            j = j + 1;
            proof {
                assert forall|gi: int, ji: int|
                    0 <= gi < g && 0 <= ji < per implies #[trigger] out@[gi * per + ji] == conv_at(
                    k,
                    slice@,
                    gi * (stride as int) + ji * conv_width(k),
                ) by {
                    assert(gi * per + ji < pre.len()) by (nonlinear_arith)
                        requires
                            0 <= gi < g,
                            0 <= ji < per,
                            pre.len() >= (g as int) * (per as int),
                    ;
                    assert(out@[gi * per + ji] == pre[gi * per + ji]);
                }
                assert forall|ji: int|
                    0 <= ji < j implies #[trigger] out@[g * per + ji] == conv_at(
                    k,
                    slice@,
                    (g as int) * (stride as int) + ji * conv_width(k),
                ) by {
                    if ji < j - 1 {
                        assert(0 <= g * per + ji < pre.len());
                        assert(out@[g * per + ji] == pre[g * per + ji]);
                    } else {
                        assert(g * per + ji == pre.len());
                        assert(out@[g * per + ji] == v);
                        assert(off as int == (g as int) * (stride as int) + ji * conv_width(k));
                    }
                }
            }
        }
        g = g + 1;
        proof {
            assert(out@.len() == (g - 1) * per + per);
            assert((g as int) * (per as int) == (g - 1) * (per as int) + per) by (nonlinear_arith);
        }
    }
    proof {
        let gs = groups_spec(k, slice@, stride as int, per as int);
        assert(g == n);
        assert(out@.len() == (g as int) * (per as int));
        assert(n as int == group_count(slice@.len() as int, stride as int, per as int, conv_width(k)));
        assert(gs.len() == (per as int) * group_count(slice@.len() as int, stride as int, per as int, conv_width(k)));
        assert(out@.len() == gs.len());
        assert forall|idx: int| 0 <= idx < gs.len() implies out@[idx] == gs[idx] by {
            let gi = idx / (per as int);
            let ji = idx % (per as int);
            lemma_fundamental_div_mod(idx, per as int);
            assert(idx == gi * (per as int) + ji);
            assert(0 <= ji < per as int);
            assert(gi < n as int) by (nonlinear_arith)
                requires
                    idx < (per as int) * (n as int),
                    idx == gi * (per as int) + ji,
                    0 <= ji < per as int,
                    1 <= per,
                    0 <= gi,
            ;
            assert(out@[gi * (per as int) + ji] == conv_at(
                k,
                slice@,
                gi * (stride as int) + ji * conv_width(k),
            ));
        }
        assert(out@ =~= gs);
    }
    out
}

/// The unsupported-combination error a reader reports, carrying the reader's
/// identity and the offending triple.
pub open spec fn unsupported(rk: ReaderKind, a: Accessor, st: Option<usize>) -> Error {
    Error::UnsupportedCombination(rk, a.component_type, a.normalized, st)
}

/// What the scalar floating-point reader returns: raw bit passthrough for
/// unstrided float data, and nothing else.
pub open spec fn spec_read_f32(a: Accessor, st: Option<usize>, s: Seq<u8>) -> Result<
    Seq<u32>,
    Error,
> {
    if a.component_type is Float && !a.normalized && st is None {
        Ok(groups_spec(NumConv::Raw32, s, 4, 1))
    } else {
        Err(unsupported(ReaderKind::F32, a, st))
    }
}

/// Reads a flat array of floating-point bit patterns.
pub fn read_f32(slice: &[u8], byte_stride: Option<usize>, accessor: &Accessor) -> (r: Result<
    Vec<u32>,
    Error,
>)
    ensures
        ({
            let sp = spec_read_f32(*accessor, byte_stride, slice@);
            match r {
                Ok(v) => sp == Ok::<Seq<u32>, Error>(v@),
                Err(e) => sp == Err::<Seq<u32>, Error>(e),
            }
        }),
{
    if accessor.component_type == ComponentType::Float && !accessor.normalized
        && byte_stride.is_none() {
        Ok(read_groups(slice, 4, 1, NumConv::Raw32))
    } else {
        Err(unsupported_e(ReaderKind::F32, accessor, byte_stride))
    }
}

/// What the two-wide floating-point reader returns: raw passthrough for
/// unstrided or four-aligned strided float data, and normalized unsigned
/// shorts at an even stride.
pub open spec fn spec_read_f32x2(a: Accessor, st: Option<usize>, s: Seq<u8>) -> Result<
    Seq<u32>,
    Error,
> {
    if a.component_type is Float && !a.normalized && st is None {
        Ok(groups_spec(NumConv::Raw32, s, 8, 2))
    } else if a.component_type is Float && !a.normalized && (st matches Some(v) && v % 4 == 0 && v
        >= 8) {
        Ok(groups_spec(NumConv::Raw32, s, st->Some_0 as int, 2))
    } else if a.component_type is UnsignedShort && a.normalized && (st matches Some(v) && v % 2
        == 0 && v >= 4) {
        Ok(groups_spec(NumConv::UnormShort, s, st->Some_0 as int, 2))
    } else {
        Err(unsupported(ReaderKind::F32x2, a, st))
    }
}

/// Reads two-component elements as floating-point bit patterns, flattened in
/// element-major order.
pub fn read_f32x2(slice: &[u8], byte_stride: Option<usize>, accessor: &Accessor) -> (r: Result<
    Vec<u32>,
    Error,
>)
    ensures
        ({
            let sp = spec_read_f32x2(*accessor, byte_stride, slice@);
            match r {
                Ok(v) => sp == Ok::<Seq<u32>, Error>(v@),
                Err(e) => sp == Err::<Seq<u32>, Error>(e),
            }
        }),
{
    let ct = accessor.component_type;
    let nm = accessor.normalized;
    if ct == ComponentType::Float && !nm && byte_stride.is_none() {
        Ok(read_groups(slice, 8, 2, NumConv::Raw32))
    } else if ct == ComponentType::Float && !nm && stride_multiple_at_least(byte_stride, 4, 8) {
        Ok(read_groups(slice, byte_stride.unwrap(), 2, NumConv::Raw32))
    } else if ct == ComponentType::UnsignedShort && nm && stride_multiple_at_least(
        byte_stride,
        2,
        4,
    ) {
        Ok(read_groups(slice, byte_stride.unwrap(), 2, NumConv::UnormShort))
    } else {
        Err(unsupported_e(ReaderKind::F32x2, accessor, byte_stride))
    }
}

/// What the three-wide floating-point reader returns: raw passthrough for
/// unstrided or naturally strided float data, normalized signed shorts at an
/// even stride, plain or normalized unsigned shorts at the common
/// eight-byte stride, and normalized signed bytes at any stride that holds
/// three of them.
pub open spec fn spec_read_f32x3(a: Accessor, st: Option<usize>, s: Seq<u8>) -> Result<
    Seq<u32>,
    Error,
> {
    if a.component_type is Float && !a.normalized && (st is None || st == Some(12usize)) {
        Ok(groups_spec(NumConv::Raw32, s, 12, 3))
    } else if a.component_type is Short && a.normalized && (st matches Some(v) && v % 2 == 0 && v
        >= 6) {
        Ok(groups_spec(NumConv::SnormShort, s, st->Some_0 as int, 3))
    } else if a.component_type is UnsignedShort && !a.normalized && st == Some(8usize) {
        Ok(groups_spec(NumConv::FloatOfShort, s, 8, 3))
    } else if a.component_type is UnsignedShort && a.normalized && st == Some(8usize) {
        Ok(groups_spec(NumConv::UnormShort, s, 8, 3))
    } else if a.component_type is Byte && a.normalized && (st matches Some(v) && v >= 3) {
        Ok(groups_spec(NumConv::SnormByte, s, st->Some_0 as int, 3))
    } else {
        Err(unsupported(ReaderKind::F32x3, a, st))
    }
}

/// Reads three-component elements as floating-point bit patterns, flattened
/// in element-major order.
pub fn read_f32x3(slice: &[u8], byte_stride: Option<usize>, accessor: &Accessor) -> (r: Result<
    Vec<u32>,
    Error,
>)
    ensures
        ({
            let sp = spec_read_f32x3(*accessor, byte_stride, slice@);
            match r {
                Ok(v) => sp == Ok::<Seq<u32>, Error>(v@),
                Err(e) => sp == Err::<Seq<u32>, Error>(e),
            }
        }),
{
    let ct = accessor.component_type;
    let nm = accessor.normalized;
    if ct == ComponentType::Float && !nm && (byte_stride.is_none() || stride_is(byte_stride, 12)) {
        Ok(read_groups(slice, 12, 3, NumConv::Raw32))
    } else if ct == ComponentType::Short && nm && stride_multiple_at_least(byte_stride, 2, 6) {
        Ok(read_groups(slice, byte_stride.unwrap(), 3, NumConv::SnormShort))
    } else if ct == ComponentType::UnsignedShort && !nm && stride_is(byte_stride, 8) {
        Ok(read_groups(slice, 8, 3, NumConv::FloatOfShort))
    } else if ct == ComponentType::UnsignedShort && nm && stride_is(byte_stride, 8) {
        Ok(read_groups(slice, 8, 3, NumConv::UnormShort))
    } else if ct == ComponentType::Byte && nm && stride_multiple_at_least(byte_stride, 1, 3) {
        Ok(read_groups(slice, byte_stride.unwrap(), 3, NumConv::SnormByte))
    } else {
        Err(unsupported_e(ReaderKind::F32x3, accessor, byte_stride))
    }
}

/// What the four-wide floating-point reader returns: raw passthrough for
/// unstrided float data, normalized unsigned bytes packed four to a group,
/// and normalized signed shorts packed contiguously.
pub open spec fn spec_read_f32x4(a: Accessor, st: Option<usize>, s: Seq<u8>) -> Result<
    Seq<u32>,
    Error,
> {
    if a.component_type is Float && !a.normalized && st is None {
        Ok(groups_spec(NumConv::Raw32, s, 16, 4))
    } else if a.component_type is UnsignedByte && a.normalized && st == Some(4usize) {
        Ok(groups_spec(NumConv::UnormByte, s, 4, 4))
    } else if a.component_type is Short && a.normalized && st is None {
        Ok(groups_spec(NumConv::SnormShort, s, 8, 4))
    } else {
        Err(unsupported(ReaderKind::F32x4, a, st))
    }
}

/// Reads four-component elements as floating-point bit patterns, flattened
/// in element-major order.
pub fn read_f32x4(slice: &[u8], byte_stride: Option<usize>, accessor: &Accessor) -> (r: Result<
    Vec<u32>,
    Error,
>)
    ensures
        ({
            let sp = spec_read_f32x4(*accessor, byte_stride, slice@);
            match r {
                Ok(v) => sp == Ok::<Seq<u32>, Error>(v@),
                Err(e) => sp == Err::<Seq<u32>, Error>(e),
            }
        }),
{
    let ct = accessor.component_type;
    let nm = accessor.normalized;
    if ct == ComponentType::Float && !nm && byte_stride.is_none() {
        Ok(read_groups(slice, 16, 4, NumConv::Raw32))
    } else if ct == ComponentType::UnsignedByte && nm && stride_is(byte_stride, 4) {
        Ok(read_groups(slice, 4, 4, NumConv::UnormByte))
    } else if ct == ComponentType::Short && nm && byte_stride.is_none() {
        Ok(read_groups(slice, 8, 4, NumConv::SnormShort))
    } else {
        Err(unsupported_e(ReaderKind::F32x4, accessor, byte_stride))
    }
}

/// What the scalar unsigned-integer reader returns: unsigned shorts widened
/// without scaling, or unsigned ints taken verbatim; never a reinterpretation
/// of float or normalized data.
pub open spec fn spec_read_u32(a: Accessor, st: Option<usize>, s: Seq<u8>) -> Result<
    Seq<u32>,
    Error,
> {
    if a.component_type is UnsignedShort && !a.normalized && st is None {
        Ok(groups_spec(NumConv::IntOfShort, s, 2, 1))
    } else if a.component_type is UnsignedInt && !a.normalized && st is None {
        Ok(groups_spec(NumConv::Raw32, s, 4, 1))
    } else {
        Err(unsupported(ReaderKind::U32, a, st))
    }
}

/// Reads a flat array of unsigned thirty-two-bit integers.
pub fn read_u32(slice: &[u8], byte_stride: Option<usize>, accessor: &Accessor) -> (r: Result<
    Vec<u32>,
    Error,
>)
    ensures
        ({
            let sp = spec_read_u32(*accessor, byte_stride, slice@);
            match r {
                Ok(v) => sp == Ok::<Seq<u32>, Error>(v@),
                Err(e) => sp == Err::<Seq<u32>, Error>(e),
            }
        }),
{
    let ct = accessor.component_type;
    let nm = accessor.normalized;
    if ct == ComponentType::UnsignedShort && !nm && byte_stride.is_none() {
        Ok(read_groups(slice, 2, 1, NumConv::IntOfShort))
    } else if ct == ComponentType::UnsignedInt && !nm && byte_stride.is_none() {
        Ok(read_groups(slice, 4, 1, NumConv::Raw32))
    } else {
        Err(unsupported_e(ReaderKind::U32, accessor, byte_stride))
    }
}

/// What the four-wide unsigned-integer reader returns: unsigned bytes
/// widened without scaling, four to a group.
pub open spec fn spec_read_u32x4(a: Accessor, st: Option<usize>, s: Seq<u8>) -> Result<
    Seq<u32>,
    Error,
> {
    if a.component_type is UnsignedByte && !a.normalized && (st is None || st == Some(4usize)) {
        Ok(groups_spec(NumConv::IntOfByte, s, 4, 4))
    } else {
        Err(unsupported(ReaderKind::U32x4, a, st))
    }
}

/// Reads four-component elements of unsigned thirty-two-bit integers,
/// flattened in element-major order.
pub fn read_u32x4(slice: &[u8], byte_stride: Option<usize>, accessor: &Accessor) -> (r: Result<
    Vec<u32>,
    Error,
>)
    ensures
        ({
            let sp = spec_read_u32x4(*accessor, byte_stride, slice@);
            match r {
                Ok(v) => sp == Ok::<Seq<u32>, Error>(v@),
                Err(e) => sp == Err::<Seq<u32>, Error>(e),
            }
        }),
{
    let ct = accessor.component_type;
    let nm = accessor.normalized;
    if ct == ComponentType::UnsignedByte && !nm && (byte_stride.is_none() || stride_is(
        byte_stride,
        4,
    )) {
        Ok(read_groups(slice, 4, 4, NumConv::IntOfByte))
    } else {
        Err(unsupported_e(ReaderKind::U32x4, accessor, byte_stride))
    }
}

/// Whether the declared stride is exactly the given value.
fn stride_is(st: Option<usize>, v: usize) -> (r: bool)
    ensures
        r == (st == Some(v)),
{
    match st {
        Some(s) => s == v,
        None => false,
    }
}

/// Whether the declared stride is a positive multiple of `m` of at least
/// `lo` bytes.
fn stride_multiple_at_least(st: Option<usize>, m: usize, lo: usize) -> (r: bool)
    requires
        m >= 1,
    ensures
        r == (st matches Some(v) && v % m == 0 && v >= lo),
{
    match st {
        Some(s) => s % m == 0 && s >= lo,
        None => false,
    }
}

/// The unsupported-combination error, executably.
fn unsupported_e(rk: ReaderKind, a: &Accessor, st: Option<usize>) -> (r: Error)
    ensures
        r == unsupported(rk, *a, st),
{
    Error::UnsupportedCombination(rk, a.component_type, a.normalized, st)
}

/// The outcome of reading one optional attribute of a primitive: absent
/// attributes read as nothing; an accessor index out of range is an error
/// carrying the index; otherwise the accessor's bytes are resolved and
/// handed to the given typed reader.
pub open spec fn spec_primitive_read(
    gltf: Gltf,
    m: Map<usize, Vec<u8>>,
    idx_opt: Option<usize>,
    reader: spec_fn(Accessor, Option<usize>, Seq<u8>) -> Result<Seq<u32>, Error>,
) -> Result<Option<Seq<u32>>, Error> {
    match idx_opt {
        None => Ok(None),
        Some(idx) => if idx >= gltf.accessors@.len() {
            Err(Error::AccessorIndexOutOfBounds(idx))
        } else {
            let a = gltf.accessors@[idx as int];
            if !spec_resolve_ok(gltf, m, a) {
                Err(spec_resolve_err(gltf, m, a))
            } else {
                match reader(a, spec_resolved_stride(gltf, a), spec_resolved_bytes(gltf, m, a)) {
                    Ok(s) => Ok(Some(s)),
                    Err(e) => Err(e),
                }
            }
        },
    }
}

/// Bundles a document, one of its primitives, and the caller-supplied map
/// from buffer-view index to loaded bytes, and offers one typed read per
/// standard vertex attribute.
pub struct PrimitiveReader<'a> {
    pub gltf: &'a Gltf,
    pub primitive: &'a Primitive,
    pub buffer_view_map: &'a HashMap<usize, Vec<u8>>,
}

impl<'a> PrimitiveReader<'a> {
    pub fn new(
        gltf: &'a Gltf,
        primitive: &'a Primitive,
        buffer_view_map: &'a HashMap<usize, Vec<u8>>,
    ) -> (r: Self)
        ensures
            r.gltf == gltf,
            r.primitive == primitive,
            r.buffer_view_map == buffer_view_map,
    {
        PrimitiveReader { gltf, primitive, buffer_view_map }
    }

    /// Reads the primitive's index array, widened to thirty-two bits.
    pub fn read_indices(&self) -> (r: Result<Option<Vec<u32>>, Error>)
        ensures
            ({
                let sp = spec_primitive_read(
                    *self.gltf,
                    self.buffer_view_map@,
                    self.primitive.indices,
                    (|a, st, s| spec_read_u32(a, st, s)),
                );
                match r {
                    Ok(Some(v)) => sp == Ok::<Option<Seq<u32>>, Error>(Some(v@)),
                    Ok(None) => sp == Ok::<Option<Seq<u32>>, Error>(None),
                    Err(e) => sp == Err::<Option<Seq<u32>>, Error>(e),
                }
            }),
    {
        let accessor_index = match self.primitive.indices {
            Some(index) => index,
            None => {
                return Ok(None);
            },
        };
        if accessor_index >= self.gltf.accessors.len() {
            return Err(Error::AccessorIndexOutOfBounds(accessor_index));
        }
        let accessor = &self.gltf.accessors[accessor_index];
        let (slice, byte_stride) = match read_buffer_with_accessor(
            self.buffer_view_map,
            self.gltf,
            accessor,
        ) {
            Ok(p) => p,
            Err(e) => {
                return Err(e);
            },
        };
        match read_u32(slice, byte_stride, accessor) {
            Ok(v) => Ok(Some(v)),
            Err(e) => Err(e),
        }
    }

    /// Reads the primitive's vertex positions.
    pub fn read_positions(&self) -> (r: Result<Option<Vec<u32>>, Error>)
        ensures
            ({
                let sp = spec_primitive_read(
                    *self.gltf,
                    self.buffer_view_map@,
                    self.primitive.attributes.position,
                    (|a, st, s| spec_read_f32x3(a, st, s)),
                );
                match r {
                    Ok(Some(v)) => sp == Ok::<Option<Seq<u32>>, Error>(Some(v@)),
                    Ok(None) => sp == Ok::<Option<Seq<u32>>, Error>(None),
                    Err(e) => sp == Err::<Option<Seq<u32>>, Error>(e),
                }
            }),
    {
        let accessor_index = match self.primitive.attributes.position {
            Some(index) => index,
            None => {
                return Ok(None);
            },
        };
        if accessor_index >= self.gltf.accessors.len() {
            return Err(Error::AccessorIndexOutOfBounds(accessor_index));
        }
        let accessor = &self.gltf.accessors[accessor_index];
        let (slice, byte_stride) = match read_buffer_with_accessor(
            self.buffer_view_map,
            self.gltf,
            accessor,
        ) {
            Ok(p) => p,
            Err(e) => {
                return Err(e);
            },
        };
        match read_f32x3(slice, byte_stride, accessor) {
            Ok(v) => Ok(Some(v)),
            Err(e) => Err(e),
        }
    }

    /// Reads the primitive's vertex normals.
    pub fn read_normals(&self) -> (r: Result<Option<Vec<u32>>, Error>)
        ensures
            ({
                let sp = spec_primitive_read(
                    *self.gltf,
                    self.buffer_view_map@,
                    self.primitive.attributes.normal,
                    (|a, st, s| spec_read_f32x3(a, st, s)),
                );
                match r {
                    Ok(Some(v)) => sp == Ok::<Option<Seq<u32>>, Error>(Some(v@)),
                    Ok(None) => sp == Ok::<Option<Seq<u32>>, Error>(None),
                    Err(e) => sp == Err::<Option<Seq<u32>>, Error>(e),
                }
            }),
    {
        let accessor_index = match self.primitive.attributes.normal {
            Some(index) => index,
            None => {
                return Ok(None);
            },
        };
        if accessor_index >= self.gltf.accessors.len() {
            return Err(Error::AccessorIndexOutOfBounds(accessor_index));
        }
        let accessor = &self.gltf.accessors[accessor_index];
        let (slice, byte_stride) = match read_buffer_with_accessor(
            self.buffer_view_map,
            self.gltf,
            accessor,
        ) {
            Ok(p) => p,
            Err(e) => {
                return Err(e);
            },
        };
        match read_f32x3(slice, byte_stride, accessor) {
            Ok(v) => Ok(Some(v)),
            Err(e) => Err(e),
        }
    }

    /// Reads the primitive's first texture-coordinate set.
    pub fn read_uvs(&self) -> (r: Result<Option<Vec<u32>>, Error>)
        ensures
            ({
                let sp = spec_primitive_read(
                    *self.gltf,
                    self.buffer_view_map@,
                    self.primitive.attributes.texcoord_0,
                    (|a, st, s| spec_read_f32x2(a, st, s)),
                );
                match r {
                    Ok(Some(v)) => sp == Ok::<Option<Seq<u32>>, Error>(Some(v@)),
                    Ok(None) => sp == Ok::<Option<Seq<u32>>, Error>(None),
                    Err(e) => sp == Err::<Option<Seq<u32>>, Error>(e),
                }
            }),
    {
        let accessor_index = match self.primitive.attributes.texcoord_0 {
            Some(index) => index,
            None => {
                return Ok(None);
            },
        };
        if accessor_index >= self.gltf.accessors.len() {
            return Err(Error::AccessorIndexOutOfBounds(accessor_index));
        }
        let accessor = &self.gltf.accessors[accessor_index];
        let (slice, byte_stride) = match read_buffer_with_accessor(
            self.buffer_view_map,
            self.gltf,
            accessor,
        ) {
            Ok(p) => p,
            Err(e) => {
                return Err(e);
            },
        };
        match read_f32x2(slice, byte_stride, accessor) {
            Ok(v) => Ok(Some(v)),
            Err(e) => Err(e),
        }
    }

    /// Reads the primitive's second texture-coordinate set.
    pub fn read_second_uvs(&self) -> (r: Result<Option<Vec<u32>>, Error>)
        ensures
            ({
                let sp = spec_primitive_read(
                    *self.gltf,
                    self.buffer_view_map@,
                    self.primitive.attributes.texcoord_1,
                    (|a, st, s| spec_read_f32x2(a, st, s)),
                );
                match r {
                    Ok(Some(v)) => sp == Ok::<Option<Seq<u32>>, Error>(Some(v@)),
                    Ok(None) => sp == Ok::<Option<Seq<u32>>, Error>(None),
                    Err(e) => sp == Err::<Option<Seq<u32>>, Error>(e),
                }
            }),
    {
        let accessor_index = match self.primitive.attributes.texcoord_1 {
            Some(index) => index,
            None => {
                return Ok(None);
            },
        };
        if accessor_index >= self.gltf.accessors.len() {
            return Err(Error::AccessorIndexOutOfBounds(accessor_index));
        }
        let accessor = &self.gltf.accessors[accessor_index];
        let (slice, byte_stride) = match read_buffer_with_accessor(
            self.buffer_view_map,
            self.gltf,
            accessor,
        ) {
            Ok(p) => p,
            Err(e) => {
                return Err(e);
            },
        };
        match read_f32x2(slice, byte_stride, accessor) {
            Ok(v) => Ok(Some(v)),
            Err(e) => Err(e),
        }
    }

    /// Reads the primitive's joint indices, widened to thirty-two bits.
    pub fn read_joints(&self) -> (r: Result<Option<Vec<u32>>, Error>)
        ensures
            ({
                let sp = spec_primitive_read(
                    *self.gltf,
                    self.buffer_view_map@,
                    self.primitive.attributes.joints_0,
                    (|a, st, s| spec_read_u32x4(a, st, s)),
                );
                match r {
                    Ok(Some(v)) => sp == Ok::<Option<Seq<u32>>, Error>(Some(v@)),
                    Ok(None) => sp == Ok::<Option<Seq<u32>>, Error>(None),
                    Err(e) => sp == Err::<Option<Seq<u32>>, Error>(e),
                }
            }),
    {
        let accessor_index = match self.primitive.attributes.joints_0 {
            Some(index) => index,
            None => {
                return Ok(None);
            },
        };
        if accessor_index >= self.gltf.accessors.len() {
            return Err(Error::AccessorIndexOutOfBounds(accessor_index));
        }
        let accessor = &self.gltf.accessors[accessor_index];
        let (slice, byte_stride) = match read_buffer_with_accessor(
            self.buffer_view_map,
            self.gltf,
            accessor,
        ) {
            Ok(p) => p,
            Err(e) => {
                return Err(e);
            },
        };
        match read_u32x4(slice, byte_stride, accessor) {
            Ok(v) => Ok(Some(v)),
            Err(e) => Err(e),
        }
    }

    /// Reads the primitive's joint weights.
    pub fn read_weights(&self) -> (r: Result<Option<Vec<u32>>, Error>)
        ensures
            ({
                let sp = spec_primitive_read(
                    *self.gltf,
                    self.buffer_view_map@,
                    self.primitive.attributes.weights_0,
                    (|a, st, s| spec_read_f32x4(a, st, s)),
                );
                match r {
                    Ok(Some(v)) => sp == Ok::<Option<Seq<u32>>, Error>(Some(v@)),
                    Ok(None) => sp == Ok::<Option<Seq<u32>>, Error>(None),
                    Err(e) => sp == Err::<Option<Seq<u32>>, Error>(e),
                }
            }),
    {
        let accessor_index = match self.primitive.attributes.weights_0 {
            Some(index) => index,
            None => {
                return Ok(None);
            },
        };
        if accessor_index >= self.gltf.accessors.len() {
            return Err(Error::AccessorIndexOutOfBounds(accessor_index));
        }
        let accessor = &self.gltf.accessors[accessor_index];
        let (slice, byte_stride) = match read_buffer_with_accessor(
            self.buffer_view_map,
            self.gltf,
            accessor,
        ) {
            Ok(p) => p,
            Err(e) => {
                return Err(e);
            },
        };
        match read_f32x4(slice, byte_stride, accessor) {
            Ok(v) => Ok(Some(v)),
            Err(e) => Err(e),
        }
    }
}

} // verus!
