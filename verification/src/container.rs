//! Container framing and the document entry points.
//!
//! The binary container starts with the four magic bytes, a version word and
//! a file-size word, then chunks, each behind an eight-byte chunk header.
//! The first chunk holds the document text; its length stands at byte
//! offset twelve, and its bytes span offsets twenty up to twenty plus that
//! length.  Anything after it is a second chunk whose header is skipped and
//! whose body is the binary buffer.  A declared length that exceeds the
//! input is a framing error, never an out-of-bounds read.  Input without
//! the magic is the document text itself.

use vstd::prelude::*;
use vstd::utf8::{valid_utf8, encode_utf8, decode_utf8, encode_utf8_decode_utf8};
use vstd::string::StringSliceAdditionalSpecFns;
use crate::json::{ErrorKind, spec_parse_json};
use crate::loader::{gltf_ok, gltf_rep, parse_gltf};
use crate::model::Gltf;
use crate::primitive_reader::le32_at;

verus! {

/// A loading failure: what went wrong and where, as a byte-or-character
/// offset with its one-based line and column.  Container-level failures
/// carry no line or column and report zero for both.
#[derive(Debug, Clone, Copy, PartialEq, Eq, Structural)]
pub struct ParseError {
    pub kind: ErrorKind,
    pub offset: usize,
    pub line: usize,
    pub col: usize,
}

/// One-based line of a character offset: one more than the newlines before
/// it.
pub open spec fn line_of(s: Seq<char>, off: int) -> int
    decreases off,
{
    if off <= 0 {
        1
    } else {
        line_of(s, off - 1) + (if 0 < off <= s.len() && s[off - 1] == '\n' {
            1int
        } else {
            0int
        })
    }
}

/// One-based column of a character offset: its distance to the last newline
/// before it.
pub open spec fn col_of(s: Seq<char>, off: int) -> int
    decreases off,
{
    if off <= 0 {
        1
    } else if 0 < off <= s.len() && s[off - 1] == '\n' {
        1
    } else {
        col_of(s, off - 1) + 1
    }
}

/// Line and column stay within one past the offset.
pub proof fn lemma_line_col_bounds(s: Seq<char>, off: int)
    requires
        0 <= off,
    ensures
        1 <= line_of(s, off) <= off + 1,
        1 <= col_of(s, off) <= off + 1,
    decreases off,
{
    if off > 0 {
        lemma_line_col_bounds(s, off - 1);
    }
}

/// Both coordinates of an offset, executably.
pub(crate) fn line_col_of(s: &Vec<char>, off: usize) -> (r: (usize, usize))
    requires
        off <= s@.len(),
    ensures
        r.0 == line_of(s@, off as int) as usize,
        r.1 == col_of(s@, off as int) as usize,
{
    let mut line: u128 = 1;
    let mut col: u128 = 1;
    let mut i: usize = 0;
    while i < off
        invariant
            i <= off <= s@.len(),
            line as int == line_of(s@, i as int),
            col as int == col_of(s@, i as int),
            line as int <= i + 1,
            col as int <= i + 1,
        decreases off - i,
    {
        proof {
            lemma_line_col_bounds(s@, i as int + 1);
        }
        if s[i] == '\n' {
            line = line + 1;
            col = 1;
        } else {
            col = col + 1;
        }
        i = i + 1;
    }
    (#[verifier::truncate] (line as usize), #[verifier::truncate] (col as usize))
}

/// Whether the input bears the container magic.
pub open spec fn is_glb(b: Seq<u8>) -> bool {
    b.len() >= 4 && b[0] == 0x67u8 && b[1] == 0x6Cu8 && b[2] == 0x54u8 && b[3] == 0x46u8
}

/// The container's declared text-chunk length.
pub open spec fn glb_json_len(b: Seq<u8>) -> int
    recommends
        b.len() >= 16,
{
    le32_at(b, 12) as int
}

/// Whether the container's declared lengths stay within the input: the
/// header and text chunk fit, and whatever follows the text chunk has room
/// for a chunk header of its own.
pub open spec fn glb_ok(b: Seq<u8>) -> bool {
    &&& b.len() >= 20
    &&& 20 + glb_json_len(b) <= b.len()
    &&& (b.len() == 20 + glb_json_len(b) || 20 + glb_json_len(b) + 8 <= b.len())
}

/// The text chunk of a well-framed container.
pub open spec fn glb_json_chunk(b: Seq<u8>) -> Seq<u8>
    recommends
        glb_ok(b),
{
    b.subrange(20, 20 + glb_json_len(b))
}

/// The binary chunk of a well-framed container, when one follows.
pub open spec fn glb_bin_chunk(b: Seq<u8>) -> Option<Seq<u8>>
    recommends
        glb_ok(b),
{
    if b.len() == 20 + glb_json_len(b) {
        None
    } else {
        Some(b.subrange(20 + glb_json_len(b) + 8, b.len() as int))
    }
}

/// Whether a character sequence is one well-formed document.
pub open spec fn json_doc_ok(chars: Seq<char>) -> bool {
    spec_parse_json(chars) matches Ok(g) && gltf_ok(g)
}

/// Pins a document to the character sequence it was parsed from.
pub open spec fn json_doc_rep(chars: Seq<char>, x: Gltf) -> bool {
    spec_parse_json(chars) matches Ok(g) && gltf_rep(x, g)
}

/// Whether a byte sequence is UTF-8 holding one well-formed document.
pub open spec fn bytes_doc_ok(b: Seq<u8>) -> bool {
    valid_utf8(b) && json_doc_ok(decode_utf8(b))
}

/// Pins a document to the byte sequence it was parsed from.
pub open spec fn bytes_doc_rep(b: Seq<u8>, x: Gltf) -> bool {
    valid_utf8(b) && json_doc_rep(decode_utf8(b), x)
}

/// The error a failed syntax-level parse reports, with its position's line
/// and column.
pub open spec fn syntax_err_of(chars: Seq<char>, k: ErrorKind, off: int) -> ParseError {
    let o = if off > chars.len() {
        chars.len() as int
    } else {
        off
    };
    ParseError { kind: k, offset: o as usize, line: line_of(chars, o) as usize, col: col_of(
        chars,
        o,
    ) as usize }
}

/// Relies on `std::str::from_utf8`: well-formed UTF-8 converts, with the
/// string's bytes being exactly the input; anything else is refused.
#[verifier::external_body]
fn utf8_to_str<'a>(v: &'a [u8]) -> (r: Option<&'a str>)
    ensures
        r matches Some(s) ==> s.spec_bytes() == v@ && valid_utf8(v@),
        r is None ==> !valid_utf8(v@),
{
    std::str::from_utf8(v).ok()
}

impl Gltf {
    /// Parses a document from its text.  Succeeds exactly on well-formed
    /// documents; the result is pinned, field by field, to the parsed value.
    pub fn from_json_string(string: &str) -> (r: Result<Gltf, ParseError>)
        ensures
            r is Ok <==> json_doc_ok(string@),
            r matches Ok(x) ==> json_doc_rep(string@, x),
            spec_parse_json(string@) matches Err(e) ==> r == Err::<Gltf, ParseError>(
                syntax_err_of(string@, e.0, e.1),
            ),
    {
        let chars = crate::json::chars_of_str(string);
        match crate::json::parse_json_chars(&chars) {
            Err((kind, off)) => {
                let off2 = if off > chars.len() {
                    chars.len()
                } else {
                    off
                };
                let (line, col) = line_col_of(&chars, off2);
                Err(ParseError { kind, offset: off2, line, col })
            },
            Ok(v) => match parse_gltf(&v) {
                Ok(x) => Ok(x),
                Err((kind, off)) => {
                    let off2 = if off > chars.len() {
                        chars.len()
                    } else {
                        off
                    };
                    let (line, col) = line_col_of(&chars, off2);
                    Err(ParseError { kind, offset: off2, line, col })
                },
            },
        }
    }

    /// Parses a document from bytes, which must be well-formed UTF-8 text.
    pub fn from_json_bytes(bytes: &[u8]) -> (r: Result<Gltf, ParseError>)
        ensures
            r is Ok <==> bytes_doc_ok(bytes@),
            r matches Ok(x) ==> bytes_doc_rep(bytes@, x),
            !valid_utf8(bytes@) ==> r == Err::<Gltf, ParseError>(
                ParseError { kind: ErrorKind::InvalidUtf8, offset: 0, line: 0, col: 0 },
            ),
    {
        match utf8_to_str(bytes) {
            None => Err(ParseError { kind: ErrorKind::InvalidUtf8, offset: 0, line: 0, col: 0 }),
            Some(s) => {
                proof {
                    broadcast use encode_utf8_decode_utf8;

                    assert(encode_utf8(s@) == bytes@);
                    assert(decode_utf8(bytes@) == s@);
                }
                Self::from_json_string(s)
            },
        }
    }

    /// Loads a document from either file variant.  Input bearing the
    /// container magic is framed: the text chunk is parsed and the binary
    /// chunk, when present, is returned alongside; framing that oversteps
    /// the input is an error.  Input without the magic is parsed whole.
    pub fn from_bytes<'a>(bytes: &'a [u8]) -> (r: Result<(Gltf, Option<&'a [u8]>), ParseError>)
        ensures
            !is_glb(bytes@) ==> {
                &&& (r is Ok <==> bytes_doc_ok(bytes@))
                &&& (r matches Ok(p) ==> bytes_doc_rep(bytes@, p.0) && p.1 is None)
            },
            is_glb(bytes@) && !glb_ok(bytes@) ==> r == Err::<(Gltf, Option<&'a [u8]>), ParseError>(
                ParseError {
                    kind: ErrorKind::UnexpectedEnd,
                    offset: if bytes@.len() < usize::MAX {
                        bytes@.len() as usize
                    } else {
                        usize::MAX
                    },
                    line: 0,
                    col: 0,
                },
            ),
            is_glb(bytes@) && glb_ok(bytes@) ==> {
                &&& (r is Ok <==> bytes_doc_ok(glb_json_chunk(bytes@)))
                &&& (r matches Ok(p) ==> bytes_doc_rep(glb_json_chunk(bytes@), p.0) && (match p.1 {
                    Some(bin) => glb_bin_chunk(bytes@) == Some(bin@),
                    None => glb_bin_chunk(bytes@) is None,
                }))
            },
    {
        let n = bytes.len();
        let magic = n >= 4 && bytes[0] == 0x67 && bytes[1] == 0x6C && bytes[2] == 0x54 && bytes[3]
            == 0x46;
        if !magic {
            return match Self::from_json_bytes(bytes) {
                Ok(x) => Ok((x, None)),
                Err(e) => Err(e),
            };
        }
        if n < 20 {
            return Err(
                ParseError { kind: ErrorKind::UnexpectedEnd, offset: n, line: 0, col: 0 },
            );
        }
        let json_chunk_length: usize = bytes[12] as usize + bytes[13] as usize * 0x100 + bytes[14]
            as usize * 0x1_0000 + bytes[15] as usize * 0x100_0000;
        proof {
            assert(json_chunk_length as int == glb_json_len(bytes@));
        }
        if n - 20 < json_chunk_length {
            return Err(
                ParseError { kind: ErrorKind::UnexpectedEnd, offset: n, line: 0, col: 0 },
            );
        }
        let json_chunk_end = 20 + json_chunk_length;
        if n != json_chunk_end && n - json_chunk_end < 8 {
            return Err(
                ParseError { kind: ErrorKind::UnexpectedEnd, offset: n, line: 0, col: 0 },
            );
        }
        let json_chunk_bytes = &bytes[20..json_chunk_end];
        let doc = match Self::from_json_bytes(json_chunk_bytes) {
            Ok(x) => x,
            Err(e) => {
                return Err(e);
            },
        };
        let binary_buffer: Option<&[u8]> = if n != json_chunk_end {
            Some(&bytes[json_chunk_end + 8..n])
        } else {
            None
        };
        Ok((doc, binary_buffer))
    }
}

/// Every document a loading entry point returns is well formed: the model's
/// fixed-width tuple invariants hold of it.
pub proof fn lemma_loading_yields_well_formed(chars: Seq<char>, x: Gltf)
    requires
        json_doc_ok(chars),
        json_doc_rep(chars, x),
    ensures
        x.wf(),
{
    let g = spec_parse_json(chars)->Ok_0;
    crate::loader::lemma_loaded_document_well_formed(x, g);
}

/// Framing does not alter parsed content: the document a well-framed
/// container loads to and the document its text chunk alone loads to are
/// pinned by the same parse, so they agree observably (see
/// [`crate::loader::lemma_gltf_rep_determined`]).
pub proof fn lemma_container_framing_content(b: Seq<u8>, d1: Gltf, d2: Gltf)
    requires
        is_glb(b),
        glb_ok(b),
        bytes_doc_rep(glb_json_chunk(b), d1),
        bytes_doc_rep(glb_json_chunk(b), d2),
    ensures
        crate::loader::gltf_obs_eq(d1, d2),
{
    let chars = decode_utf8(glb_json_chunk(b));
    let g = spec_parse_json(chars)->Ok_0;
    crate::loader::lemma_gltf_rep_determined(d1, d2, g);
}

} // verus!
