//! The companion composition schema: a small document that assembles
//! several scene documents into one graph.  It shares the node, camera and
//! scene entities with the main document model and adds a list of assets,
//! each naming a document by locator with an optional transform rule.

use vstd::prelude::*;
use crate::json::{GVal, GKind, JVal, JKind, ErrorKind};
use crate::loader::{
    fget, obj_get, oview, obj_of, jget, str_eq, clone_string, get_usize_def, get_opt_string,
    opt_string_view, ok_opt_text, val_opt_text, ok_opt_usize, node_field_ok, node_field_rep,
    parse_node_field, camera_field_ok, camera_field_rep, parse_camera_field, scene_field_ok,
    scene_field_rep, parse_scene_field, root_extensions_ok, root_extensions_rep,
    parse_root_extensions, val_usize_def,
};
use crate::model::{Node, Camera, Scene};
use crate::extensions::RootExtensions;
use crate::container::ParseError;
use crate::json::members_view;

verus! {

/// How an asset's own transform is treated when composed.
#[derive(Debug, Clone, Copy, PartialEq, Eq, Structural)]
pub enum AssetTransform {
    NoTransform,
    Local,
    Global,
}

impl Default for AssetTransform {
    /// Absent transform rules default to global.
    fn default() -> (r: Self)
        ensures
            r == AssetTransform::Global,
    {
        AssetTransform::Global
    }
}

/// One referenced document: its locator, an optional scene or node
/// selection, and the transform rule.
#[derive(Debug, Clone, PartialEq, Eq)]
pub struct Asset {
    pub uri: String,
    pub scene: Option<String>,
    pub nodes: Option<Vec<String>>,
    pub transform: AssetTransform,
}

/// A composition document.
#[derive(Debug, Clone, PartialEq, Eq)]
pub struct Glxf {
    pub assets: Vec<Asset>,
    pub nodes: Vec<Node>,
    pub cameras: Vec<Camera>,
    pub extensions: RootExtensions,
    pub scenes: Vec<Scene>,
    pub scene: usize,
}

/// The enumeration name table for asset transform rules.
pub open spec fn asset_transform_from_name(t: Seq<char>) -> Option<AssetTransform> {
    if t == "none"@ {
        Some(AssetTransform::NoTransform)
    } else if t == "local"@ {
        Some(AssetTransform::Local)
    } else if t == "global"@ {
        Some(AssetTransform::Global)
    } else {
        None
    }
}

pub open spec fn ok_asset_transform(o: Option<GVal>) -> bool {
    match o {
        None => true,
        Some(g) => g.kind matches GKind::Text(t) && asset_transform_from_name(t) is Some,
    }
}

pub open spec fn val_asset_transform(o: Option<GVal>) -> AssetTransform {
    match o {
        None => AssetTransform::Global,
        Some(g) => match g.kind {
            GKind::Text(t) => match asset_transform_from_name(t) {
                Some(m) => m,
                None => AssetTransform::Global,
            },
            _ => AssetTransform::Global,
        },
    }
}

fn get_asset_transform(ms: &Vec<crate::json::JMember>, k: &str) -> (r: Result<
    AssetTransform,
    (ErrorKind, usize),
>)
    ensures
        r is Ok <==> ok_asset_transform(obj_get(members_view(ms@), k@)),
        r matches Ok(v) ==> v == val_asset_transform(obj_get(members_view(ms@), k@)),
{
    match jget(ms, k) {
        None => Ok(AssetTransform::Global),
        Some(v) => match &v.kind {
            JKind::Text(t) => {
                if str_eq(t.as_str(), "none") {
                    Ok(AssetTransform::NoTransform)
                } else if str_eq(t.as_str(), "local") {
                    Ok(AssetTransform::Local)
                } else if str_eq(t.as_str(), "global") {
                    Ok(AssetTransform::Global)
                } else {
                    Err((ErrorKind::BadEnumValue, v.pos))
                }
            },
            _ => Err((ErrorKind::WrongType, v.pos)),
        },
    }
}

/// The characters of every string of a string array.
pub open spec fn arr_texts(es: Seq<GVal>) -> Seq<Seq<char>> {
    Seq::new(
        es.len(),
        |i: int|
            if 0 <= i < es.len() {
                match es[i].kind {
                    GKind::Text(t) => t,
                    _ => Seq::empty(),
                }
            } else {
                Seq::empty()
            },
    )
}

/// The characters of every owned string of a vector.
pub open spec fn strings_view(v: Seq<String>) -> Seq<Seq<char>> {
    Seq::new(
        v.len(),
        |i: int|
            if 0 <= i < v.len() {
                v[i]@
            } else {
                Seq::empty()
            },
    )
}

/// Every entry of the sequence is a string.
pub open spec fn all_texts(es: Seq<GVal>) -> bool {
    forall|i: int| 0 <= i < es.len() ==> (#[trigger] es[i]).kind is Text
}

/// Whether an optional field is, if present, an array of strings.
pub open spec fn ok_opt_text_arr(o: Option<GVal>) -> bool {
    match o {
        None => true,
        Some(g) => g.kind matches GKind::Arr(es) && all_texts(es),
    }
}

pub open spec fn val_opt_text_arr(o: Option<GVal>) -> Option<Seq<Seq<char>>> {
    match o {
        None => None,
        Some(g) => match g.kind {
            GKind::Arr(es) => Some(arr_texts(es)),
            _ => None,
        },
    }
}

pub open spec fn opt_strings_view(v: Option<Vec<String>>) -> Option<Seq<Seq<char>>> {
    match v {
        None => None,
        Some(x) => Some(strings_view(x@)),
    }
}

fn get_opt_string_arr(ms: &Vec<crate::json::JMember>, k: &str) -> (r: Result<
    Option<Vec<String>>,
    (ErrorKind, usize),
>)
    ensures
        r is Ok <==> ok_opt_text_arr(obj_get(members_view(ms@), k@)),
        r matches Ok(v) ==> opt_strings_view(v) == val_opt_text_arr(obj_get(members_view(ms@), k@)),
{
    match jget(ms, k) {
        None => Ok(None),
        Some(v) => match &v.kind {
            JKind::Arr(es) => {
                proof {
                    assert(v@.kind == GKind::Arr(crate::json::elems_view(es@)));
                    assert(crate::json::elems_view(es@).len() == es@.len());
                }
                let mut out: Vec<String> = Vec::new();
                let mut i: usize = 0;
                while i < es.len()
                    invariant
                        obj_get(members_view(ms@), k@) == Some(v@),
                        v@.kind == GKind::Arr(crate::json::elems_view(es@)),
                        crate::json::elems_view(es@).len() == es@.len(),
                        i <= es@.len(),
                        out@.len() == i,
                        forall|j: int|
                            0 <= j < i ==> (#[trigger] crate::json::elems_view(es@)[j]).kind
                                is Text,
                        forall|j: int|
                            0 <= j < i ==> out@[j]@ == arr_texts(crate::json::elems_view(es@))[j],
                    decreases es@.len() - i,
                {
                    proof {
                        assert(crate::json::elems_view(es@)[i as int] == es@[i as int]@);
                    }
                    match &es[i].kind {
                        JKind::Text(t) => {
                            out.push(clone_string(t));
                        },
                        _ => {
                            proof {
                                assert(!(es@[i as int]@.kind is Text));
                                assert(!all_texts(crate::json::elems_view(es@)));
                            }
                            return Err((ErrorKind::WrongType, es[i].pos));
                        },
                    }
                    i = i + 1;
                }
                proof {
                    assert(strings_view(out@) =~= arr_texts(crate::json::elems_view(es@)));
                }
                Ok(Some(out))
            },
            _ => Err((ErrorKind::WrongType, v.pos)),
        },
    }
}

/// One referenced document entry.
pub open spec fn asset_ok(g: GVal) -> bool {
    &&& g.kind is Obj
    &&& fget(g, "uri"@) matches Some(u) && u.kind is Text
    &&& ok_opt_text(fget(g, "scene"@))
    &&& ok_opt_text_arr(fget(g, "nodes"@))
    &&& ok_asset_transform(fget(g, "transform"@))
}

pub open spec fn asset_rep(x: Asset, g: GVal) -> bool {
    &&& Some(x.uri@) == val_opt_text(fget(g, "uri"@))
    &&& opt_string_view(x.scene) == val_opt_text(fget(g, "scene"@))
    &&& opt_strings_view(x.nodes) == val_opt_text_arr(fget(g, "nodes"@))
    &&& x.transform == val_asset_transform(fget(g, "transform"@))
}

fn parse_asset(v: &JVal) -> (r: Result<Asset, (ErrorKind, usize)>)
    ensures
        r is Ok <==> asset_ok(v@),
        r matches Ok(x) ==> asset_rep(x, v@),
{
    let ms = obj_of(v)?;
    let uri = match get_opt_string(ms, "uri")? {
        Some(u) => u,
        None => {
            return Err((ErrorKind::MissingField, v.pos));
        },
    };
    let scene = get_opt_string(ms, "scene")?;
    let nodes = get_opt_string_arr(ms, "nodes")?;
    let transform = get_asset_transform(ms, "transform")?;
    Ok(Asset { uri, scene, nodes, transform })
}

pub open spec fn all_assets_ok(es: Seq<GVal>) -> bool {
    forall|i: int| 0 <= i < es.len() ==> asset_ok(#[trigger] es[i])
}

pub open spec fn assets_field_ok(o: Option<GVal>) -> bool {
    match o {
        None => true,
        Some(g) => g.kind matches GKind::Arr(es) && all_assets_ok(es),
    }
}

pub open spec fn assets_field_rep(xs: Seq<Asset>, o: Option<GVal>) -> bool {
    match o {
        None => xs.len() == 0,
        Some(g) => g.kind matches GKind::Arr(es) && xs.len() == es.len() && (forall|i: int|
            0 <= i < es.len() ==> asset_rep(#[trigger] xs[i], es[i])),
    }
}

fn parse_assets_field(o: Option<&JVal>) -> (r: Result<Vec<Asset>, (ErrorKind, usize)>)
    ensures
        r is Ok <==> assets_field_ok(oview(o)),
        r matches Ok(v) ==> assets_field_rep(v@, oview(o)),
{
    match o {
        None => Ok(Vec::new()),
        Some(v) => match &v.kind {
            JKind::Arr(es) => {
                proof {
                    assert(v@.kind == GKind::Arr(crate::json::elems_view(es@)));
                    assert(crate::json::elems_view(es@).len() == es@.len());
                }
                let mut out: Vec<Asset> = Vec::new();
                let mut i: usize = 0;
                while i < es.len()
                    invariant
                        oview(o) == Some(v@),
                        v@.kind == GKind::Arr(crate::json::elems_view(es@)),
                        crate::json::elems_view(es@).len() == es@.len(),
                        i <= es@.len(),
                        out@.len() == i,
                        forall|j: int|
                            0 <= j < i ==> asset_ok(#[trigger] crate::json::elems_view(es@)[j]),
                        forall|j: int|
                            0 <= j < i ==> asset_rep(
                                #[trigger] out@[j],
                                crate::json::elems_view(es@)[j],
                            ),
                    decreases es@.len() - i,
                {
                    proof {
                        assert(crate::json::elems_view(es@)[i as int] == es@[i as int]@);
                    }
                    match parse_asset(&es[i]) {
                        Ok(x) => {
                            out.push(x);
                        },
                        Err(e) => {
                            proof {
                                assert(!asset_ok(crate::json::elems_view(es@)[i as int]));
                                assert(!all_assets_ok(crate::json::elems_view(es@)));
                            }
                            return Err(e);
                        },
                    }
                    i = i + 1;
                }
                Ok(out)
            },
            _ => Err((ErrorKind::WrongType, v.pos)),
        },
    }
}

/// A whole composition document.
pub open spec fn glxf_ok(g: GVal) -> bool {
    &&& g.kind is Obj
    &&& assets_field_ok(fget(g, "assets"@))
    &&& node_field_ok(fget(g, "nodes"@))
    &&& camera_field_ok(fget(g, "cameras"@))
    &&& root_extensions_ok(fget(g, "extensions"@))
    &&& scene_field_ok(fget(g, "scenes"@))
    &&& ok_opt_usize(fget(g, "scene"@))
}

pub open spec fn glxf_rep(x: Glxf, g: GVal) -> bool {
    &&& assets_field_rep(x.assets@, fget(g, "assets"@))
    &&& node_field_rep(x.nodes@, fget(g, "nodes"@))
    &&& camera_field_rep(x.cameras@, fget(g, "cameras"@))
    &&& root_extensions_rep(x.extensions, fget(g, "extensions"@))
    &&& scene_field_rep(x.scenes@, fget(g, "scenes"@))
    &&& x.scene == val_usize_def(fget(g, "scene"@), 0)
}

fn parse_glxf(v: &JVal) -> (r: Result<Glxf, (ErrorKind, usize)>)
    ensures
        r is Ok <==> glxf_ok(v@),
        r matches Ok(x) ==> glxf_rep(x, v@),
{
    let ms = obj_of(v)?;
    let assets = parse_assets_field(jget(ms, "assets"))?;
    let nodes = parse_node_field(jget(ms, "nodes"))?;
    let cameras = parse_camera_field(jget(ms, "cameras"))?;
    let extensions = parse_root_extensions(jget(ms, "extensions"))?;
    let scenes = parse_scene_field(jget(ms, "scenes"))?;
    let scene = get_usize_def(ms, "scene", 0)?;
    Ok(Glxf { assets, nodes, cameras, extensions, scenes, scene })
}

/// Whether a character sequence is one well-formed composition document.
pub open spec fn glxf_doc_ok(chars: Seq<char>) -> bool {
    crate::json::spec_parse_json(chars) matches Ok(g) && glxf_ok(g)
}

/// Pins a composition document to the characters it was parsed from.
pub open spec fn glxf_doc_rep(chars: Seq<char>, x: Glxf) -> bool {
    crate::json::spec_parse_json(chars) matches Ok(g) && glxf_rep(x, g)
}

impl Glxf {
    /// Parses a composition document from its text.
    pub fn from_json_string(string: &str) -> (r: Result<Glxf, ParseError>)
        ensures
            r is Ok <==> glxf_doc_ok(string@),
            r matches Ok(x) ==> glxf_doc_rep(string@, x),
    {
        let chars = crate::json::chars_of_str(string);
        match crate::json::parse_json_chars(&chars) {
            Err((kind, off)) => {
                let off2 = if off > chars.len() {
                    chars.len()
                } else {
                    off
                };
                let (line, col) = crate::container::line_col_of(&chars, off2);
                Err(ParseError { kind, offset: off2, line, col })
            },
            Ok(v) => match parse_glxf(&v) {
                Ok(x) => Ok(x),
                Err((kind, off)) => {
                    let off2 = if off > chars.len() {
                        chars.len()
                    } else {
                        off
                    };
                    let (line, col) = crate::container::line_col_of(&chars, off2);
                    Err(ParseError { kind, offset: off2, line, col })
                },
            },
        }
    }
}

} // verus!
