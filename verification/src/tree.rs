//! Building a project from the markup events of its document.
//!
//! The document is walked once, front to back. A shape is read by a descent
//! of its own, which ends behind the tag that closes the shape; shapes that
//! share a vertex or primitive list by its id get their copy of it from a
//! cache that is filled in document order.

use crate::log::{append_log, log_view, push_log, push_warning};
use crate::number::{
    digit_is_numeral, is_numeral, parse_i32, push_signed, signed, signed_decimal,
};
use crate::parser::{
    bad_transform, is_transform, numeral_or_zero, numeral_or_zero_is_numeral, parse_prim_list,
    parse_vert_list_with_log, parse_xform_with_log, prim_list, to_numeral, vert_list,
    verts_are_numeric, vertex_warnings, xform_is_numeric, xform_of,
};
use crate::text::{chars_of, string_of, text_eq};
use crate::types::{
    all_numeric, clone_prims, clone_verts, identity_xform, Bitmap, CutSetting, CutSettingView,
    Ellipse, Group, LightBurnProject, Path, PathPrimitive, PathView, ProjectView, Rect, Shape,
    ShapeView, Vec2, Vec2View, XForm, XFormView,
};
use crate::xml::{events_of, read_events, XmlEvent, XmlEventView};
use std::collections::HashMap;
use vstd::prelude::*;

verus! {

/// The attributes of a tag, in document order.
pub type Attributes = Seq<(Seq<char>, Seq<char>)>;

/// The value of the last attribute with the given key.
pub open spec fn last_value(attributes: Attributes, key: Seq<char>) -> Option<Seq<char>>
    decreases attributes.len(),
{
    if attributes.len() == 0 {
        None
    } else if attributes.last().0 == key {
        Some(attributes.last().1)
    } else {
        last_value(attributes.drop_last(), key)
    }
}

/// The value of the last attribute with the given key.
fn attribute<'a>(attributes: &'a Vec<(String, String)>, key: &str) -> (value: Option<&'a String>)
    ensures
        match value {
            Some(v) => last_value(attributes.deep_view(), key@) == Some(v@),
            None => last_value(attributes.deep_view(), key@) is None,
        },
{
    let mut i: usize = attributes.len();
    assert(attributes.deep_view().take(i as int) =~= attributes.deep_view());
    while i > 0
        invariant
            i <= attributes.len(),
            last_value(attributes.deep_view(), key@) == last_value(
                attributes.deep_view().take(i as int),
                key@,
            ),
        decreases i,
    {
        proof {
            assert(attributes.deep_view().take(i as int).drop_last() =~= attributes.deep_view().take(
                i - 1,
            ));
            assert(attributes.deep_view().take(i as int).last() == attributes.deep_view()[i - 1]);
        }
        i -= 1;
        if text_eq(attributes[i].0.as_str(), key) {
            return Some(&attributes[i].1);
        }
    }
    None
}

/// The number written by an attribute value; 0 where it writes none.
pub open spec fn i32_or_zero(value: Seq<char>) -> i32 {
    match signed_decimal(value, i32::MIN as int, i32::MAX as int) {
        Some(v) => v as i32,
        None => 0,
    }
}

/// The number written by an attribute value, if it writes one.
pub open spec fn i32_of(value: Seq<char>) -> Option<i32> {
    match signed_decimal(value, i32::MIN as int, i32::MAX as int) {
        Some(v) => Some(v as i32),
        None => None,
    }
}

/// Reads the number that an attribute value writes.
fn read_i32(value: &str) -> (r: Option<i32>)
    ensures
        r == i32_of(value@),
{
    let chars = chars_of(value);
    parse_i32(chars.as_slice())
}

/// What a `Shape` or `BackupPath` tag says.
pub struct ShapeAttrs {
    pub shape_type: String,
    pub cut_index: i32,
    pub w: String,
    pub h: String,
    pub cr: String,
    pub rx: String,
    pub ry: String,
    pub vert_id: Option<i32>,
    pub prim_id: Option<i32>,
    pub has_backup_path: bool,
    pub data: String,
    /// The tag is a `BackupPath` that names no type: it stands for the
    /// shape inside it.
    pub wraps: bool,
}

/// The mathematical value of [`ShapeAttrs`].
pub struct ShapeAttrsView {
    pub shape_type: Seq<char>,
    pub cut_index: i32,
    pub w: Seq<char>,
    pub h: Seq<char>,
    pub cr: Seq<char>,
    pub rx: Seq<char>,
    pub ry: Seq<char>,
    pub vert_id: Option<i32>,
    pub prim_id: Option<i32>,
    pub has_backup_path: bool,
    pub data: Seq<char>,
    pub wraps: bool,
}

impl DeepView for ShapeAttrs {
    type V = ShapeAttrsView;

    open spec fn deep_view(&self) -> ShapeAttrsView {
        ShapeAttrsView {
            shape_type: self.shape_type@,
            cut_index: self.cut_index,
            w: self.w@,
            h: self.h@,
            cr: self.cr@,
            rx: self.rx@,
            ry: self.ry@,
            vert_id: self.vert_id,
            prim_id: self.prim_id,
            has_backup_path: self.has_backup_path,
            data: self.data@,
            wraps: self.wraps,
        }
    }
}

/// The text of an attribute; empty where the tag has none with the key.
pub open spec fn text_attr(attributes: Attributes, key: Seq<char>) -> Seq<char> {
    match last_value(attributes, key) {
        Some(v) => v,
        None => Seq::empty(),
    }
}

/// The numeral of an attribute; `0` where the tag has none with the key or
/// its value is no numeral.
pub open spec fn numeral_attr(attributes: Attributes, key: Seq<char>) -> Seq<char> {
    match last_value(attributes, key) {
        Some(v) => numeral_or_zero(v),
        None => seq!['0'],
    }
}

/// The integer of an attribute; 0 where the tag has none with the key or
/// its value writes no integer.
pub open spec fn i32_attr(attributes: Attributes, key: Seq<char>) -> i32 {
    match last_value(attributes, key) {
        Some(v) => i32_or_zero(v),
        None => 0,
    }
}

/// The id that an attribute gives, if the tag has it and it writes one.
pub open spec fn id_attr(attributes: Attributes, key: Seq<char>) -> Option<i32> {
    match last_value(attributes, key) {
        Some(v) => i32_of(v),
        None => None,
    }
}

/// What the attributes of a `Shape` tag say.
pub open spec fn shape_attrs(attributes: Attributes) -> ShapeAttrsView {
    ShapeAttrsView {
        shape_type: text_attr(attributes, "Type"@),
        cut_index: i32_attr(attributes, "CutIndex"@),
        w: numeral_attr(attributes, "W"@),
        h: numeral_attr(attributes, "H"@),
        cr: numeral_attr(attributes, "Cr"@),
        rx: numeral_attr(attributes, "Rx"@),
        ry: numeral_attr(attributes, "Ry"@),
        vert_id: id_attr(attributes, "VertID"@),
        prim_id: id_attr(attributes, "PrimID"@),
        has_backup_path: last_value(attributes, "HasBackupPath"@) == Some("1"@),
        data: text_attr(attributes, "Data"@),
        wraps: false,
    }
}

/// What a tag that opens a shape says. A `BackupPath` gives the shape
/// itself where it names a type, as a `Shape` does; where it names none it
/// stands for the shape inside it.
pub open spec fn tag_attrs(name: Seq<char>, attributes: Attributes) -> ShapeAttrsView {
    let attrs = shape_attrs(attributes);
    ShapeAttrsView { wraps: name == "BackupPath"@ && attrs.shape_type.len() == 0, ..attrs }
}

/// The value of the attribute `key` as text, empty where it is not set.
fn read_text(attributes: &Vec<(String, String)>, key: &str) -> (s: String)
    ensures
        s@ == text_attr(attributes.deep_view(), key@),
{
    match attribute(attributes, key) {
        Some(v) => v.clone(),
        None => String::new(),
    }
}

/// The value of the attribute `key` as a numeral, `0` where it is not set or
/// no numeral.
fn read_numeral(attributes: &Vec<(String, String)>, key: &str) -> (s: String)
    ensures
        s@ == numeral_attr(attributes.deep_view(), key@),
{
    match attribute(attributes, key) {
        Some(v) => {
            let chars = chars_of(v.as_str());
            to_numeral(chars.as_slice())
        },
        None => {
            proof {
                reveal_strlit("0");
                assert("0"@ =~= seq!['0']);
            }
            String::from_str("0")
        },
    }
}

/// The value of the attribute `key` as a number, 0 where it is not set or
/// no number.
fn read_index(attributes: &Vec<(String, String)>, key: &str) -> (v: i32)
    ensures
        v == i32_attr(attributes.deep_view(), key@),
{
    match attribute(attributes, key) {
        Some(v) => match read_i32(v.as_str()) {
            Some(n) => n,
            None => 0,
        },
        None => 0,
    }
}

/// The value of the attribute `key` as an id, if it is set and a number.
fn read_id(attributes: &Vec<(String, String)>, key: &str) -> (v: Option<i32>)
    ensures
        v == id_attr(attributes.deep_view(), key@),
{
    match attribute(attributes, key) {
        Some(v) => read_i32(v.as_str()),
        None => None,
    }
}

/// Reads what the attributes of a `Shape` tag say.
fn read_shape_attrs(attributes: &Vec<(String, String)>) -> (attrs: ShapeAttrs)
    ensures
        attrs.deep_view() == shape_attrs(attributes.deep_view()),
{
    let has_backup_path = match attribute(attributes, "HasBackupPath") {
        Some(v) => text_eq(v.as_str(), "1"),
        None => false,
    };
    ShapeAttrs {
        shape_type: read_text(attributes, "Type"),
        cut_index: read_index(attributes, "CutIndex"),
        w: read_numeral(attributes, "W"),
        h: read_numeral(attributes, "H"),
        cr: read_numeral(attributes, "Cr"),
        rx: read_numeral(attributes, "Rx"),
        ry: read_numeral(attributes, "Ry"),
        vert_id: read_id(attributes, "VertID"),
        prim_id: read_id(attributes, "PrimID"),
        has_backup_path,
        data: read_text(attributes, "Data"),
        wraps: false,
    }
}

/// Reads what a tag that opens a shape says.
fn read_tag_attrs(name: &String, attributes: &Vec<(String, String)>) -> (attrs: ShapeAttrs)
    ensures
        attrs.deep_view() == tag_attrs(name@, attributes.deep_view()),
{
    let mut attrs = read_shape_attrs(attributes);
    attrs.wraps = text_eq(name.as_str(), "BackupPath") && attrs.shape_type.as_str().is_empty();
    attrs
}

/// The shape that a `Shape` tag without a body stands for, and the notes
/// behind it: the shape of its attributes with nothing gathered for it.
pub open spec fn empty_shape(attributes: Attributes, caches: CachesView) -> (
    Option<ShapeView>,
    CachesView,
) {
    finish_shape(shape_attrs(attributes), start_state(shape_attrs(attributes)), caches)
}

/// What is kept while a document is read: the lists that shapes share by
/// id, as far as the document has defined them, and the warnings given so
/// far.
pub struct Caches {
    pub verts: HashMap<i32, (String, Vec<Vec2>)>,
    pub prims: HashMap<i32, (String, Vec<PathPrimitive>)>,
    pub warnings: Vec<String>,
}

/// The mathematical value of [`Caches`]: for each id the text of the list
/// and what it decodes to, and the warnings.
pub struct CachesView {
    pub verts: Map<i32, (Seq<char>, Seq<Vec2View>)>,
    pub prims: Map<i32, (Seq<char>, Seq<PathPrimitive>)>,
    pub warnings: Seq<Seq<char>>,
}

/// The value of a cache of vertex lists.
pub open spec fn verts_view(cache: Map<i32, (String, Vec<Vec2>)>) -> Map<
    i32,
    (Seq<char>, Seq<Vec2View>),
> {
    Map::new(|k: i32| cache.contains_key(k), |k: i32| (cache[k].0@, cache[k].1.deep_view()))
}

/// The value of a cache of primitive lists.
pub open spec fn prims_view(cache: Map<i32, (String, Vec<PathPrimitive>)>) -> Map<
    i32,
    (Seq<char>, Seq<PathPrimitive>),
> {
    Map::new(|k: i32| cache.contains_key(k), |k: i32| (cache[k].0@, cache[k].1@))
}

impl DeepView for Caches {
    type V = CachesView;

    open spec fn deep_view(&self) -> CachesView {
        CachesView {
            verts: verts_view(self.verts@),
            prims: prims_view(self.prims@),
            warnings: log_view(self.warnings@),
        }
    }
}

/// No list defined yet and no warning given.
pub open spec fn no_caches() -> CachesView {
    CachesView { verts: Map::empty(), prims: Map::empty(), warnings: Seq::empty() }
}

impl CachesView {
    /// The same with one more warning.
    pub open spec fn warned(self, warning: Seq<char>) -> CachesView {
        CachesView { warnings: self.warnings.push(warning), ..self }
    }
}

/// What has been gathered of a shape while its body is read.
pub struct BodyState {
    pub xform: XFormView,
    pub vert_list: Seq<char>,
    pub prim_list: Seq<char>,
    pub data: Seq<char>,
    pub children: Seq<ShapeView>,
    pub backup: Option<ShapeView>,
    /// How many tags are open, the shape's own included.
    pub depth: int,
    /// The name of the tag opened last, empty behind a closing tag.
    pub current_tag: Seq<char>,
    pub in_children: bool,
    /// The body is that of a `BackupPath` that stands for the shape inside
    /// it.
    pub wraps: bool,
}

/// The state at the start of a shape's body.
pub open spec fn start_state(attrs: ShapeAttrsView) -> BodyState {
    BodyState {
        xform: identity_xform(),
        vert_list: Seq::empty(),
        prim_list: Seq::empty(),
        data: attrs.data,
        children: Seq::empty(),
        backup: None,
        depth: 1,
        current_tag: Seq::empty(),
        in_children: false,
        wraps: attrs.wraps,
    }
}

/// The position to go on from behind a nested descent that was called at
/// `at`, started behind it and stopped at `next`: that is `next`, which
/// lies behind `at` and within the `len` events.
pub open spec fn resume(at: int, next: int, len: int) -> int {
    if at < next <= len {
        next
    } else {
        at + 1
    }
}

/// The state after character data has been read.
pub open spec fn with_text(st: BodyState, text: Seq<char>) -> BodyState {
    if st.current_tag == "XForm"@ {
        BodyState { xform: xform_of(text), ..st }
    } else if st.current_tag == "VertList"@ {
        BodyState { vert_list: text, ..st }
    } else if st.current_tag == "PrimList"@ {
        BodyState { prim_list: text, ..st }
    } else if st.current_tag == "Data"@ {
        BodyState { data: text, ..st }
    } else {
        st
    }
}

/// What is kept after character data has been read: there is a warning
/// more where the data stands for a transform and writes none.
pub open spec fn text_noted(st: BodyState, text: Seq<char>, caches: CachesView) -> CachesView {
    if st.current_tag == "XForm"@ && !is_transform(text) {
        caches.warned(bad_transform(text))
    } else {
        caches
    }
}

/// The state after a shape without a body has been read: it is kept as a
/// child where it stands among the children, as the backup where it stands
/// right inside a `BackupPath` that names no type, and dropped elsewhere.
pub open spec fn with_child(st: BodyState, shape: Option<ShapeView>) -> BodyState {
    match shape {
        Some(s) => if st.in_children {
            BodyState { children: st.children.push(s), ..st }
        } else if st.wraps {
            BodyState { backup: Some(s), ..st }
        } else {
            st
        },
        None => st,
    }
}

/// The state after a nested shape has been read under the tag `name`. A
/// backup path is kept as such; a shape is kept as a child where it stands
/// among the children, as the backup where it stands right inside a
/// `BackupPath` that names no type, and dropped elsewhere.
pub open spec fn with_nested(st: BodyState, name: Seq<char>, shape: Option<ShapeView>) -> BodyState {
    let st = BodyState { current_tag: name, ..st };
    match shape {
        Some(s) => if name == "BackupPath"@ {
            BodyState { backup: Some(s), ..st }
        } else {
            with_child(st, shape)
        },
        None => st,
    }
}

/// The vertex list of a shape: decoded from its own text where it has one
/// and then filed under its id, else copied from the cache by its id, else
/// empty.
pub open spec fn resolve_verts(
    text: Seq<char>,
    id: Option<i32>,
    cache: Map<i32, (Seq<char>, Seq<Vec2View>)>,
) -> (Seq<char>, Seq<Vec2View>, Map<i32, (Seq<char>, Seq<Vec2View>)>) {
    if text.len() > 0 {
        let verts = vert_list(text);
        (
            text,
            verts,
            match id {
                Some(k) => cache.insert(k, (text, verts)),
                None => cache,
            },
        )
    } else {
        match id {
            Some(k) => if cache.contains_key(k) {
                (cache[k].0, cache[k].1, cache)
            } else {
                (Seq::empty(), Seq::empty(), cache)
            },
            None => (Seq::empty(), Seq::empty(), cache),
        }
    }
}

/// The primitives that the text of a primitive list stands for; none for
/// `LineClosed`, which names the closed polyline through all vertices.
pub open spec fn prims_of(text: Seq<char>) -> Seq<PathPrimitive> {
    if text == "LineClosed"@ {
        Seq::empty()
    } else {
        prim_list(text)
    }
}

/// The primitive list of a shape, found as its vertex list is.
pub open spec fn resolve_prims(
    text: Seq<char>,
    id: Option<i32>,
    cache: Map<i32, (Seq<char>, Seq<PathPrimitive>)>,
) -> (Seq<char>, Seq<PathPrimitive>, Map<i32, (Seq<char>, Seq<PathPrimitive>)>) {
    if text.len() > 0 {
        let prims = prims_of(text);
        (
            text,
            prims,
            match id {
                Some(k) => cache.insert(k, (text, prims)),
                None => cache,
            },
        )
    } else {
        match id {
            Some(k) => if cache.contains_key(k) {
                (cache[k].0, cache[k].1, cache)
            } else {
                (Seq::empty(), Seq::empty(), cache)
            },
            None => (Seq::empty(), Seq::empty(), cache),
        }
    }
}

/// The shape of the given type, if there is one to make: a path needs a
/// vertex, a group needs a child, and an unknown type gives nothing.
pub open spec fn make_shape(
    attrs: ShapeAttrsView,
    st: BodyState,
    vert_text: Seq<char>,
    verts: Seq<Vec2View>,
    prim_text: Seq<char>,
    prims: Seq<PathPrimitive>,
) -> Option<ShapeView> {
    if attrs.shape_type == "Rect"@ {
        Some(
            ShapeView::Rect {
                cut_index: attrs.cut_index,
                xform: st.xform,
                w: attrs.w,
                h: attrs.h,
                cr: attrs.cr,
            },
        )
    } else if attrs.shape_type == "Ellipse"@ {
        Some(
            ShapeView::Ellipse {
                cut_index: attrs.cut_index,
                xform: st.xform,
                rx: attrs.rx,
                ry: attrs.ry,
            },
        )
    } else if attrs.shape_type == "Path"@ {
        if verts.len() == 0 {
            None
        } else {
            Some(
                ShapeView::Path(
                    PathView {
                        cut_index: attrs.cut_index,
                        xform: st.xform,
                        vert_list: vert_text,
                        prim_list: prim_text,
                        parsed_verts: verts,
                        parsed_primitives: prims,
                    },
                ),
            )
        }
    } else if attrs.shape_type == "Bitmap"@ {
        Some(
            ShapeView::Bitmap {
                cut_index: attrs.cut_index,
                xform: st.xform,
                w: attrs.w,
                h: attrs.h,
                data: st.data,
            },
        )
    } else if attrs.shape_type == "Group"@ {
        if st.children.len() == 0 {
            None
        } else {
            Some(
                ShapeView::Group {
                    cut_index: attrs.cut_index,
                    xform: st.xform,
                    children: st.children,
                },
            )
        }
    } else {
        None
    }
}

/// The warning for a vertex list that is named by its id before it is
/// defined.
pub open spec fn missing_vertex_list(id: i32) -> Seq<char> {
    "Vertex data for VertID="@ + signed(id as int) + " not found in cache"@
}

/// The warning for a primitive list that is named by its id before it is
/// defined.
pub open spec fn missing_primitive_list(id: i32) -> Seq<char> {
    "Primitive data for PrimID="@ + signed(id as int) + " not found in cache"@
}

/// The warning for a path that is left out for want of vertices.
pub open spec fn empty_path() -> Seq<char> {
    "Path shape has no vertices after resolution, skipping"@
}

/// The warning for a group that is left out for want of children.
pub open spec fn empty_group() -> Seq<char> {
    "Group shape has no children, skipping"@
}

/// The warning for a `BackupPath` that names no type and holds no shape.
pub open spec fn empty_backup() -> Seq<char> {
    "BackupPath holds no shape, skipping"@
}

/// The warning for a shape that is left out because its type is not known.
pub open spec fn unknown_type(shape_type: Seq<char>) -> Seq<char> {
    "Unknown shape type \""@ + shape_type + "\", skipping"@
}

/// The warnings given while the vertex list of a shape is found: those of
/// decoding its text, or that the list its id names is not defined.
pub open spec fn vertex_list_warnings(
    text: Seq<char>,
    id: Option<i32>,
    cache: Map<i32, (Seq<char>, Seq<Vec2View>)>,
) -> Seq<Seq<char>> {
    if text.len() > 0 {
        vertex_warnings(text)
    } else {
        match id {
            Some(k) => if cache.contains_key(k) {
                Seq::empty()
            } else {
                seq![missing_vertex_list(k)]
            },
            None => Seq::empty(),
        }
    }
}

/// The warnings given while the primitive list of a shape is found: that
/// the list its id names is not defined.
pub open spec fn primitive_list_warnings(
    text: Seq<char>,
    id: Option<i32>,
    cache: Map<i32, (Seq<char>, Seq<PathPrimitive>)>,
) -> Seq<Seq<char>> {
    if text.len() > 0 {
        Seq::empty()
    } else {
        match id {
            Some(k) => if cache.contains_key(k) {
                Seq::empty()
            } else {
                seq![missing_primitive_list(k)]
            },
            None => Seq::empty(),
        }
    }
}

/// Whether shapes of the type are known.
pub open spec fn is_known_type(shape_type: Seq<char>) -> bool {
    shape_type == "Rect"@ || shape_type == "Ellipse"@ || shape_type == "Path"@ || shape_type
        == "Bitmap"@ || shape_type == "Group"@
}

/// The warnings given while a shape is made: that a path has no vertex,
/// that a group has no child, or that the type of the shape is not known.
pub open spec fn making_warnings(
    attrs: ShapeAttrsView,
    st: BodyState,
    verts: Seq<Vec2View>,
) -> Seq<Seq<char>> {
    if attrs.shape_type == "Path"@ && verts.len() == 0 {
        seq![empty_path()]
    } else if attrs.shape_type == "Group"@ && st.children.len() == 0 {
        seq![empty_group()]
    } else if !is_known_type(attrs.shape_type) {
        seq![unknown_type(attrs.shape_type)]
    } else {
        Seq::empty()
    }
}

/// The shape that a body stands for once it has been read, and what is kept
/// behind it. A `BackupPath` that names no type stands for the shape inside
/// it, with a warning where there is none. A text shape with a backup path
/// is replaced by that path and leaves what is kept as it is.
pub open spec fn finish_shape(attrs: ShapeAttrsView, st: BodyState, caches: CachesView) -> (
    Option<ShapeView>,
    CachesView,
) {
    if attrs.wraps {
        (
            st.backup,
            if st.backup is Some {
                caches
            } else {
                caches.warned(empty_backup())
            },
        )
    } else if attrs.shape_type == "Text"@ && attrs.has_backup_path && st.backup is Some {
        (st.backup, caches)
    } else {
        let (vert_text, verts, vert_cache) = resolve_verts(st.vert_list, attrs.vert_id, caches.verts);
        let (prim_text, prims, prim_cache) = resolve_prims(st.prim_list, attrs.prim_id, caches.prims);
        (
            make_shape(attrs, st, vert_text, verts, prim_text, prims),
            CachesView {
                verts: vert_cache,
                prims: prim_cache,
                warnings: caches.warnings + vertex_list_warnings(
                    st.vert_list,
                    attrs.vert_id,
                    caches.verts,
                ) + primitive_list_warnings(st.prim_list, attrs.prim_id, caches.prims)
                    + making_warnings(attrs, st, verts),
            },
        )
    }
}

/// A shape as it has been read: the shape if it was kept, the position
/// behind it, and the caches as it leaves them.
pub struct ShapeEnd {
    pub shape: Option<ShapeView>,
    pub next: int,
    pub caches: CachesView,
}

/// A body as it has been read.
pub struct BodyEnd {
    pub state: BodyState,
    pub next: int,
    pub caches: CachesView,
}

/// What is wrong with a document that ends while a tag is open.
pub open spec fn unclosed() -> Seq<char> {
    "document ends inside an open element"@
}

/// What is wrong with a document that closes a tag that is not open.
pub open spec fn unopened() -> Seq<char> {
    "closing tag without an opening tag"@
}

/// The message that reports a malformed document inside a shape.
pub open spec fn shape_error(message: Seq<char>) -> Seq<char> {
    "Error parsing Shape: "@ + message
}

/// Reads the shape whose body starts at `at`.
pub open spec fn shape_from(
    events: Seq<XmlEventView>,
    at: int,
    attrs: ShapeAttrsView,
    caches: CachesView,
) -> Result<ShapeEnd, Seq<char>>
    decreases events.len() - at, 1int,
{
    match body_from(events, at, start_state(attrs), caches) {
        Err(e) => Err(e),
        Ok(body) => {
            let (shape, caches) = finish_shape(attrs, body.state, body.caches);
            Ok(ShapeEnd { shape, next: body.next, caches })
        },
    }
}

/// Reads the body of a shape from `at` on, starting from the state `st`.
///
/// The body ends behind the closing tag that brings the depth to zero. A
/// document that ends before that is malformed.
pub open spec fn body_from(
    events: Seq<XmlEventView>,
    at: int,
    st: BodyState,
    caches: CachesView,
) -> Result<BodyEnd, Seq<char>>
    decreases events.len() - at, 0int,
{
    if at < 0 || at >= events.len() {
        Err(shape_error(unclosed()))
    } else {
        match events[at] {
            XmlEventView::Start { name, attributes } => {
                if name == "Children"@ {
                    body_from(
                        events,
                        at + 1,
                        BodyState {
                            depth: st.depth + 1,
                            current_tag: name,
                            in_children: true,
                            ..st
                        },
                        caches,
                    )
                } else if name == "BackupPath"@ || name == "Shape"@ {
                    match shape_from(events, at + 1, tag_attrs(name, attributes), caches) {
                        Err(e) => Err(e),
                        Ok(nested) => body_from(
                            events,
                            resume(at, nested.next, events.len() as int),
                            with_nested(st, name, nested.shape),
                            nested.caches,
                        ),
                    }
                } else {
                    body_from(
                        events,
                        at + 1,
                        BodyState { depth: st.depth + 1, current_tag: name, ..st },
                        caches,
                    )
                }
            },
            XmlEventView::Empty { name, attributes } => {
                if name == "Shape"@ {
                    let (shape, caches) = empty_shape(attributes, caches);
                    body_from(events, at + 1, with_child(st, shape), caches)
                } else {
                    body_from(events, at + 1, st, caches)
                }
            },
            XmlEventView::Text { text } => body_from(
                events,
                at + 1,
                with_text(st, text),
                text_noted(st, text, caches),
            ),
            XmlEventView::End { name } => {
                let st = BodyState {
                    depth: st.depth - 1,
                    current_tag: Seq::empty(),
                    in_children: st.in_children && name != "Children"@,
                    ..st
                };
                if st.depth == 0 {
                    Ok(BodyEnd { state: st, next: at + 1, caches })
                } else {
                    body_from(events, at + 1, st, caches)
                }
            },
            XmlEventView::Eof => Err(shape_error(unclosed())),
            XmlEventView::Error { message } => Err(shape_error(message)),
            XmlEventView::Other => body_from(events, at + 1, st, caches),
        }
    }
}

/// The message that reports a malformed document inside a cut setting.
pub open spec fn cut_setting_error(message: Seq<char>) -> Seq<char> {
    "Error parsing CutSetting: "@ + message
}

/// The index after an `index` tag has been read: the number that the last
/// `Value` attribute writes, 0 where it writes none, unchanged without such
/// an attribute or under any other tag.
pub open spec fn with_index(index: i32, name: Seq<char>, attributes: Attributes) -> i32 {
    if name == "index"@ {
        match last_value(attributes, "Value"@) {
            Some(v) => i32_or_zero(v),
            None => index,
        }
    } else {
        index
    }
}

/// Reads a cut setting from `at` on, with `depth` tags open and `index`
/// found so far; gives the index and the position behind the cut setting.
pub open spec fn cut_setting_from(events: Seq<XmlEventView>, at: int, depth: int, index: i32)
    -> Result<(i32, int), Seq<char>>
    decreases events.len() - at,
{
    if at < 0 || at >= events.len() {
        Err(cut_setting_error(unclosed()))
    } else {
        match events[at] {
            XmlEventView::Start { name, attributes } => cut_setting_from(
                events,
                at + 1,
                depth + 1,
                with_index(index, name, attributes),
            ),
            XmlEventView::Empty { name, attributes } => cut_setting_from(
                events,
                at + 1,
                depth,
                with_index(index, name, attributes),
            ),
            XmlEventView::End { name } => if depth - 1 == 0 {
                Ok((index, at + 1))
            } else {
                cut_setting_from(events, at + 1, depth - 1, index)
            },
            XmlEventView::Eof => Err(cut_setting_error(unclosed())),
            XmlEventView::Error { message } => Err(cut_setting_error(message)),
            _ => cut_setting_from(events, at + 1, depth, index),
        }
    }
}

/// The cut setting with the given index. Name, colour and stroke width are
/// not read from the document.
pub open spec fn cut_setting(index: i32) -> CutSettingView {
    CutSettingView { index, name: Seq::empty(), color: None, stroke_width: None }
}

/// The message that reports a malformed document outside shapes and cut
/// settings.
pub open spec fn document_error(message: Seq<char>) -> Seq<char> {
    "XML parsing error: "@ + message
}

/// The project with the versions that a `LightBurnProject` tag gives; a
/// version that the tag does not give stays as it is.
pub open spec fn with_versions(project: ProjectView, attributes: Attributes) -> ProjectView {
    ProjectView {
        app_version: match last_value(attributes, "AppVersion"@) {
            Some(v) => v,
            None => project.app_version,
        },
        format_version: match last_value(attributes, "FormatVersion"@) {
            Some(v) => v,
            None => project.format_version,
        },
        ..project
    }
}

/// The project with one more shape, if there is one.
pub open spec fn with_shape(project: ProjectView, shape: Option<ShapeView>) -> ProjectView {
    match shape {
        Some(s) => ProjectView { shapes: project.shapes.push(s), ..project },
        None => project,
    }
}

/// Reads the document from `at` on into `project`, with `depth` tags open
/// outside shapes and cut settings; gives the project and the warnings.
///
/// The document ends well where no tag is open. One that ends before that,
/// or closes a tag that is not open, is malformed.
pub open spec fn project_from(
    events: Seq<XmlEventView>,
    at: int,
    depth: nat,
    project: ProjectView,
    caches: CachesView,
) -> Result<(ProjectView, Seq<Seq<char>>), Seq<char>>
    decreases events.len() - at,
{
    if at < 0 || at >= events.len() {
        document_end(depth, project, caches)
    } else {
        match events[at] {
            XmlEventView::Start { name, attributes } => {
                if name == "LightBurnProject"@ {
                    project_from(
                        events,
                        at + 1,
                        depth + 1,
                        with_versions(project, attributes),
                        caches,
                    )
                } else if name == "CutSetting"@ {
                    match cut_setting_from(events, at + 1, 1, 0) {
                        Err(e) => Err(e),
                        Ok((index, next)) => project_from(
                            events,
                            resume(at, next, events.len() as int),
                            depth,
                            ProjectView {
                                cut_settings: project.cut_settings.push(cut_setting(index)),
                                ..project
                            },
                            caches,
                        ),
                    }
                } else if name == "Shape"@ {
                    match shape_from(events, at + 1, shape_attrs(attributes), caches) {
                        Err(e) => Err(e),
                        Ok(nested) => project_from(
                            events,
                            resume(at, nested.next, events.len() as int),
                            depth,
                            with_shape(project, nested.shape),
                            nested.caches,
                        ),
                    }
                } else {
                    project_from(events, at + 1, depth + 1, project, caches)
                }
            },
            XmlEventView::Empty { name, attributes } => {
                if name == "Shape"@ {
                    let (shape, caches) = empty_shape(attributes, caches);
                    project_from(events, at + 1, depth, with_shape(project, shape), caches)
                } else {
                    project_from(events, at + 1, depth, project, caches)
                }
            },
            XmlEventView::End { name } => if depth == 0 {
                Err(document_error(unopened()))
            } else {
                project_from(events, at + 1, (depth - 1) as nat, project, caches)
            },
            XmlEventView::Eof => document_end(depth, project, caches),
            XmlEventView::Error { message } => Err(document_error(message)),
            _ => project_from(events, at + 1, depth, project, caches),
        }
    }
}

/// What the end of the document gives with `depth` tags open: the project
/// where none is, else the message that the document is cut short.
pub open spec fn document_end(depth: nat, project: ProjectView, caches: CachesView) -> Result<
    (ProjectView, Seq<Seq<char>>),
    Seq<char>,
> {
    if depth == 0 {
        Ok((project, caches.warnings))
    } else {
        Err(document_error(unclosed()))
    }
}

/// A project without versions, cut settings or shapes.
pub open spec fn empty_project() -> ProjectView {
    ProjectView {
        app_version: Seq::empty(),
        format_version: Seq::empty(),
        cut_settings: Seq::empty(),
        shapes: Seq::empty(),
    }
}

/// The project that a list of events stands for, and the warnings given
/// on the way; or the message that reports the first malformed place.
pub open spec fn reading_of(events: Seq<XmlEventView>) -> Result<
    (ProjectView, Seq<Seq<char>>),
    Seq<char>,
> {
    project_from(events, 0, 0, empty_project(), no_caches())
}

/// The project that a list of events stands for, or the message that
/// reports the first malformed place.
pub open spec fn project_of(events: Seq<XmlEventView>) -> Result<ProjectView, Seq<char>> {
    match reading_of(events) {
        Ok((project, warnings)) => Ok(project),
        Err(e) => Err(e),
    }
}


/// Whether every one of the shapes is sound: no group among them or below
/// them is empty, no path is without vertices, and every number is a
/// numeral.
pub open spec fn all_sound(shapes: Seq<ShapeView>) -> bool {
    forall|i: int| 0 <= i < shapes.len() ==> (#[trigger] shapes[i]).is_sound()
}

/// Whether every number that the attributes of a shape give is a numeral.
pub open spec fn attrs_numeric(attrs: ShapeAttrsView) -> bool {
    is_numeral(attrs.w) && is_numeral(attrs.h) && is_numeral(attrs.cr) && is_numeral(attrs.rx)
        && is_numeral(attrs.ry)
}

/// Whether what has been gathered of a shape is sound.
pub open spec fn state_sound(st: BodyState) -> bool {
    st.xform.is_numeric() && all_sound(st.children) && match st.backup {
        Some(b) => b.is_sound(),
        None => true,
    }
}

/// Whether every coordinate of every vertex list that is kept is a
/// numeral.
pub open spec fn caches_sound(caches: CachesView) -> bool {
    forall|k: i32| #[trigger] caches.verts.contains_key(k) ==> all_numeric(caches.verts[k].1)
}

/// Every number that the attributes of a tag give for a shape is a numeral.
pub proof fn attrs_are_numeric(attributes: Attributes)
    ensures
        attrs_numeric(shape_attrs(attributes)),
{
    digit_is_numeral('0');
    assert forall|key: Seq<char>| is_numeral(#[trigger] numeral_attr(attributes, key)) by {
        match last_value(attributes, key) {
            Some(v) => numeral_or_zero_is_numeral(v),
            None => {},
        }
    }
}

/// The shape that is made of what has been gathered is sound if what has
/// been gathered is, and what is kept stays sound.
pub proof fn finished_is_sound(attrs: ShapeAttrsView, st: BodyState, caches: CachesView)
    requires
        attrs_numeric(attrs),
        state_sound(st),
        caches_sound(caches),
    ensures
        match finish_shape(attrs, st, caches).0 {
            Some(s) => s.is_sound(),
            None => true,
        },
        caches_sound(finish_shape(attrs, st, caches).1),
{
    if st.vert_list.len() > 0 {
        verts_are_numeric(st.vert_list, 0);
    }
    let (vert_text, verts, vert_cache) = resolve_verts(st.vert_list, attrs.vert_id, caches.verts);
    assert(all_numeric(verts));
    assert forall|k: i32| #[trigger] vert_cache.contains_key(k) implies all_numeric(
        vert_cache[k].1,
    ) by {
        if caches.verts.contains_key(k) {
        }
    }
}

/// A shape that is read from a document is sound, and what is kept stays
/// sound.
pub proof fn shape_is_sound(
    events: Seq<XmlEventView>,
    at: int,
    attrs: ShapeAttrsView,
    caches: CachesView,
)
    requires
        attrs_numeric(attrs),
        caches_sound(caches),
    ensures
        match shape_from(events, at, attrs, caches) {
            Ok(end) => caches_sound(end.caches) && match end.shape {
                Some(s) => s.is_sound(),
                None => true,
            },
            Err(_) => true,
        },
    decreases events.len() - at, 1int,
{
    let st = start_state(attrs);
    start_is_sound(attrs);
    body_is_sound(events, at, st, caches);
    match body_from(events, at, st, caches) {
        Ok(body) => finished_is_sound(attrs, body.state, body.caches),
        Err(_) => {},
    }
}

/// Nothing gathered yet is sound.
pub proof fn start_is_sound(attrs: ShapeAttrsView)
    ensures
        state_sound(start_state(attrs)),
{
    xform_is_numeric(Seq::empty());
    digit_is_numeral('0');
    digit_is_numeral('1');
}

/// The shape of a tag without a body is sound, and what is kept stays
/// sound.
pub proof fn empty_shape_is_sound(attributes: Attributes, caches: CachesView)
    requires
        caches_sound(caches),
    ensures
        caches_sound(empty_shape(attributes, caches).1),
        match empty_shape(attributes, caches).0 {
            Some(s) => s.is_sound(),
            None => true,
        },
{
    let attrs = shape_attrs(attributes);
    attrs_are_numeric(attributes);
    start_is_sound(attrs);
    finished_is_sound(attrs, start_state(attrs), caches);
}

/// What is gathered of a shape, and what is kept, stay sound while its body
/// is read.
pub proof fn body_is_sound(
    events: Seq<XmlEventView>,
    at: int,
    st: BodyState,
    caches: CachesView,
)
    requires
        state_sound(st),
        caches_sound(caches),
    ensures
        match body_from(events, at, st, caches) {
            Ok(body) => state_sound(body.state) && caches_sound(body.caches),
            Err(_) => true,
        },
    decreases events.len() - at, 0int,
{
    if 0 <= at < events.len() {
        match events[at] {
            XmlEventView::Start { name, attributes } => {
                if name == "Children"@ {
                    body_is_sound(
                        events,
                        at + 1,
                        BodyState {
                            depth: st.depth + 1,
                            current_tag: name,
                            in_children: true,
                            ..st
                        },
                        caches,
                    );
                } else if name == "BackupPath"@ || name == "Shape"@ {
                    attrs_are_numeric(attributes);
                    shape_is_sound(events, at + 1, tag_attrs(name, attributes), caches);
                    match shape_from(events, at + 1, tag_attrs(name, attributes), caches) {
                        Err(e) => {},
                        Ok(nested) => {
                            let next = with_nested(st, name, nested.shape);
                            assert(state_sound(next));
                            body_is_sound(
                                events,
                                resume(at, nested.next, events.len() as int),
                                next,
                                nested.caches,
                            );
                        },
                    }
                } else {
                    body_is_sound(
                        events,
                        at + 1,
                        BodyState { depth: st.depth + 1, current_tag: name, ..st },
                        caches,
                    );
                }
            },
            XmlEventView::Empty { name, attributes } => {
                if name == "Shape"@ {
                    empty_shape_is_sound(attributes, caches);
                    let (shape, kept) = empty_shape(attributes, caches);
                    let next = with_child(st, shape);
                    assert(state_sound(next));
                    body_is_sound(events, at + 1, next, kept);
                } else {
                    body_is_sound(events, at + 1, st, caches);
                }
            },
            XmlEventView::Text { text } => {
                xform_is_numeric(text);
                body_is_sound(
                    events,
                    at + 1,
                    with_text(st, text),
                    text_noted(st, text, caches),
                );
            },
            XmlEventView::End { name } => {
                let next = BodyState {
                    depth: st.depth - 1,
                    current_tag: Seq::empty(),
                    in_children: st.in_children && name != "Children"@,
                    ..st
                };
                if next.depth != 0 {
                    body_is_sound(events, at + 1, next, caches);
                }
            },
            XmlEventView::Eof => {},
            XmlEventView::Error { message } => {},
            XmlEventView::Other => {
                body_is_sound(events, at + 1, st, caches);
            },
        }
    }
}

/// The shapes of a project, and what is kept, stay sound while the document
/// is read.
pub proof fn rest_is_sound(
    events: Seq<XmlEventView>,
    at: int,
    depth: nat,
    project: ProjectView,
    caches: CachesView,
)
    requires
        all_sound(project.shapes),
        caches_sound(caches),
    ensures
        match project_from(events, at, depth, project, caches) {
            Ok((p, warnings)) => all_sound(p.shapes),
            Err(_) => true,
        },
    decreases events.len() - at,
{
    if 0 <= at < events.len() {
        match events[at] {
            XmlEventView::Start { name, attributes } => {
                if name == "LightBurnProject"@ {
                    rest_is_sound(
                        events,
                        at + 1,
                        depth + 1,
                        with_versions(project, attributes),
                        caches,
                    );
                } else if name == "CutSetting"@ {
                    match cut_setting_from(events, at + 1, 1, 0) {
                        Err(e) => {},
                        Ok((index, next)) => {
                            rest_is_sound(
                                events,
                                resume(at, next, events.len() as int),
                                depth,
                                ProjectView {
                                    cut_settings: project.cut_settings.push(cut_setting(index)),
                                    ..project
                                },
                                caches,
                            );
                        },
                    }
                } else if name == "Shape"@ {
                    attrs_are_numeric(attributes);
                    shape_is_sound(events, at + 1, shape_attrs(attributes), caches);
                    match shape_from(events, at + 1, shape_attrs(attributes), caches) {
                        Err(e) => {},
                        Ok(nested) => {
                            let next = with_shape(project, nested.shape);
                            assert(all_sound(next.shapes));
                            rest_is_sound(
                                events,
                                resume(at, nested.next, events.len() as int),
                                depth,
                                next,
                                nested.caches,
                            );
                        },
                    }
                } else {
                    rest_is_sound(events, at + 1, depth + 1, project, caches);
                }
            },
            XmlEventView::Empty { name, attributes } => {
                if name == "Shape"@ {
                    empty_shape_is_sound(attributes, caches);
                    let (shape, kept) = empty_shape(attributes, caches);
                    let next = with_shape(project, shape);
                    assert(all_sound(next.shapes));
                    rest_is_sound(events, at + 1, depth, next, kept);
                } else {
                    rest_is_sound(events, at + 1, depth, project, caches);
                }
            },
            XmlEventView::End { name } => {
                if depth > 0 {
                    rest_is_sound(events, at + 1, (depth - 1) as nat, project, caches);
                }
            },
            XmlEventView::Eof => {},
            XmlEventView::Error { message } => {},
            _ => {
                rest_is_sound(events, at + 1, depth, project, caches);
            },
        }
    }
}

/// Whatever the events, the project built from them holds no empty group
/// and no path without vertices, at any depth, and every number in it is a
/// numeral.
pub proof fn project_is_sound(events: Seq<XmlEventView>)
    ensures
        match reading_of(events) {
            Ok((p, warnings)) => all_sound(p.shapes),
            Err(_) => true,
        },
{
    rest_is_sound(events, 0, 0, empty_project(), no_caches());
}

impl Caches {
    /// The caches at the start of a document.
    pub fn new() -> (caches: Caches)
        ensures
            caches.deep_view() == no_caches(),
    {
        let caches = Caches {
            verts: HashMap::new(),
            prims: HashMap::new(),
            warnings: Vec::new(),
        };
        assert(caches.deep_view().verts =~= Map::empty());
        assert(caches.deep_view().prims =~= Map::empty());
        assert(caches.deep_view().warnings =~= Seq::empty());
        caches
    }
}

/// What has been gathered of a shape while its body is read; see
/// [`BodyState`].
pub struct Body {
    pub xform: XForm,
    pub vert_list: String,
    pub prim_list: String,
    pub data: String,
    pub children: Vec<Shape>,
    pub backup: Option<Shape>,
    /// How many tags are open; wide enough for any number of events.
    pub depth: u128,
    pub current_tag: String,
    pub in_children: bool,
    pub wraps: bool,
}

impl DeepView for Body {
    type V = BodyState;

    open spec fn deep_view(&self) -> BodyState {
        BodyState {
            xform: self.xform.deep_view(),
            vert_list: self.vert_list@,
            prim_list: self.prim_list@,
            data: self.data@,
            children: self.children.deep_view(),
            backup: self.backup.deep_view(),
            depth: self.depth as int,
            current_tag: self.current_tag@,
            in_children: self.in_children,
            wraps: self.wraps,
        }
    }
}

/// Writes a warning that names an id between two texts.
fn id_warning(before: &str, id: i32, behind: &str) -> (m: String)
    ensures
        m@ == before@ + signed(id as int) + behind@,
{
    let mut digits: Vec<char> = Vec::new();
    push_signed(&mut digits, id as i64);
    assert(digits@ =~= signed(id as int));
    let mut m = String::from_str(before);
    m.append(string_of(digits.as_slice()).as_str());
    m.append(behind);
    m
}

/// Finds the vertex list of a shape: decodes its own text and files it under
/// its id, or looks the id up.
fn resolve_vertices(
    text: String,
    id: Option<i32>,
    cache: &mut HashMap<i32, (String, Vec<Vec2>)>,
    warnings: &mut Vec<String>,
) -> (r: (String, Vec<Vec2>))
    ensures
        (r.0@, r.1.deep_view(), verts_view(final(cache)@)) == resolve_verts(
            text@,
            id,
            verts_view(old(cache)@),
        ),
        log_view(final(warnings)@) == log_view(old(warnings)@) + vertex_list_warnings(
            text@,
            id,
            verts_view(old(cache)@),
        ),
{
    broadcast use vstd::std_specs::hash::group_hash_axioms;

    let ghost before = verts_view(cache@);
    let ghost noted = log_view(warnings@);
    if !text.as_str().is_empty() {
        let verts = parse_vert_list_with_log(text.as_str(), warnings);
        match id {
            Some(k) => {
                let kept = text.clone();
                let copy = clone_verts(&verts);
                cache.insert(k, (kept, copy));
                assert(verts_view(cache@) =~= before.insert(k, (text@, verts.deep_view())));
            },
            None => {},
        }
        (text, verts)
    } else {
        match id {
            Some(k) => match cache.get(&k) {
                Some(entry) => {
                    assert(noted + Seq::<Seq<char>>::empty() =~= noted);
                    (entry.0.clone(), clone_verts(&entry.1))
                },
                None => {
                    let m = id_warning("Vertex data for VertID=", k, " not found in cache");
                    push_log(warnings, m);
                    assert(noted + seq![missing_vertex_list(k)] =~= noted.push(
                        missing_vertex_list(k),
                    ));
                    (String::new(), Vec::new())
                },
            },
            None => {
                assert(noted + Seq::<Seq<char>>::empty() =~= noted);
                (String::new(), Vec::new())
            },
        }
    }
}

/// Finds the primitive list of a shape, as its vertex list is found.
fn resolve_primitives(
    text: String,
    id: Option<i32>,
    cache: &mut HashMap<i32, (String, Vec<PathPrimitive>)>,
    warnings: &mut Vec<String>,
) -> (r: (String, Vec<PathPrimitive>))
    ensures
        (r.0@, r.1@, prims_view(final(cache)@)) == resolve_prims(
            text@,
            id,
            prims_view(old(cache)@),
        ),
        log_view(final(warnings)@) == log_view(old(warnings)@) + primitive_list_warnings(
            text@,
            id,
            prims_view(old(cache)@),
        ),
{
    broadcast use vstd::std_specs::hash::group_hash_axioms;

    let ghost before = prims_view(cache@);
    let ghost noted = log_view(warnings@);
    assert(noted + Seq::<Seq<char>>::empty() =~= noted);
    if !text.as_str().is_empty() {
        let prims = if text_eq(text.as_str(), "LineClosed") {
            Vec::new()
        } else {
            parse_prim_list(text.as_str())
        };
        match id {
            Some(k) => {
                let kept = text.clone();
                let copy = clone_prims(&prims);
                cache.insert(k, (kept, copy));
                assert(prims_view(cache@) =~= before.insert(k, (text@, prims@)));
            },
            None => {},
        }
        (text, prims)
    } else {
        match id {
            Some(k) => match cache.get(&k) {
                Some(entry) => (entry.0.clone(), clone_prims(&entry.1)),
                None => {
                    let m = id_warning("Primitive data for PrimID=", k, " not found in cache");
                    push_log(warnings, m);
                    assert(noted + seq![missing_primitive_list(k)] =~= noted.push(
                        missing_primitive_list(k),
                    ));
                    (String::new(), Vec::new())
                },
            },
            None => (String::new(), Vec::new()),
        }
    }
}

/// Makes the shape that a body stands for once it has been read.
fn finish(attrs: ShapeAttrs, body: Body, caches: &mut Caches) -> (shape: Option<Shape>)
    ensures
        (shape.deep_view(), final(caches).deep_view()) == finish_shape(
            attrs.deep_view(),
            body.deep_view(),
            old(caches).deep_view(),
        ),
{
    if attrs.wraps {
        if body.backup.is_none() {
            push_warning(&mut caches.warnings, "BackupPath holds no shape, skipping");
        }
        return body.backup;
    }
    if text_eq(attrs.shape_type.as_str(), "Text") && attrs.has_backup_path && body.backup.is_some() {
        return body.backup;
    }
    let ghost st = body.deep_view();
    let ghost noted = log_view(caches.warnings@);
    let (vert_text, verts) = resolve_vertices(
        body.vert_list,
        attrs.vert_id,
        &mut caches.verts,
        &mut caches.warnings,
    );
    let (prim_text, prims) = resolve_primitives(
        body.prim_list,
        attrs.prim_id,
        &mut caches.prims,
        &mut caches.warnings,
    );
    let ghost resolved = log_view(caches.warnings@);
    let xform = body.xform;
    proof {
        reveal_strlit("Rect");
        reveal_strlit("Ellipse");
        reveal_strlit("Path");
        reveal_strlit("Group");
        assert("Rect"@[0] != "Path"@[0]);
        assert("Rect"@.len() != "Group"@.len());
        assert("Ellipse"@.len() != "Path"@.len());
        assert("Ellipse"@.len() != "Group"@.len());
        assert("Path"@.len() != "Group"@.len());
        reveal_strlit("Bitmap");
        assert("Bitmap"@.len() != "Group"@.len());
    }
    if text_eq(attrs.shape_type.as_str(), "Rect") {
        assert(resolved + Seq::<Seq<char>>::empty() =~= resolved);
        Some(
            Shape::Rect(
                Rect { cut_index: attrs.cut_index, xform, w: attrs.w, h: attrs.h, cr: attrs.cr },
            ),
        )
    } else if text_eq(attrs.shape_type.as_str(), "Ellipse") {
        assert(resolved + Seq::<Seq<char>>::empty() =~= resolved);
        Some(
            Shape::Ellipse(
                Ellipse { cut_index: attrs.cut_index, xform, rx: attrs.rx, ry: attrs.ry },
            ),
        )
    } else if text_eq(attrs.shape_type.as_str(), "Path") {
        if verts.len() == 0 {
            push_warning(&mut caches.warnings, "Path shape has no vertices after resolution, skipping");
            assert(resolved + seq![empty_path()] =~= resolved.push(empty_path()));
            None
        } else {
            assert(resolved + Seq::<Seq<char>>::empty() =~= resolved);
            Some(
                Shape::Path(
                    Path {
                        cut_index: attrs.cut_index,
                        xform,
                        vert_list: vert_text,
                        prim_list: prim_text,
                        parsed_verts: verts,
                        parsed_primitives: prims,
                    },
                ),
            )
        }
    } else if text_eq(attrs.shape_type.as_str(), "Bitmap") {
        assert(resolved + Seq::<Seq<char>>::empty() =~= resolved);
        Some(
            Shape::Bitmap(
                Bitmap { cut_index: attrs.cut_index, xform, w: attrs.w, h: attrs.h, data: body.data },
            ),
        )
    } else if text_eq(attrs.shape_type.as_str(), "Group") {
        if body.children.len() == 0 {
            push_warning(&mut caches.warnings, "Group shape has no children, skipping");
            assert(resolved + seq![empty_group()] =~= resolved.push(empty_group()));
            None
        } else {
            assert(resolved + Seq::<Seq<char>>::empty() =~= resolved);
            let group = Group { cut_index: attrs.cut_index, xform, children: body.children };
            proof {
                crate::types::lemma_group_view(group);
            }
            Some(Shape::Group(group))
        }
    } else {
        let mut m = String::from_str("Unknown shape type \"");
        m.append(attrs.shape_type.as_str());
        m.append("\", skipping");
        push_log(&mut caches.warnings, m);
        assert(resolved + seq![unknown_type(attrs.shape_type@)] =~= resolved.push(
            unknown_type(attrs.shape_type@),
        ));
        None
    }
}

/// Makes the shape of a `Shape` tag without a body.
fn parse_shape_from_empty_element(attributes: &Vec<(String, String)>, caches: &mut Caches) -> (shape:
    Option<Shape>)
    ensures
        (shape.deep_view(), final(caches).deep_view()) == empty_shape(
            attributes.deep_view(),
            old(caches).deep_view(),
        ),
{
    let attrs = read_shape_attrs(attributes);
    let body = Body {
        xform: XForm::identity(),
        vert_list: String::new(),
        prim_list: String::new(),
        data: attrs.data.clone(),
        children: Vec::new(),
        backup: None,
        depth: 1,
        current_tag: String::new(),
        in_children: false,
        wraps: attrs.wraps,
    };
    assert(body.deep_view().children =~= Seq::<ShapeView>::empty());
    finish(attrs, body, caches)
}

/// Writes the message that reports a malformed document inside a shape.
fn shape_message(message: &str) -> (text: String)
    ensures
        text@ == shape_error(message@),
{
    let mut text = String::from_str("Error parsing Shape: ");
    text.append(message);
    text
}

/// Writes the message that reports a malformed document inside a cut
/// setting.
fn cut_setting_message(message: &str) -> (text: String)
    ensures
        text@ == cut_setting_error(message@),
{
    let mut text = String::from_str("Error parsing CutSetting: ");
    text.append(message);
    text
}

/// Writes the message that reports a malformed document outside shapes and
/// cut settings.
fn document_message(message: &str) -> (text: String)
    ensures
        text@ == document_error(message@),
{
    let mut text = String::from_str("XML parsing error: ");
    text.append(message);
    text
}

/// Reads the shape whose body starts at `at`; gives the shape, if it is
/// kept, and the position behind it.
fn parse_shape_inner(
    events: &Vec<XmlEvent>,
    at: usize,
    attrs: ShapeAttrs,
    caches: &mut Caches,
) -> (r: Result<(Option<Shape>, usize), String>)
    requires
        at <= events.len(),
    ensures
        match shape_from(
            events.deep_view(),
            at as int,
            attrs.deep_view(),
            old(caches).deep_view(),
        ) {
            Ok(end) => r matches Ok((shape, next)) && shape.deep_view() == end.shape && next
                == end.next && at <= next <= events.len() && final(caches).deep_view()
                == end.caches,
            Err(e) => r matches Err(message) && message@ == e,
        },
    decreases events.len() - at,
{
    let ghost ev = events.deep_view();
    let ghost goal = body_from(ev, at as int, start_state(attrs.deep_view()), caches.deep_view());
    let mut body = Body {
        xform: XForm::identity(),
        vert_list: String::new(),
        prim_list: String::new(),
        data: attrs.data.clone(),
        children: Vec::new(),
        backup: None,
        depth: 1,
        current_tag: String::new(),
        in_children: false,
        wraps: attrs.wraps,
    };
    assert(body.deep_view().children =~= Seq::<ShapeView>::empty());
    let mut i: usize = at;
    loop
        invariant_except_break
            goal == body_from(ev, i as int, body.deep_view(), caches.deep_view()),
            1 <= body.depth <= i - at + 1,
        invariant
            at <= i <= events.len(),
            ev == events.deep_view(),
            goal == body_from(
                ev,
                at as int,
                start_state(attrs.deep_view()),
                old(caches).deep_view(),
            ),
        ensures
            at <= i <= events.len(),
            goal == Ok::<BodyEnd, Seq<char>>(
                BodyEnd { state: body.deep_view(), next: i as int, caches: caches.deep_view() },
            ),
            goal == body_from(
                ev,
                at as int,
                start_state(attrs.deep_view()),
                old(caches).deep_view(),
            ),
        decreases events.len() - i,
    {
        if i >= events.len() {
            return Err(shape_message("document ends inside an open element"));
        }
        assert(ev[i as int] == events[i as int].deep_view());
        match &events[i] {
            XmlEvent::Start { name, attributes } => {
                if text_eq(name.as_str(), "Children") {
                    body.depth = body.depth + 1;
                    body.current_tag = name.clone();
                    body.in_children = true;
                    i += 1;
                } else if text_eq(name.as_str(), "BackupPath") || text_eq(name.as_str(), "Shape") {
                    let nested = read_tag_attrs(name, attributes);
                    let ghost st = body.deep_view();
                    match parse_shape_inner(events, i + 1, nested, caches) {
                        Err(e) => {
                            return Err(e);
                        },
                        Ok((shape, next)) => {
                            body.current_tag = name.clone();
                            match shape {
                                Some(s) => {
                                    if text_eq(name.as_str(), "BackupPath") {
                                        body.backup = Some(s);
                                    } else if body.in_children {
                                        let ghost kept = body.children.deep_view();
                                        body.children.push(s);
                                        assert(body.children.deep_view() =~= kept.push(
                                            s.deep_view(),
                                        ));
                                    } else if body.wraps {
                                        body.backup = Some(s);
                                    }
                                },
                                None => {},
                            }
                            assert(body.deep_view() == with_nested(st, name@, shape.deep_view()));
                            i = next;
                        },
                    }
                } else {
                    body.depth = body.depth + 1;
                    body.current_tag = name.clone();
                    i += 1;
                }
            },
            XmlEvent::Empty { name, attributes } => {
                if text_eq(name.as_str(), "Shape") {
                    let ghost st = body.deep_view();
                    let shape = parse_shape_from_empty_element(attributes, caches);
                    match shape {
                        Some(s) => {
                            if body.in_children {
                                let ghost kept = body.children.deep_view();
                                body.children.push(s);
                                assert(body.children.deep_view() =~= kept.push(s.deep_view()));
                            } else if body.wraps {
                                body.backup = Some(s);
                            }
                        },
                        None => {},
                    }
                    assert(body.deep_view() == with_child(st, shape.deep_view()));
                }
                i += 1;
            },
            XmlEvent::Text { text } => {
                if text_eq(body.current_tag.as_str(), "XForm") {
                    body.xform = parse_xform_with_log(text.as_str(), &mut caches.warnings);
                } else if text_eq(body.current_tag.as_str(), "VertList") {
                    body.vert_list = text.clone();
                } else if text_eq(body.current_tag.as_str(), "PrimList") {
                    body.prim_list = text.clone();
                } else if text_eq(body.current_tag.as_str(), "Data") {
                    body.data = text.clone();
                }
                i += 1;
            },
            XmlEvent::End { name } => {
                body.depth = body.depth - 1;
                if text_eq(name.as_str(), "Children") {
                    body.in_children = false;
                }
                body.current_tag = String::new();
                i += 1;
                if body.depth == 0 {
                    break ;
                }
            },
            XmlEvent::Eof => {
                return Err(shape_message("document ends inside an open element"));
            },
            XmlEvent::Error { message } => {
                return Err(shape_message(message.as_str()));
            },
            XmlEvent::Other => {
                i += 1;
            },
        }
    }
    let shape = finish(attrs, body, caches);
    Ok((shape, i))
}

/// The index that a tag inside a cut setting leaves.
fn read_cut_index(index: i32, name: &String, attributes: &Vec<(String, String)>) -> (r: i32)
    ensures
        r == with_index(index, name@, attributes.deep_view()),
{
    if text_eq(name.as_str(), "index") {
        match attribute(attributes, "Value") {
            Some(v) => match read_i32(v.as_str()) {
                Some(n) => n,
                None => 0,
            },
            None => index,
        }
    } else {
        index
    }
}

/// Reads the cut setting whose body starts at `at`; gives the cut setting
/// and the position behind it.
fn parse_cut_setting_inner(events: &Vec<XmlEvent>, at: usize) -> (r: Result<
    (CutSetting, usize),
    String,
>)
    requires
        at <= events.len(),
    ensures
        match cut_setting_from(events.deep_view(), at as int, 1, 0) {
            Ok((index, end)) => r matches Ok((setting, next)) && setting.deep_view() == cut_setting(
                index,
            ) && next == end && at <= next <= events.len(),
            Err(e) => r matches Err(message) && message@ == e,
        },
{
    let ghost ev = events.deep_view();
    let ghost goal = cut_setting_from(ev, at as int, 1, 0);
    let mut index: i32 = 0;
    let mut depth: u128 = 1;
    let mut i: usize = at;
    loop
        invariant_except_break
            goal == cut_setting_from(ev, i as int, depth as int, index),
            1 <= depth <= i - at + 1,
        invariant
            at <= i <= events.len(),
            ev == events.deep_view(),
            goal == cut_setting_from(ev, at as int, 1, 0),
        ensures
            at <= i <= events.len(),
            goal == cut_setting_from(ev, at as int, 1, 0),
            goal == Ok::<(i32, int), Seq<char>>((index, i as int)),
        decreases events.len() - i,
    {
        if i >= events.len() {
            return Err(cut_setting_message("document ends inside an open element"));
        }
        assert(ev[i as int] == events[i as int].deep_view());
        match &events[i] {
            XmlEvent::Start { name, attributes } => {
                depth = depth + 1;
                index = read_cut_index(index, name, attributes);
                i += 1;
            },
            XmlEvent::Empty { name, attributes } => {
                index = read_cut_index(index, name, attributes);
                i += 1;
            },
            XmlEvent::End { name } => {
                depth = depth - 1;
                i += 1;
                if depth == 0 {
                    break ;
                }
            },
            XmlEvent::Eof => {
                return Err(cut_setting_message("document ends inside an open element"));
            },
            XmlEvent::Error { message } => {
                return Err(cut_setting_message(message.as_str()));
            },
            _ => {
                i += 1;
            },
        }
    }
    Ok((CutSetting { index, name: String::new(), color: None, stroke_width: None }, i))
}

/// Reads a project from the events of a document, and the warnings given
/// on the way.
fn read_project(events: &Vec<XmlEvent>) -> (r: Result<(LightBurnProject, Vec<String>), String>)
    ensures
        match reading_of(events.deep_view()) {
            Ok((p, w)) => r matches Ok((project, warnings)) && project.deep_view() == p
                && log_view(warnings@) == w,
            Err(e) => r matches Err(message) && message@ == e,
        },
{
    let ghost ev = events.deep_view();
    let ghost goal = reading_of(ev);
    let mut project = LightBurnProject {
        app_version: String::new(),
        format_version: String::new(),
        cut_settings: Vec::new(),
        shapes: Vec::new(),
    };
    let mut caches = Caches::new();
    assert(project.deep_view().cut_settings =~= Seq::<CutSettingView>::empty());
    assert(project.deep_view().shapes =~= Seq::<ShapeView>::empty());
    let mut depth: u128 = 0;
    let mut i: usize = 0;
    loop
        invariant_except_break
            goal == project_from(
                ev,
                i as int,
                depth as nat,
                project.deep_view(),
                caches.deep_view(),
            ),
        invariant
            i <= events.len(),
            depth <= i,
            ev == events.deep_view(),
            goal == reading_of(ev),
        ensures
            goal == reading_of(ev),
            goal == document_end(depth as nat, project.deep_view(), caches.deep_view()),
        decreases events.len() - i,
    {
        if i >= events.len() {
            break ;
        }
        assert(ev[i as int] == events[i as int].deep_view());
        match &events[i] {
            XmlEvent::Start { name, attributes } => {
                if text_eq(name.as_str(), "LightBurnProject") {
                    match attribute(attributes, "AppVersion") {
                        Some(v) => {
                            project.app_version = v.clone();
                        },
                        None => {},
                    }
                    match attribute(attributes, "FormatVersion") {
                        Some(v) => {
                            project.format_version = v.clone();
                        },
                        None => {},
                    }
                    depth = depth + 1;
                    i += 1;
                } else if text_eq(name.as_str(), "CutSetting") {
                    match parse_cut_setting_inner(events, i + 1) {
                        Err(e) => {
                            return Err(e);
                        },
                        Ok((setting, next)) => {
                            let ghost kept = project.cut_settings.deep_view();
                            let ghost value = setting.deep_view();
                            project.cut_settings.push(setting);
                            assert(project.cut_settings.deep_view() =~= kept.push(value));
                            i = next;
                        },
                    }
                } else if text_eq(name.as_str(), "Shape") {
                    let attrs = read_shape_attrs(attributes);
                    match parse_shape_inner(events, i + 1, attrs, &mut caches) {
                        Err(e) => {
                            return Err(e);
                        },
                        Ok((shape, next)) => {
                            match shape {
                                Some(s) => {
                                    let ghost kept = project.shapes.deep_view();
                                    project.shapes.push(s);
                                    assert(project.shapes.deep_view() =~= kept.push(s.deep_view()));
                                },
                                None => {},
                            }
                            i = next;
                        },
                    }
                } else {
                    depth = depth + 1;
                    i += 1;
                }
            },
            XmlEvent::Empty { name, attributes } => {
                if text_eq(name.as_str(), "Shape") {
                    match parse_shape_from_empty_element(attributes, &mut caches) {
                        Some(s) => {
                            let ghost kept = project.shapes.deep_view();
                            project.shapes.push(s);
                            assert(project.shapes.deep_view() =~= kept.push(s.deep_view()));
                        },
                        None => {},
                    }
                }
                i += 1;
            },
            XmlEvent::End { name } => {
                if depth == 0 {
                    return Err(document_message("closing tag without an opening tag"));
                }
                depth = depth - 1;
                i += 1;
            },
            XmlEvent::Eof => {
                break ;
            },
            XmlEvent::Error { message } => {
                return Err(document_message(message.as_str()));
            },
            _ => {
                i += 1;
            },
        }
    }
    if depth == 0 {
        Ok((project, caches.warnings))
    } else {
        Err(document_message("document ends inside an open element"))
    }
}

/// Builds the project that a list of events stands for, and adds the
/// warnings given on the way to the log.
///
/// The events are read front to back; the end of the list counts as the end
/// of the document. The reading fails, with a message that says where, on
/// an [`XmlEvent::Error`] that is reached, on a document that ends while a
/// tag is open, and on a closing tag where none is open; the log is then
/// left as it was. Anything else that is found wanting is passed over or
/// given its default, with a warning.
pub fn parse_events_with_log(events: &Vec<XmlEvent>, log: &mut Vec<String>) -> (r: Result<
    LightBurnProject,
    String,
>)
    ensures
        match reading_of(events.deep_view()) {
            Ok((p, w)) => r matches Ok(project) && project.deep_view() == p && log_view(
                final(log)@,
            ) == log_view(old(log)@) + w,
            Err(e) => r matches Err(message) && message@ == e && final(log)@ == old(log)@,
        },
        match r {
            Ok(project) => all_sound(project.deep_view().shapes),
            Err(_) => true,
        },
{
    proof {
        project_is_sound(events.deep_view());
    }
    match read_project(events) {
        Ok((project, warnings)) => {
            append_log(log, warnings);
            Ok(project)
        },
        Err(e) => Err(e),
    }
}

/// Builds the project that a list of events stands for, without the
/// warnings.
pub fn parse_events(events: &Vec<XmlEvent>) -> (r: Result<LightBurnProject, String>)
    ensures
        match project_of(events.deep_view()) {
            Ok(p) => r matches Ok(project) && project.deep_view() == p,
            Err(e) => r matches Err(message) && message@ == e,
        },
        match r {
            Ok(project) => all_sound(project.deep_view().shapes),
            Err(_) => true,
        },
{
    let mut log: Vec<String> = Vec::new();
    parse_events_with_log(events, &mut log)
}

/// The project that the document `text` stands for, and the warnings given
/// while it is read.
pub open spec fn document_reading(text: Seq<char>) -> Result<
    (ProjectView, Seq<Seq<char>>),
    Seq<char>,
> {
    reading_of(events_of(text))
}

/// The project that the document `text` stands for.
pub open spec fn document_project(text: Seq<char>) -> Result<ProjectView, Seq<char>> {
    project_of(events_of(text))
}

/// Parse an LBRN2 XML string into a LightBurnProject, with the warnings
/// added to the log.
///
/// A document that is not well formed, or that ends while a tag is open,
/// gives an error; every other fault is mended locally and leaves a
/// warning.
pub fn parse_lbrn2_with_log(xml_string: &str, log: &mut Vec<String>) -> (r: Result<
    LightBurnProject,
    String,
>)
    ensures
        match document_reading(xml_string@) {
            Ok((p, w)) => r matches Ok(project) && project.deep_view() == p && log_view(
                final(log)@,
            ) == log_view(old(log)@) + w,
            Err(e) => r matches Err(message) && message@ == e && final(log)@ == old(log)@,
        },
        match r {
            Ok(project) => all_sound(project.deep_view().shapes),
            Err(_) => true,
        },
{
    let events = read_events(xml_string);
    parse_events_with_log(&events, log)
}

/// Parse an LBRN2 XML string into a LightBurnProject.
///
/// A document that is not well formed gives an error; every other fault is
/// mended locally.
pub fn parse_lbrn2_complete(xml_string: &str) -> (r: Result<LightBurnProject, String>)
    ensures
        match document_project(xml_string@) {
            Ok(p) => r matches Ok(project) && project.deep_view() == p,
            Err(e) => r matches Err(message) && message@ == e,
        },
        match r {
            Ok(project) => all_sound(project.deep_view().shapes),
            Err(_) => true,
        },
{
    let events = read_events(xml_string);
    parse_events(&events)
}

} // verus!
