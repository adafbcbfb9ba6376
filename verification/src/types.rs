//! The data model of a project: vertices, transforms, cut settings and the
//! shape tree.
//!
//! Numbers are carried as decimal numerals, exactly as they were written in
//! the source document or handed in by the caller. The library never does
//! arithmetic on them: it validates, stores, copies and emits their text.

use crate::number::is_numeral;
use vstd::prelude::*;

verus! {

/// Whether the text, if there is one, is a numeral.
pub open spec fn is_numeral_or_none(o: Option<Seq<char>>) -> bool {
    match o {
        Some(s) => is_numeral(s),
        None => true,
    }
}

/// Copies an optional string.
pub fn clone_opt(o: &Option<String>) -> (res: Option<String>)
    ensures
        res.deep_view() == o.deep_view(),
{
    match o {
        Some(s) => Some(s.clone()),
        None => None,
    }
}

/// 2D vertex with optional Bezier control points.
///
/// `c0` is the control point of the curve leaving the vertex, `c1` that of
/// the curve arriving at it.
#[derive(Debug)]
pub struct Vec2 {
    pub x: String,
    pub y: String,
    pub c0x: Option<String>,
    pub c0y: Option<String>,
    pub c1x: Option<String>,
    pub c1y: Option<String>,
}

/// The mathematical value of a [`Vec2`].
pub struct Vec2View {
    pub x: Seq<char>,
    pub y: Seq<char>,
    pub c0x: Option<Seq<char>>,
    pub c0y: Option<Seq<char>>,
    pub c1x: Option<Seq<char>>,
    pub c1y: Option<Seq<char>>,
}

impl Vec2View {
    /// Whether the control point leaving the vertex is complete.
    pub open spec fn has_c0(self) -> bool {
        self.c0x is Some && self.c0y is Some
    }

    /// Whether the control point arriving at the vertex is complete.
    pub open spec fn has_c1(self) -> bool {
        self.c1x is Some && self.c1y is Some
    }

    /// Whether every coordinate that the vertex holds is a numeral.
    pub open spec fn is_numeric(self) -> bool {
        is_numeral(self.x) && is_numeral(self.y) && is_numeral_or_none(self.c0x)
            && is_numeral_or_none(self.c0y) && is_numeral_or_none(self.c1x) && is_numeral_or_none(
            self.c1y,
        )
    }
}

/// Whether every coordinate of every vertex is a numeral.
pub open spec fn all_numeric(verts: Seq<Vec2View>) -> bool {
    forall|i: int| 0 <= i < verts.len() ==> (#[trigger] verts[i]).is_numeric()
}

impl DeepView for Vec2 {
    type V = Vec2View;

    open spec fn deep_view(&self) -> Vec2View {
        Vec2View {
            x: self.x@,
            y: self.y@,
            c0x: self.c0x.deep_view(),
            c0y: self.c0y.deep_view(),
            c1x: self.c1x.deep_view(),
            c1y: self.c1y.deep_view(),
        }
    }
}

impl Vec2 {
    /// A vertex without control points.
    pub fn new(x: String, y: String) -> (v: Vec2)
        ensures
            v.deep_view() == (Vec2View {
                x: x@,
                y: y@,
                c0x: None,
                c0y: None,
                c1x: None,
                c1y: None,
            }),
    {
        Vec2 { x, y, c0x: None, c0y: None, c1x: None, c1y: None }
    }

    /// A vertex with the control points given.
    pub fn with_control_points(
        x: String,
        y: String,
        c0x: Option<String>,
        c0y: Option<String>,
        c1x: Option<String>,
        c1y: Option<String>,
    ) -> (v: Vec2)
        ensures
            v.deep_view() == (Vec2View {
                x: x@,
                y: y@,
                c0x: c0x.deep_view(),
                c0y: c0y.deep_view(),
                c1x: c1x.deep_view(),
                c1y: c1y.deep_view(),
            }),
    {
        Vec2 { x, y, c0x, c0y, c1x, c1y }
    }
}

impl Clone for Vec2 {
    fn clone(&self) -> (res: Vec2)
        ensures
            res.deep_view() == self.deep_view(),
    {
        Vec2 {
            x: self.x.clone(),
            y: self.y.clone(),
            c0x: clone_opt(&self.c0x),
            c0y: clone_opt(&self.c0y),
            c1x: clone_opt(&self.c1x),
            c1y: clone_opt(&self.c1y),
        }
    }
}

/// Copies a vertex list.
pub fn clone_verts(verts: &Vec<Vec2>) -> (res: Vec<Vec2>)
    ensures
        res.deep_view() == verts.deep_view(),
{
    let mut res: Vec<Vec2> = Vec::new();
    let mut i: usize = 0;
    while i < verts.len()
        invariant
            i <= verts.len(),
            res.len() == i,
            forall|k: int| 0 <= k < i ==> res[k].deep_view() == verts[k].deep_view(),
        decreases verts.len() - i,
    {
        res.push(verts[i].clone());
        i += 1;
    }
    assert(res.deep_view() =~= verts.deep_view());
    res
}

/// 2D affine transformation matrix `[a, b, c, d, e, f]`, standing for
///
/// ```text
/// | a  c  e |
/// | b  d  f |
/// | 0  0  1 |
/// ```
#[derive(Debug)]
pub struct XForm {
    pub a: String,
    pub b: String,
    pub c: String,
    pub d: String,
    pub e: String,
    pub f: String,
}

/// The mathematical value of an [`XForm`].
pub struct XFormView {
    pub a: Seq<char>,
    pub b: Seq<char>,
    pub c: Seq<char>,
    pub d: Seq<char>,
    pub e: Seq<char>,
    pub f: Seq<char>,
}

impl XFormView {
    /// Whether each of the six coefficients is a numeral.
    pub open spec fn is_numeric(self) -> bool {
        is_numeral(self.a) && is_numeral(self.b) && is_numeral(self.c) && is_numeral(self.d)
            && is_numeral(self.e) && is_numeral(self.f)
    }
}

impl DeepView for XForm {
    type V = XFormView;

    open spec fn deep_view(&self) -> XFormView {
        XFormView { a: self.a@, b: self.b@, c: self.c@, d: self.d@, e: self.e@, f: self.f@ }
    }
}

/// The coefficients of the identity transform.
pub open spec fn identity_xform() -> XFormView {
    XFormView { a: seq!['1'], b: seq!['0'], c: seq!['0'], d: seq!['1'], e: seq!['0'], f: seq!['0'] }
}

impl XForm {
    /// The transform that leaves every point where it is.
    pub fn identity() -> (t: XForm)
        ensures
            t.deep_view() == identity_xform(),
    {
        proof {
            reveal_strlit("1");
            reveal_strlit("0");
        }
        let t = XForm {
            a: String::from_str("1"),
            b: String::from_str("0"),
            c: String::from_str("0"),
            d: String::from_str("1"),
            e: String::from_str("0"),
            f: String::from_str("0"),
        };
        assert(t.a@ =~= seq!['1']);
        assert(t.b@ =~= seq!['0']);
        assert(t.c@ =~= seq!['0']);
        assert(t.d@ =~= seq!['1']);
        assert(t.e@ =~= seq!['0']);
        assert(t.f@ =~= seq!['0']);
        t
    }
}

impl Clone for XForm {
    fn clone(&self) -> (res: XForm)
        ensures
            res.deep_view() == self.deep_view(),
    {
        XForm {
            a: self.a.clone(),
            b: self.b.clone(),
            c: self.c.clone(),
            d: self.d.clone(),
            e: self.e.clone(),
            f: self.f.clone(),
        }
    }
}

/// The chain of transforms `prefix` with `xform` behind it.
pub fn extend_chain(prefix: &Vec<XForm>, xform: &XForm) -> (chain: Vec<XForm>)
    ensures
        chain.deep_view() == prefix.deep_view().push(xform.deep_view()),
{
    let mut chain: Vec<XForm> = Vec::new();
    let mut i: usize = 0;
    while i < prefix.len()
        invariant
            i <= prefix.len(),
            chain.len() == i,
            forall|k: int| 0 <= k < i ==> chain[k].deep_view() == prefix[k].deep_view(),
        decreases prefix.len() - i,
    {
        chain.push(prefix[i].clone());
        i += 1;
    }
    chain.push(xform.clone());
    assert(chain.deep_view() =~= prefix.deep_view().push(xform.deep_view()));
    chain
}

/// Cut setting for laser operations.
#[derive(Debug)]
pub struct CutSetting {
    pub index: i32,
    pub name: String,
    pub color: Option<String>,
    pub stroke_width: Option<String>,
}

/// The mathematical value of a [`CutSetting`].
pub struct CutSettingView {
    pub index: i32,
    pub name: Seq<char>,
    pub color: Option<Seq<char>>,
    pub stroke_width: Option<Seq<char>>,
}

impl DeepView for CutSetting {
    type V = CutSettingView;

    open spec fn deep_view(&self) -> CutSettingView {
        CutSettingView {
            index: self.index,
            name: self.name@,
            color: self.color.deep_view(),
            stroke_width: self.stroke_width.deep_view(),
        }
    }
}

impl Clone for CutSetting {
    fn clone(&self) -> (res: CutSetting)
        ensures
            res.deep_view() == self.deep_view(),
    {
        CutSetting {
            index: self.index,
            name: self.name.clone(),
            color: clone_opt(&self.color),
            stroke_width: clone_opt(&self.stroke_width),
        }
    }
}

/// Path primitive: a segment between two vertices of a path, named by their
/// positions in the path's vertex list.
#[derive(Debug, Clone, Copy, PartialEq, Eq, Structural)]
pub enum PathPrimitive {
    Line { start_idx: usize, end_idx: usize },
    Bezier { start_idx: usize, end_idx: usize },
}

impl PathPrimitive {
    /// The position of the vertex the segment starts at.
    pub open spec fn start(self) -> usize {
        match self {
            PathPrimitive::Line { start_idx, .. } => start_idx,
            PathPrimitive::Bezier { start_idx, .. } => start_idx,
        }
    }

    /// The position of the vertex the segment ends at.
    pub open spec fn end(self) -> usize {
        match self {
            PathPrimitive::Line { end_idx, .. } => end_idx,
            PathPrimitive::Bezier { end_idx, .. } => end_idx,
        }
    }
}

impl DeepView for PathPrimitive {
    type V = PathPrimitive;

    open spec fn deep_view(&self) -> PathPrimitive {
        *self
    }
}

/// Copies a primitive list.
pub fn clone_prims(prims: &Vec<PathPrimitive>) -> (res: Vec<PathPrimitive>)
    ensures
        res@ == prims@,
{
    let mut res: Vec<PathPrimitive> = Vec::new();
    let mut i: usize = 0;
    while i < prims.len()
        invariant
            i <= prims.len(),
            res@ == prims@.take(i as int),
        decreases prims.len() - i,
    {
        res.push(prims[i]);
        i += 1;
    }
    res
}

/// Rectangle shape, centred on the origin of its own frame.
#[derive(Debug)]
pub struct Rect {
    pub cut_index: i32,
    pub xform: XForm,
    pub w: String,
    pub h: String,
    /// Corner radius.
    pub cr: String,
}

/// Ellipse shape, centred on the origin of its own frame.
#[derive(Debug)]
pub struct Ellipse {
    pub cut_index: i32,
    pub xform: XForm,
    pub rx: String,
    pub ry: String,
}

/// Path shape with vertices and primitives.
#[derive(Debug)]
pub struct Path {
    pub cut_index: i32,
    pub xform: XForm,
    pub vert_list: String,
    pub prim_list: String,
    pub parsed_verts: Vec<Vec2>,
    pub parsed_primitives: Vec<PathPrimitive>,
}

/// Bitmap shape; `data` is the Base64 text of the image.
#[derive(Debug)]
pub struct Bitmap {
    pub cut_index: i32,
    pub xform: XForm,
    pub w: String,
    pub h: String,
    pub data: String,
}

/// Group of shapes.
#[derive(Debug)]
pub struct Group {
    pub cut_index: i32,
    pub xform: XForm,
    pub children: Vec<Shape>,
}

/// All possible shape types.
#[derive(Debug)]
pub enum Shape {
    Rect(Rect),
    Ellipse(Ellipse),
    Path(Path),
    Bitmap(Bitmap),
    Group(Group),
}

/// The mathematical value of a [`Path`].
pub struct PathView {
    pub cut_index: i32,
    pub xform: XFormView,
    pub vert_list: Seq<char>,
    pub prim_list: Seq<char>,
    pub parsed_verts: Seq<Vec2View>,
    pub parsed_primitives: Seq<PathPrimitive>,
}

/// The mathematical value of a [`Shape`].
pub enum ShapeView {
    Rect { cut_index: i32, xform: XFormView, w: Seq<char>, h: Seq<char>, cr: Seq<char> },
    Ellipse { cut_index: i32, xform: XFormView, rx: Seq<char>, ry: Seq<char> },
    Path(PathView),
    Bitmap { cut_index: i32, xform: XFormView, w: Seq<char>, h: Seq<char>, data: Seq<char> },
    Group { cut_index: i32, xform: XFormView, children: Seq<ShapeView> },
}

impl ShapeView {
    /// The transform of the shape, whatever its kind.
    pub open spec fn xform(self) -> XFormView {
        match self {
            ShapeView::Rect { xform, .. } => xform,
            ShapeView::Ellipse { xform, .. } => xform,
            ShapeView::Path(p) => p.xform,
            ShapeView::Bitmap { xform, .. } => xform,
            ShapeView::Group { xform, .. } => xform,
        }
    }

    /// The cut index of the shape, whatever its kind.
    pub open spec fn cut_index(self) -> i32 {
        match self {
            ShapeView::Rect { cut_index, .. } => cut_index,
            ShapeView::Ellipse { cut_index, .. } => cut_index,
            ShapeView::Path(p) => p.cut_index,
            ShapeView::Bitmap { cut_index, .. } => cut_index,
            ShapeView::Group { cut_index, .. } => cut_index,
        }
    }

    /// The shape with its transform replaced by `t`.
    pub open spec fn with_xform(self, t: XFormView) -> ShapeView {
        match self {
            ShapeView::Rect { cut_index, xform, w, h, cr } => ShapeView::Rect {
                cut_index,
                xform: t,
                w,
                h,
                cr,
            },
            ShapeView::Ellipse { cut_index, xform, rx, ry } => ShapeView::Ellipse {
                cut_index,
                xform: t,
                rx,
                ry,
            },
            ShapeView::Path(p) => ShapeView::Path(PathView { xform: t, ..p }),
            ShapeView::Bitmap { cut_index, xform, w, h, data } => ShapeView::Bitmap {
                cut_index,
                xform: t,
                w,
                h,
                data,
            },
            ShapeView::Group { cut_index, xform, children } => ShapeView::Group {
                cut_index,
                xform: t,
                children,
            },
        }
    }

    /// No group of the tree is empty and no path of it is without vertices.
    pub open spec fn is_populated(self) -> bool
        decreases self,
    {
        match self {
            ShapeView::Path(p) => p.parsed_verts.len() > 0,
            ShapeView::Group { children, .. } => children.len() > 0 && forall|i: int|
                0 <= i < children.len() ==> (#[trigger] children[i]).is_populated(),
            _ => true,
        }
    }

    /// Every number of the tree is a numeral: the coefficients of each
    /// transform, the measures of each shape and the coordinates of each
    /// vertex.
    pub open spec fn is_numeric(self) -> bool
        decreases self,
    {
        match self {
            ShapeView::Rect { xform, w, h, cr, .. } => xform.is_numeric() && is_numeral(w)
                && is_numeral(h) && is_numeral(cr),
            ShapeView::Ellipse { xform, rx, ry, .. } => xform.is_numeric() && is_numeral(rx)
                && is_numeral(ry),
            ShapeView::Path(p) => p.xform.is_numeric() && all_numeric(p.parsed_verts),
            ShapeView::Bitmap { xform, w, h, .. } => xform.is_numeric() && is_numeral(w)
                && is_numeral(h),
            ShapeView::Group { xform, children, .. } => xform.is_numeric() && forall|i: int|
                0 <= i < children.len() ==> (#[trigger] children[i]).is_numeric(),
        }
    }

    /// The tree is populated and every number of it is a numeral.
    pub open spec fn is_sound(self) -> bool {
        self.is_populated() && self.is_numeric()
    }
}

impl DeepView for Path {
    type V = PathView;

    open spec fn deep_view(&self) -> PathView {
        PathView {
            cut_index: self.cut_index,
            xform: self.xform.deep_view(),
            vert_list: self.vert_list@,
            prim_list: self.prim_list@,
            parsed_verts: self.parsed_verts.deep_view(),
            parsed_primitives: self.parsed_primitives@,
        }
    }
}

/// The mathematical value of a shape.
pub open spec fn shape_view(shape: Shape) -> ShapeView
    decreases shape,
{
    match shape {
        Shape::Rect(r) => ShapeView::Rect {
            cut_index: r.cut_index,
            xform: r.xform.deep_view(),
            w: r.w@,
            h: r.h@,
            cr: r.cr@,
        },
        Shape::Ellipse(e) => ShapeView::Ellipse {
            cut_index: e.cut_index,
            xform: e.xform.deep_view(),
            rx: e.rx@,
            ry: e.ry@,
        },
        Shape::Path(p) => ShapeView::Path(p.deep_view()),
        Shape::Bitmap(b) => ShapeView::Bitmap {
            cut_index: b.cut_index,
            xform: b.xform.deep_view(),
            w: b.w@,
            h: b.h@,
            data: b.data@,
        },
        Shape::Group(g) => ShapeView::Group {
            cut_index: g.cut_index,
            xform: g.xform.deep_view(),
            children: Seq::new(
                g.children@.len(),
                |i: int|
                    if 0 <= i < g.children@.len() {
                        shape_view(g.children@[i])
                    } else {
                        arbitrary()
                    },
            ),
        },
    }
}

impl DeepView for Shape {
    type V = ShapeView;

    open spec fn deep_view(&self) -> ShapeView {
        shape_view(*self)
    }
}

/// The value of a group holds the values of its children.
pub proof fn lemma_group_view(g: Group)
    ensures
        Shape::Group(g).deep_view() == (ShapeView::Group {
            cut_index: g.cut_index,
            xform: g.xform.deep_view(),
            children: g.children.deep_view(),
        }),
{
    assert(shape_view(Shape::Group(g))->Group_children =~= g.children.deep_view());
}

impl Shape {
    /// The transform of the shape, whatever its kind.
    pub fn xform(&self) -> (t: &XForm)
        ensures
            t.deep_view() == self.deep_view().xform(),
    {
        match self {
            Shape::Rect(r) => &r.xform,
            Shape::Ellipse(e) => &e.xform,
            Shape::Path(p) => &p.xform,
            Shape::Bitmap(b) => &b.xform,
            Shape::Group(g) => &g.xform,
        }
    }

    /// The transform of the shape, to be changed in place: the shape is
    /// afterwards the same but for its transform.
    pub fn xform_mut(&mut self) -> (t: &mut XForm)
        ensures
            t.deep_view() == old(self).deep_view().xform(),
            final(self).deep_view() == old(self).deep_view().with_xform(final(t).deep_view()),
    {
        match self {
            Shape::Rect(r) => &mut r.xform,
            Shape::Ellipse(e) => &mut e.xform,
            Shape::Path(p) => &mut p.xform,
            Shape::Bitmap(b) => &mut b.xform,
            Shape::Group(g) => &mut g.xform,
        }
    }

    /// The cut index of the shape, whatever its kind.
    pub fn cut_index(&self) -> (c: i32)
        ensures
            c == self.deep_view().cut_index(),
    {
        match self {
            Shape::Rect(r) => r.cut_index,
            Shape::Ellipse(e) => e.cut_index,
            Shape::Path(p) => p.cut_index,
            Shape::Bitmap(b) => b.cut_index,
            Shape::Group(g) => g.cut_index,
        }
    }
}

impl Clone for Path {
    fn clone(&self) -> (res: Path)
        ensures
            res.deep_view() == self.deep_view(),
    {
        Path {
            cut_index: self.cut_index,
            xform: self.xform.clone(),
            vert_list: self.vert_list.clone(),
            prim_list: self.prim_list.clone(),
            parsed_verts: clone_verts(&self.parsed_verts),
            parsed_primitives: clone_prims(&self.parsed_primitives),
        }
    }
}

impl Clone for Shape {
    fn clone(&self) -> (res: Shape)
        ensures
            res.deep_view() == self.deep_view(),
        decreases self,
    {
        match self {
            Shape::Rect(r) => Shape::Rect(
                Rect {
                    cut_index: r.cut_index,
                    xform: r.xform.clone(),
                    w: r.w.clone(),
                    h: r.h.clone(),
                    cr: r.cr.clone(),
                },
            ),
            Shape::Ellipse(e) => Shape::Ellipse(
                Ellipse {
                    cut_index: e.cut_index,
                    xform: e.xform.clone(),
                    rx: e.rx.clone(),
                    ry: e.ry.clone(),
                },
            ),
            Shape::Path(p) => Shape::Path(p.clone()),
            Shape::Bitmap(b) => Shape::Bitmap(
                Bitmap {
                    cut_index: b.cut_index,
                    xform: b.xform.clone(),
                    w: b.w.clone(),
                    h: b.h.clone(),
                    data: b.data.clone(),
                },
            ),
            Shape::Group(g) => {
                let mut children: Vec<Shape> = Vec::new();
                let mut i: usize = 0;
                while i < g.children.len()
                    invariant
                        i <= g.children.len(),
                        children.len() == i,
                        *self == Shape::Group(*g),
                        forall|k: int|
                            0 <= k < i ==> children[k].deep_view() == g.children[k].deep_view(),
                    decreases g.children.len() - i,
                {
                    proof {
                        let whole = *self;
                        assert(whole->Group_0 == *g);
                        assert(decreases_to!(whole => whole->Group_0));
                        assert(decreases_to!(whole->Group_0 => whole->Group_0.children));
                        assert(decreases_to!(g.children => g.children@));
                        assert(decreases_to!(g.children@ => g.children@[i as int]));
                    }
                    children.push(g.children[i].clone());
                    i += 1;
                }
                let group = Group { cut_index: g.cut_index, xform: g.xform.clone(), children };
                proof {
                    lemma_group_view(group);
                    lemma_group_view(*g);
                    assert(group.children.deep_view() =~= g.children.deep_view());
                }
                Shape::Group(group)
            },
        }
    }
}

/// Parsed LightBurn project file.
#[derive(Debug)]
pub struct LightBurnProject {
    pub app_version: String,
    pub format_version: String,
    pub cut_settings: Vec<CutSetting>,
    pub shapes: Vec<Shape>,
}

/// The mathematical value of a [`LightBurnProject`].
pub struct ProjectView {
    pub app_version: Seq<char>,
    pub format_version: Seq<char>,
    pub cut_settings: Seq<CutSettingView>,
    pub shapes: Seq<ShapeView>,
}

impl DeepView for LightBurnProject {
    type V = ProjectView;

    open spec fn deep_view(&self) -> ProjectView {
        ProjectView {
            app_version: self.app_version@,
            format_version: self.format_version@,
            cut_settings: self.cut_settings.deep_view(),
            shapes: self.shapes.deep_view(),
        }
    }
}

} // verus!
