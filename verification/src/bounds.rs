//! What has to be measured to find the bounding box of a shape.
//!
//! The box of a shape is the box of a set of points: corners, points on an
//! ellipse, vertices, control points and the extremes of curves, each under
//! the transforms of the shape and of the groups around it. This module
//! decides which points those are; working out where they lie is left to
//! the caller.

use crate::text::text_eq;
use crate::types::{
    extend_chain, lemma_group_view, Path, PathPrimitive, PathView, Shape, ShapeView, Vec2,
    Vec2View, XForm, XFormView,
};
use vstd::prelude::*;

verus! {

/// Something whose points count for a bounding box, in the frame of its
/// shape.
#[derive(Debug)]
pub enum Item {
    /// The four corners of a box of the given size around the origin.
    Corners { w: String, h: String },
    /// The centre of an ellipse around the origin, and points on it.
    Ellipse { rx: String, ry: String },
    /// One point.
    Point { x: String, y: String },
    /// The two ends of a cubic Bezier curve and the points where it turns
    /// back along an axis.
    Curve {
        x0: String,
        y0: String,
        c0x: String,
        c0y: String,
        c1x: String,
        c1y: String,
        x1: String,
        y1: String,
    },
}

/// The mathematical value of an [`Item`].
pub enum ItemView {
    Corners { w: Seq<char>, h: Seq<char> },
    Ellipse { rx: Seq<char>, ry: Seq<char> },
    Point { x: Seq<char>, y: Seq<char> },
    Curve {
        x0: Seq<char>,
        y0: Seq<char>,
        c0x: Seq<char>,
        c0y: Seq<char>,
        c1x: Seq<char>,
        c1y: Seq<char>,
        x1: Seq<char>,
        y1: Seq<char>,
    },
}

impl DeepView for Item {
    type V = ItemView;

    open spec fn deep_view(&self) -> ItemView {
        match self {
            Item::Corners { w, h } => ItemView::Corners { w: w@, h: h@ },
            Item::Ellipse { rx, ry } => ItemView::Ellipse { rx: rx@, ry: ry@ },
            Item::Point { x, y } => ItemView::Point { x: x@, y: y@ },
            Item::Curve { x0, y0, c0x, c0y, c1x, c1y, x1, y1 } => ItemView::Curve {
                x0: x0@,
                y0: y0@,
                c0x: c0x@,
                c0y: c0y@,
                c1x: c1x@,
                c1y: c1y@,
                x1: x1@,
                y1: y1@,
            },
        }
    }
}

/// The items of one shape that is no group, under the chain of transforms
/// from the outermost group down to the shape's own, to be composed from
/// left to right.
#[derive(Debug)]
pub struct Measure {
    pub chain: Vec<XForm>,
    pub items: Vec<Item>,
}

/// The mathematical value of a [`Measure`].
pub struct MeasureView {
    pub chain: Seq<XFormView>,
    pub items: Seq<ItemView>,
}

impl DeepView for Measure {
    type V = MeasureView;

    open spec fn deep_view(&self) -> MeasureView {
        MeasureView { chain: self.chain.deep_view(), items: self.items.deep_view() }
    }
}

/// The vertex as a point.
pub open spec fn point_of(v: Vec2View) -> ItemView {
    ItemView::Point { x: v.x, y: v.y }
}

/// The vertices from position `i` on, as points.
pub open spec fn points_from(verts: Seq<Vec2View>, i: int) -> Seq<ItemView>
    decreases verts.len() - i,
{
    if i < 0 || i >= verts.len() {
        Seq::empty()
    } else {
        seq![point_of(verts[i])] + points_from(verts, i + 1)
    }
}

/// The vertex at position `i` as a point, if there is one.
pub open spec fn point_at(verts: Seq<Vec2View>, i: int) -> Seq<ItemView> {
    if 0 <= i < verts.len() {
        seq![point_of(verts[i])]
    } else {
        Seq::empty()
    }
}

/// What counts of a Bezier segment from `tail` to `tip`: its two ends, each
/// control point that is complete, and the curve itself where both are.
pub open spec fn curve_items(tail: Vec2View, tip: Vec2View) -> Seq<ItemView> {
    seq![point_of(tail), point_of(tip)] + (if tail.has_c0() {
        seq![ItemView::Point { x: tail.c0x->0, y: tail.c0y->0 }]
    } else {
        Seq::empty()
    }) + (if tip.has_c1() {
        seq![ItemView::Point { x: tip.c1x->0, y: tip.c1y->0 }]
    } else {
        Seq::empty()
    }) + (if tail.has_c0() && tip.has_c1() {
        seq![
            ItemView::Curve {
                x0: tail.x,
                y0: tail.y,
                c0x: tail.c0x->0,
                c0y: tail.c0y->0,
                c1x: tip.c1x->0,
                c1y: tip.c1y->0,
                x1: tip.x,
                y1: tip.y,
            },
        ]
    } else {
        Seq::empty()
    })
}

/// What counts of a primitive. Each end of a line counts where its index
/// names a vertex; a Bezier segment counts only where both do.
pub open spec fn prim_items(verts: Seq<Vec2View>, p: PathPrimitive) -> Seq<ItemView> {
    match p {
        PathPrimitive::Line { start_idx, end_idx } => point_at(verts, start_idx as int) + point_at(
            verts,
            end_idx as int,
        ),
        PathPrimitive::Bezier { start_idx, end_idx } => if start_idx >= verts.len() || end_idx
            >= verts.len() {
            Seq::empty()
        } else {
            curve_items(verts[start_idx as int], verts[end_idx as int])
        },
    }
}

/// What counts of the primitives from position `i` on.
pub open spec fn prims_items(verts: Seq<Vec2View>, prims: Seq<PathPrimitive>, i: int) -> Seq<
    ItemView,
>
    decreases prims.len() - i,
{
    if i < 0 || i >= prims.len() {
        Seq::empty()
    } else {
        prim_items(verts, prims[i]) + prims_items(verts, prims, i + 1)
    }
}

/// What counts of a path: nothing without vertices; every vertex where the
/// path is a closed polyline or has no primitives; else what counts of its
/// primitives.
pub open spec fn path_items(path: PathView) -> Seq<ItemView> {
    if path.parsed_verts.len() == 0 {
        Seq::empty()
    } else if path.prim_list == "LineClosed"@ || path.parsed_primitives.len() == 0 {
        points_from(path.parsed_verts, 0)
    } else {
        prims_items(path.parsed_verts, path.parsed_primitives, 0)
    }
}

/// What has to be measured of `shape` under the transforms `prefix`. A
/// shape of which nothing counts is left out.
pub open spec fn measured(prefix: Seq<XFormView>, shape: ShapeView) -> Seq<MeasureView>
    decreases shape, 0int,
{
    match shape {
        ShapeView::Rect { xform, w, h, .. } => seq![
            MeasureView { chain: prefix.push(xform), items: seq![ItemView::Corners { w, h }] },
        ],
        ShapeView::Ellipse { xform, rx, ry, .. } => seq![
            MeasureView { chain: prefix.push(xform), items: seq![ItemView::Ellipse { rx, ry }] },
        ],
        ShapeView::Path(path) => if path_items(path).len() == 0 {
            Seq::empty()
        } else {
            seq![MeasureView { chain: prefix.push(path.xform), items: path_items(path) }]
        },
        ShapeView::Bitmap { xform, w, h, .. } => seq![
            MeasureView { chain: prefix.push(xform), items: seq![ItemView::Corners { w, h }] },
        ],
        ShapeView::Group { xform, children, .. } => measured_from(prefix.push(xform), children, 0),
    }
}

/// What has to be measured of the shapes from position `i` on.
pub open spec fn measured_from(prefix: Seq<XFormView>, shapes: Seq<ShapeView>, i: int) -> Seq<
    MeasureView,
>
    decreases shapes, shapes.len() - i,
{
    if i < 0 || i >= shapes.len() {
        Seq::empty()
    } else {
        measured(prefix, shapes[i]) + measured_from(prefix, shapes, i + 1)
    }
}

/// A group without children has no bounding box: nothing of it is
/// measured.
pub proof fn empty_group_is_unbounded(prefix: Seq<XFormView>, cut_index: i32, xform: XFormView)
    ensures
        measured(prefix, ShapeView::Group { cut_index, xform, children: Seq::empty() }).len() == 0,
{
}

/// A path without vertices has no bounding box: nothing of it is measured.
pub proof fn empty_path_is_unbounded(prefix: Seq<XFormView>, path: PathView)
    requires
        path.parsed_verts.len() == 0,
    ensures
        measured(prefix, ShapeView::Path(path)).len() == 0,
{
}

/// The vertex as a point.
fn point_item(v: &Vec2) -> (item: Item)
    ensures
        item.deep_view() == point_of(v.deep_view()),
{
    Item::Point { x: v.x.clone(), y: v.y.clone() }
}

/// Adds an item to a list.
fn push_item(items: &mut Vec<Item>, item: Item)
    ensures
        final(items).deep_view() == old(items).deep_view().push(item.deep_view()),
{
    items.push(item);
    assert(items.deep_view() =~= old(items).deep_view().push(item.deep_view()));
}

/// Adds what counts of a primitive.
fn push_prim_items(items: &mut Vec<Item>, verts: &Vec<Vec2>, p: &PathPrimitive)
    ensures
        final(items).deep_view() == old(items).deep_view() + prim_items(verts.deep_view(), *p),
{
    let ghost before = items.deep_view();
    let ghost views = verts.deep_view();
    match p {
        PathPrimitive::Line { start_idx, end_idx } => {
            if *start_idx < verts.len() {
                push_item(items, point_item(&verts[*start_idx]));
            }
            if *end_idx < verts.len() {
                push_item(items, point_item(&verts[*end_idx]));
            }
            assert(items.deep_view() =~= before + prim_items(views, *p));
        },
        PathPrimitive::Bezier { start_idx, end_idx } => {
            if *start_idx >= verts.len() || *end_idx >= verts.len() {
                assert(items.deep_view() =~= before + prim_items(views, *p));
                return ;
            }
            let tail = &verts[*start_idx];
            let tip = &verts[*end_idx];
            push_item(items, point_item(tail));
            push_item(items, point_item(tip));
            match (&tail.c0x, &tail.c0y) {
                (Some(x), Some(y)) => {
                    push_item(items, Item::Point { x: x.clone(), y: y.clone() });
                },
                _ => {},
            }
            match (&tip.c1x, &tip.c1y) {
                (Some(x), Some(y)) => {
                    push_item(items, Item::Point { x: x.clone(), y: y.clone() });
                },
                _ => {},
            }
            match (&tail.c0x, &tail.c0y, &tip.c1x, &tip.c1y) {
                (Some(c0x), Some(c0y), Some(c1x), Some(c1y)) => {
                    push_item(
                        items,
                        Item::Curve {
                            x0: tail.x.clone(),
                            y0: tail.y.clone(),
                            c0x: c0x.clone(),
                            c0y: c0y.clone(),
                            c1x: c1x.clone(),
                            c1y: c1y.clone(),
                            x1: tip.x.clone(),
                            y1: tip.y.clone(),
                        },
                    );
                },
                _ => {},
            }
            assert(items.deep_view() =~= before + prim_items(views, *p));
        },
    }
}

/// Gathers what counts of a path.
fn items_of_path(path: &Path) -> (items: Vec<Item>)
    ensures
        items.deep_view() == path_items(path.deep_view()),
{
    let mut items: Vec<Item> = Vec::new();
    assert(items.deep_view() =~= Seq::<ItemView>::empty());
    let verts = &path.parsed_verts;
    let prims = &path.parsed_primitives;
    if verts.len() == 0 {
        return items;
    }
    let ghost views = verts.deep_view();
    if text_eq(path.prim_list.as_str(), "LineClosed") || prims.len() == 0 {
        let mut i: usize = 0;
        while i < verts.len()
            invariant
                i <= verts.len(),
                views == verts.deep_view(),
                points_from(views, 0) == items.deep_view() + points_from(views, i as int),
            decreases verts.len() - i,
        {
            let ghost before = items.deep_view();
            push_item(&mut items, point_item(&verts[i]));
            assert(before + (seq![point_of(views[i as int])] + points_from(views, i + 1))
                =~= items.deep_view() + points_from(views, i + 1));
            i += 1;
        }
        assert(items.deep_view() + Seq::<ItemView>::empty() =~= items.deep_view());
        items
    } else {
        let mut i: usize = 0;
        while i < prims.len()
            invariant
                i <= prims.len(),
                views == verts.deep_view(),
                prims_items(views, prims@, 0) == items.deep_view() + prims_items(
                    views,
                    prims@,
                    i as int,
                ),
            decreases prims.len() - i,
        {
            let ghost before = items.deep_view();
            push_prim_items(&mut items, verts, &prims[i]);
            assert(before + (prim_items(views, prims@[i as int]) + prims_items(views, prims@, i + 1))
                =~= items.deep_view() + prims_items(views, prims@, i + 1));
            i += 1;
        }
        assert(items.deep_view() + Seq::<ItemView>::empty() =~= items.deep_view());
        items
    }
}

/// Adds one item under a chain of transforms to what is measured.
fn push_measure(out: &mut Vec<Measure>, chain: Vec<XForm>, item: Item)
    ensures
        final(out).deep_view() == old(out).deep_view() + seq![
            MeasureView { chain: chain.deep_view(), items: seq![item.deep_view()] },
        ],
{
    let mut items: Vec<Item> = Vec::new();
    items.push(item);
    assert(items.deep_view() =~= seq![item.deep_view()]);
    let measure = Measure { chain, items };
    let ghost value = measure.deep_view();
    out.push(measure);
    assert(out.deep_view() =~= old(out).deep_view() + seq![value]);
}

/// Adds what has to be measured of `shape` under the transforms `prefix`.
fn measure_under(prefix: &Vec<XForm>, shape: &Shape, out: &mut Vec<Measure>)
    ensures
        final(out).deep_view() == old(out).deep_view() + measured(
            prefix.deep_view(),
            shape.deep_view(),
        ),
    decreases shape,
{
    let ghost before = out.deep_view();
    match shape {
        Shape::Rect(r) => {
            let chain = extend_chain(prefix, &r.xform);
            push_measure(out, chain, Item::Corners { w: r.w.clone(), h: r.h.clone() });
        },
        Shape::Ellipse(e) => {
            let chain = extend_chain(prefix, &e.xform);
            push_measure(out, chain, Item::Ellipse { rx: e.rx.clone(), ry: e.ry.clone() });
        },
        Shape::Path(p) => {
            let items = items_of_path(p);
            if items.len() > 0 {
                let chain = extend_chain(prefix, &p.xform);
                let measure = Measure { chain, items };
                let ghost value = measure.deep_view();
                out.push(measure);
                assert(out.deep_view() =~= before + seq![value]);
            } else {
                assert(out.deep_view() =~= before + Seq::<MeasureView>::empty());
            }
        },
        Shape::Bitmap(b) => {
            let chain = extend_chain(prefix, &b.xform);
            push_measure(out, chain, Item::Corners { w: b.w.clone(), h: b.h.clone() });
        },
        Shape::Group(g) => {
            proof {
                lemma_group_view(*g);
            }
            let chain = extend_chain(prefix, &g.xform);
            let ghost views = g.children.deep_view();
            let mut i: usize = 0;
            assert(before + Seq::<MeasureView>::empty() =~= before);
            while i < g.children.len()
                invariant
                    i <= g.children.len(),
                    *shape == Shape::Group(*g),
                    views == g.children.deep_view(),
                    before + measured_from(chain.deep_view(), views, 0) == out.deep_view()
                        + measured_from(chain.deep_view(), views, i as int),
                decreases g.children.len() - i,
            {
                proof {
                    let whole = *shape;
                    assert(whole->Group_0 == *g);
                    assert(decreases_to!(whole => whole->Group_0));
                    assert(decreases_to!(whole->Group_0 => whole->Group_0.children));
                    assert(decreases_to!(g.children => g.children@));
                    assert(decreases_to!(g.children@ => g.children@[i as int]));
                }
                let ghost sofar = out.deep_view();
                measure_under(&chain, &g.children[i], out);
                proof {
                    let here = measured(chain.deep_view(), views[i as int]);
                    let rest = measured_from(chain.deep_view(), views, i + 1);
                    assert(sofar + (here + rest) =~= (sofar + here) + rest);
                }
                i += 1;
            }
            assert(out.deep_view() + Seq::<MeasureView>::empty() =~= out.deep_view());
        },
    }
}

/// Decides what has to be measured to find the bounding box of a shape.
///
/// Nothing comes back for a shape without a bounding box: an empty group,
/// an empty path, or a tree of nothing else.
pub fn measures(shape: &Shape) -> (out: Vec<Measure>)
    ensures
        out.deep_view() == measured(Seq::empty(), shape.deep_view()),
{
    let none: Vec<XForm> = Vec::new();
    assert(none.deep_view() =~= Seq::<XFormView>::empty());
    let mut out: Vec<Measure> = Vec::new();
    assert(out.deep_view() =~= Seq::<MeasureView>::empty());
    measure_under(&none, shape, &mut out);
    assert(Seq::<MeasureView>::empty() + measured(Seq::empty(), shape.deep_view()) =~= measured(
        Seq::empty(),
        shape.deep_view(),
    ));
    out
}

} // verus!
