//! SVG path data (the `d` attribute) from the vertices and primitives of a
//! path.
//!
//! Coordinates are written as the vertices hold them. Warnings go to a log
//! that the caller hands in; nothing is ever taken from it.

use crate::log::{extends, extends_by_one, extends_itself, extends_on, log_view, push_log};
use crate::number::{append_decimal, decimal};
use crate::text::text_eq;
use crate::types::{Path, PathPrimitive, Vec2, Vec2View};
use vstd::prelude::*;

verus! {

/// What has been drawn of a path: the path data so far, the vertex that
/// the first move went to, the vertex that the last segment ended at, and
/// the log.
pub struct Pen {
    pub d: Seq<char>,
    pub first: Option<usize>,
    pub last: Option<usize>,
    pub log: Seq<Seq<char>>,
}

/// The name of the kind of a primitive.
pub open spec fn kind_name(p: PathPrimitive) -> Seq<char> {
    match p {
        PathPrimitive::Line { .. } => "Line"@,
        PathPrimitive::Bezier { .. } => "Bezier"@,
    }
}

/// The warning for a primitive whose indices name no vertex.
pub open spec fn bad_indices(p: PathPrimitive) -> Seq<char> {
    "Invalid indices for "@ + kind_name(p) + ": "@ + decimal(p.start() as nat) + ", "@ + decimal(
        p.end() as nat,
    )
}

/// The warning for a primitive one of whose vertices is missing.
pub open spec fn bad_vertex(p: PathPrimitive) -> Seq<char> {
    "Invalid vertex index for "@ + kind_name(p) + " "@ + decimal(p.start() as nat) + " "@ + decimal(
        p.end() as nat,
    )
}

/// The warning for a Bezier segment that is drawn as a line.
pub open spec fn missing_control_points(p: PathPrimitive) -> Seq<char> {
    "Bezier primitive "@ + decimal(p.start() as nat) + " "@ + decimal(p.end() as nat)
        + " missing control points. Falling back to Line."@
}

/// The warning for a path that has nothing to draw.
pub open spec fn nothing_to_draw(prim_list: Seq<char>) -> Seq<char> {
    "Path "@ + (if prim_list.len() == 0 {
        "PrimList missing"@
    } else {
        prim_list
    }) + " or parsedVerts/parsedPrimitives missing/empty, skipping."@
}

/// The warning for a closed polyline whose first vertex is missing.
pub open spec fn first_vertex_missing() -> Seq<char> {
    "Path with 'LineClosed' has nullish first vertex, skipping"@
}

/// The warning for a closed polyline that is cut short at a missing vertex.
pub open spec fn vertex_missing_at(i: int) -> Seq<char> {
    "Path with 'LineClosed' encountered a nullish vertex at index "@ + decimal(i as nat)
        + ", stopping line generation for this path."@
}

/// The largest index that is taken for an index at all where vertices may
/// be missing; anything above stands for a negative number.
pub const MAX_INDEX: usize = 1000000;

/// Why a primitive is not drawn, if it is not. Where vertices may be
/// missing (`lenient`), an index above [`MAX_INDEX`] is told apart from one
/// that names no vertex or a missing one.
pub open spec fn refusal(verts: Seq<Option<Vec2View>>, p: PathPrimitive, lenient: bool) -> Option<
    Seq<char>,
> {
    let a = p.start() as int;
    let b = p.end() as int;
    if lenient {
        if a > MAX_INDEX || b > MAX_INDEX {
            Some(bad_indices(p))
        } else if a >= verts.len() || b >= verts.len() || verts[a] is None || verts[b] is None {
            Some(bad_vertex(p))
        } else {
            None
        }
    } else {
        if a >= verts.len() || b >= verts.len() || verts[a] is None || verts[b] is None {
            Some(bad_indices(p))
        } else {
            None
        }
    }
}

/// Whether the segment from `tail` to `tip` can be drawn as a curve: the
/// control point leaving `tail` and the one arriving at `tip` are complete.
pub open spec fn has_curve(tail: Vec2View, tip: Vec2View) -> bool {
    tail.has_c0() && tip.has_c1()
}

/// The path data with a move to `tail`, unless the pen stands there already:
/// the first move of a path comes without a space before it, a later one is
/// made where the segment does not start at the vertex the last one ended
/// at.
pub open spec fn moved(pen: Pen, a: usize, tail: Vec2View) -> Seq<char> {
    if pen.first is None {
        pen.d + "M"@ + tail.x + ","@ + tail.y
    } else if pen.last != Some(a) {
        pen.d + " M"@ + tail.x + ","@ + tail.y
    } else {
        pen.d
    }
}

/// The pen after the primitive `p` has been drawn from `tail` to `tip`. A
/// Bezier segment without its control points is drawn as a line, with a
/// warning.
pub open spec fn segment(pen: Pen, p: PathPrimitive, tail: Vec2View, tip: Vec2View) -> Pen {
    let curve = p is Bezier && has_curve(tail, tip);
    let d = moved(pen, p.start(), tail);
    Pen {
        d: if curve {
            d + " C"@ + tail.c0x->0 + ","@ + tail.c0y->0 + " "@ + tip.c1x->0 + ","@ + tip.c1y->0 + " "@
                + tip.x + ","@ + tip.y
        } else {
            d + " L"@ + tip.x + ","@ + tip.y
        },
        first: if pen.first is None {
            Some(p.start())
        } else {
            pen.first
        },
        last: Some(p.end()),
        log: if p is Bezier && !curve {
            pen.log.push(missing_control_points(p))
        } else {
            pen.log
        },
    }
}

/// The pen after the primitive `p` has been dealt with: drawn, or passed
/// over with a warning.
pub open spec fn step(verts: Seq<Option<Vec2View>>, p: PathPrimitive, pen: Pen, lenient: bool)
    -> Pen {
    match refusal(verts, p, lenient) {
        Some(warning) => Pen { log: pen.log.push(warning), ..pen },
        None => segment(pen, p, verts[p.start() as int]->0, verts[p.end() as int]->0),
    }
}

/// The pen after the primitives from position `i` on have been dealt with,
/// in order.
pub open spec fn drawn(
    verts: Seq<Option<Vec2View>>,
    prims: Seq<PathPrimitive>,
    i: int,
    pen: Pen,
    lenient: bool,
) -> Pen
    decreases prims.len() - i,
{
    if i < 0 || i >= prims.len() {
        pen
    } else {
        drawn(verts, prims, i + 1, step(verts, prims[i], pen, lenient), lenient)
    }
}

/// The path data of a pen that is lifted: closed with `Z` where something
/// was drawn and the last segment ended at the vertex of the first move.
/// Only the indices are compared, not the places.
pub open spec fn lifted(pen: Pen) -> Seq<char> {
    if pen.first is Some && pen.first == pen.last && pen.d.len() > 0 {
        pen.d.push('Z')
    } else {
        pen.d
    }
}

/// A pen that has drawn nothing, with the given log.
pub open spec fn fresh_pen(log: Seq<Seq<char>>) -> Pen {
    Pen { d: Seq::empty(), first: None, last: None, log }
}

/// The lines to the vertices from position `i` up to, not including,
/// position `to`, appended to `d`.
pub open spec fn lines_to(verts: Seq<Option<Vec2View>>, i: int, to: int, d: Seq<char>) -> Seq<char>
    decreases to - i,
{
    if i < 0 || i >= to || to > verts.len() {
        d
    } else {
        lines_to(verts, i + 1, to, d + " L"@ + verts[i]->0.x + ","@ + verts[i]->0.y)
    }
}

/// The position of the first missing vertex at or after `i`, or the number
/// of vertices.
pub open spec fn first_missing(verts: Seq<Option<Vec2View>>, i: int) -> int
    decreases verts.len() - i,
{
    if i < 0 || i >= verts.len() || verts[i] is None {
        i
    } else {
        first_missing(verts, i + 1)
    }
}

/// How many of the vertices from position `i` on are there.
pub open spec fn present_from(verts: Seq<Option<Vec2View>>, i: int) -> nat
    decreases verts.len() - i,
{
    if i < 0 || i >= verts.len() {
        0
    } else {
        present_from(verts, i + 1) + if verts[i] is Some {
            1nat
        } else {
            0nat
        }
    }
}

/// The path data of the closed polyline through the vertices, which begin
/// with one that is there: a move to the first, a line to each one after it
/// up to the first that is missing, and `Z`.
pub open spec fn polyline(verts: Seq<Option<Vec2View>>) -> Seq<char> {
    lines_to(
        verts,
        1,
        first_missing(verts, 1),
        "M"@ + verts[0]->0.x + ","@ + verts[0]->0.y,
    ).push('Z')
}

/// The vertices, each one there.
pub open spec fn all_present(verts: Seq<Vec2View>) -> Seq<Option<Vec2View>> {
    verts.map_values(|v: Vec2View| Some(v))
}

/// The values of a list of vertices that may be missing.
pub open spec fn optional_views(verts: Seq<Option<Vec2>>) -> Seq<Option<Vec2View>> {
    verts.map_values(|v: Option<Vec2>| v.deep_view())
}

/// The path data of a path and the log behind it.
///
/// - With `LineClosed` for a primitive list the path is the closed polyline
///   through its vertices; without vertices it is empty, with a warning.
/// - Else, without primitives or without vertices it is empty, with a
///   warning.
/// - Else the primitives are drawn in order and the pen is lifted.
pub open spec fn path_data(
    prim_list: Seq<char>,
    verts: Seq<Vec2View>,
    prims: Seq<PathPrimitive>,
    log: Seq<Seq<char>>,
) -> (Seq<char>, Seq<Seq<char>>) {
    if prim_list == "LineClosed"@ {
        if verts.len() == 0 {
            (Seq::empty(), log.push(nothing_to_draw(prim_list)))
        } else {
            (polyline(all_present(verts)), log)
        }
    } else if prims.len() == 0 || verts.len() == 0 {
        (Seq::empty(), log.push(nothing_to_draw(prim_list)))
    } else {
        let pen = drawn(all_present(verts), prims, 0, fresh_pen(log), false);
        (lifted(pen), pen.log)
    }
}

/// The path data of vertices and primitives that come as parts, where a
/// vertex may be missing, and the log behind it.
///
/// - With `LineClosed` for a primitive list: empty with a warning where
///   there is no vertex or the first is missing; else the closed polyline
///   up to the first missing vertex, with a warning where the polyline is
///   cut short and holds more than its first vertex somewhere.
/// - Else, without primitives or with no vertex that is there, it is empty,
///   with a warning.
/// - Else the primitives are drawn in order and the pen is lifted.
pub open spec fn path_data_from_parts(
    prim_list: Seq<char>,
    verts: Seq<Option<Vec2View>>,
    prims: Seq<PathPrimitive>,
    log: Seq<Seq<char>>,
) -> (Seq<char>, Seq<Seq<char>>) {
    if prim_list == "LineClosed"@ {
        if verts.len() == 0 {
            (Seq::empty(), log.push(nothing_to_draw(prim_list)))
        } else if verts[0] is None {
            (Seq::empty(), log.push(first_vertex_missing()))
        } else {
            let stop = first_missing(verts, 1);
            (
                polyline(verts),
                if present_from(verts, 0) > 1 && stop < verts.len() {
                    log.push(vertex_missing_at(stop))
                } else {
                    log
                },
            )
        }
    } else if prims.len() == 0 || present_from(verts, 0) == 0 {
        (Seq::empty(), log.push(nothing_to_draw(prim_list)))
    } else {
        let pen = drawn(verts, prims, 0, fresh_pen(log), true);
        (lifted(pen), pen.log)
    }
}

/// Drawing primitives only adds to the log.
pub proof fn drawing_extends_log(
    verts: Seq<Option<Vec2View>>,
    prims: Seq<PathPrimitive>,
    i: int,
    pen: Pen,
    lenient: bool,
)
    ensures
        extends(drawn(verts, prims, i, pen, lenient).log, pen.log),
    decreases prims.len() - i,
{
    if 0 <= i < prims.len() {
        let next = step(verts, prims[i], pen, lenient);
        assert(extends(next.log, pen.log)) by {
            extends_itself(pen.log);
            extends_by_one(pen.log, missing_control_points(prims[i]));
            match refusal(verts, prims[i], lenient) {
                Some(warning) => extends_by_one(pen.log, warning),
                None => {},
            }
        }
        drawing_extends_log(verts, prims, i + 1, next, lenient);
        extends_on(drawn(verts, prims, i, pen, lenient).log, next.log, pen.log);
    } else {
        extends_itself(pen.log);
    }
}

/// Writing the path data of a path only adds to the log.
pub proof fn path_data_extends_log(
    prim_list: Seq<char>,
    verts: Seq<Vec2View>,
    prims: Seq<PathPrimitive>,
    log: Seq<Seq<char>>,
)
    ensures
        extends(path_data(prim_list, verts, prims, log).1, log),
{
    extends_itself(log);
    extends_by_one(log, nothing_to_draw(prim_list));
    drawing_extends_log(all_present(verts), prims, 0, fresh_pen(log), false);
}

/// Writing the path data of parts only adds to the log.
pub proof fn parts_extend_log(
    prim_list: Seq<char>,
    verts: Seq<Option<Vec2View>>,
    prims: Seq<PathPrimitive>,
    log: Seq<Seq<char>>,
)
    ensures
        extends(path_data_from_parts(prim_list, verts, prims, log).1, log),
{
    extends_itself(log);
    extends_by_one(log, nothing_to_draw(prim_list));
    extends_by_one(log, first_vertex_missing());
    extends_by_one(log, vertex_missing_at(first_missing(verts, 1)));
    drawing_extends_log(verts, prims, 0, fresh_pen(log), true);
}

/// The name of the kind of a primitive.
fn kind_of(p: &PathPrimitive) -> (name: &'static str)
    ensures
        name@ == kind_name(*p),
{
    match p {
        PathPrimitive::Line { .. } => "Line",
        PathPrimitive::Bezier { .. } => "Bezier",
    }
}

/// The positions of the two vertices of a primitive.
fn ends_of(p: &PathPrimitive) -> (r: (usize, usize))
    ensures
        r.0 == p.start(),
        r.1 == p.end(),
{
    match p {
        PathPrimitive::Line { start_idx, end_idx } => (*start_idx, *end_idx),
        PathPrimitive::Bezier { start_idx, end_idx } => (*start_idx, *end_idx),
    }
}

/// Writes the warning for a primitive whose indices name no vertex.
fn bad_indices_message(p: &PathPrimitive) -> (m: String)
    ensures
        m@ == bad_indices(*p),
{
    let (a, b) = ends_of(p);
    let mut m = String::from_str("Invalid indices for ");
    m.append(kind_of(p));
    m.append(": ");
    append_decimal(&mut m, a as u64);
    m.append(", ");
    append_decimal(&mut m, b as u64);
    m
}

/// Writes the warning for a primitive one of whose vertices is missing.
fn bad_vertex_message(p: &PathPrimitive) -> (m: String)
    ensures
        m@ == bad_vertex(*p),
{
    let (a, b) = ends_of(p);
    let mut m = String::from_str("Invalid vertex index for ");
    m.append(kind_of(p));
    m.append(" ");
    append_decimal(&mut m, a as u64);
    m.append(" ");
    append_decimal(&mut m, b as u64);
    m
}

/// Writes the warning for a Bezier segment that is drawn as a line.
fn missing_control_points_message(p: &PathPrimitive) -> (m: String)
    ensures
        m@ == missing_control_points(*p),
{
    let (a, b) = ends_of(p);
    let mut m = String::from_str("Bezier primitive ");
    append_decimal(&mut m, a as u64);
    m.append(" ");
    append_decimal(&mut m, b as u64);
    m.append(" missing control points. Falling back to Line.");
    m
}

/// Writes the warning for a path that has nothing to draw.
fn nothing_to_draw_message(prim_list: &str) -> (m: String)
    ensures
        m@ == nothing_to_draw(prim_list@),
{
    let mut m = String::from_str("Path ");
    if prim_list.is_empty() {
        m.append("PrimList missing");
    } else {
        m.append(prim_list);
    }
    m.append(" or parsedVerts/parsedPrimitives missing/empty, skipping.");
    m
}

/// The pen as the variables of a drawing loop hold it.
pub open spec fn pen_of(d: String, first: Option<usize>, last: Option<usize>, log: Vec<String>) -> Pen {
    Pen { d: d@, first, last, log: log_view(log@) }
}

/// Draws the primitive `p` from `tail` to `tip`.
fn draw_segment(
    d: &mut String,
    first: &mut Option<usize>,
    last: &mut Option<usize>,
    log: &mut Vec<String>,
    p: &PathPrimitive,
    tail: &Vec2,
    tip: &Vec2,
)
    ensures
        pen_of(*final(d), *final(first), *final(last), *final(log)) == segment(
            pen_of(*old(d), *old(first), *old(last), *old(log)),
            *p,
            tail.deep_view(),
            tip.deep_view(),
        ),
{
    let (a, b) = ends_of(p);
    let bezier = match p {
        PathPrimitive::Line { .. } => false,
        PathPrimitive::Bezier { .. } => true,
    };
    let curve = bezier && tail.c0x.is_some() && tail.c0y.is_some() && tip.c1x.is_some()
        && tip.c1y.is_some();
    if bezier && !curve {
        push_log(log, missing_control_points_message(p));
    }
    let at_start = match last {
        Some(l) => *l == a,
        None => false,
    };
    if first.is_none() {
        d.append("M");
        d.append(tail.x.as_str());
        d.append(",");
        d.append(tail.y.as_str());
        *first = Some(a);
    } else if !at_start {
        d.append(" M");
        d.append(tail.x.as_str());
        d.append(",");
        d.append(tail.y.as_str());
    }
    if curve {
        d.append(" C");
        match &tail.c0x {
            Some(c) => d.append(c.as_str()),
            None => {},
        }
        d.append(",");
        match &tail.c0y {
            Some(c) => d.append(c.as_str()),
            None => {},
        }
        d.append(" ");
        match &tip.c1x {
            Some(c) => d.append(c.as_str()),
            None => {},
        }
        d.append(",");
        match &tip.c1y {
            Some(c) => d.append(c.as_str()),
            None => {},
        }
        d.append(" ");
        d.append(tip.x.as_str());
        d.append(",");
        d.append(tip.y.as_str());
    } else {
        d.append(" L");
        d.append(tip.x.as_str());
        d.append(",");
        d.append(tip.y.as_str());
    }
    *last = Some(b);
}

/// Lifts the pen: closes the path data where the last segment ended at the
/// vertex of the first move.
fn lift(d: &mut String, first: Option<usize>, last: Option<usize>)
    ensures
        final(d)@ == lifted(Pen { d: old(d)@, first, last, log: Seq::empty() }),
{
    let closed = match (first, last) {
        (Some(f), Some(l)) => f == l,
        _ => false,
    };
    if closed && !d.as_str().is_empty() {
        d.push('Z');
    }
}

/// Writes the closed polyline through the vertices of a path.
fn generate_line_closed_path(path: &Path, log: &mut Vec<String>) -> (d: String)
    requires
        path.prim_list@ == "LineClosed"@,
    ensures
        (d@, log_view(final(log)@)) == path_data(
            path.prim_list@,
            path.parsed_verts.deep_view(),
            path.parsed_primitives@,
            log_view(old(log)@),
        ),
{
    let verts = &path.parsed_verts;
    if verts.len() == 0 {
        push_log(log, nothing_to_draw_message(path.prim_list.as_str()));
        return String::new();
    }
    let ghost all = all_present(verts.deep_view());
    let mut d = String::from_str("M");
    d.append(verts[0].x.as_str());
    d.append(",");
    d.append(verts[0].y.as_str());
    let mut i: usize = 1;
    proof {
        lemma_none_missing(verts.deep_view(), 1);
    }
    while i < verts.len()
        invariant
            1 <= i <= verts.len(),
            all == all_present(verts.deep_view()),
            first_missing(all, 1) == verts.len(),
            lines_to(all, 1, verts.len() as int, "M"@ + all[0]->0.x + ","@ + all[0]->0.y)
                == lines_to(all, i as int, verts.len() as int, d@),
        decreases verts.len() - i,
    {
        d.append(" L");
        d.append(verts[i].x.as_str());
        d.append(",");
        d.append(verts[i].y.as_str());
        i += 1;
    }
    d.push('Z');
    d
}

/// Among vertices that are all there none is missing.
proof fn lemma_none_missing(verts: Seq<Vec2View>, i: int)
    requires
        0 <= i <= verts.len(),
    ensures
        first_missing(all_present(verts), i) == verts.len(),
    decreases verts.len() - i,
{
    if i < verts.len() {
        lemma_none_missing(verts, i + 1);
    }
}

/// Generate SVG path data (d attribute) from a Path shape.
pub fn generate_path_data(path: &Path, log: &mut Vec<String>) -> (d: String)
    ensures
        (d@, log_view(final(log)@)) == path_data(
            path.prim_list@,
            path.parsed_verts.deep_view(),
            path.parsed_primitives@,
            log_view(old(log)@),
        ),
        extends(log_view(final(log)@), log_view(old(log)@)),
{
    proof {
        path_data_extends_log(
            path.prim_list@,
            path.parsed_verts.deep_view(),
            path.parsed_primitives@,
            log_view(log@),
        );
    }
    if text_eq(path.prim_list.as_str(), "LineClosed") {
        return generate_line_closed_path(path, log);
    }
    let verts = &path.parsed_verts;
    let prims = &path.parsed_primitives;
    if prims.len() == 0 || verts.len() == 0 {
        push_log(log, nothing_to_draw_message(path.prim_list.as_str()));
        return String::new();
    }
    let ghost all = all_present(verts.deep_view());
    let ghost goal = drawn(all, prims@, 0, fresh_pen(log_view(log@)), false);
    let mut d = String::new();
    let mut first: Option<usize> = None;
    let mut last: Option<usize> = None;
    let mut i: usize = 0;
    while i < prims.len()
        invariant
            i <= prims.len(),
            all == all_present(verts.deep_view()),
            goal == drawn(all, prims@, i as int, pen_of(d, first, last, *log), false),
        decreases prims.len() - i,
    {
        let p = &prims[i];
        let (a, b) = ends_of(p);
        if a >= verts.len() || b >= verts.len() {
            push_log(log, bad_indices_message(p));
        } else {
            draw_segment(&mut d, &mut first, &mut last, log, p, &verts[a], &verts[b]);
        }
        i += 1;
    }
    lift(&mut d, first, last);
    d
}

/// How many of the vertices are there.
fn count_present(verts: &[Option<Vec2>]) -> (n: usize)
    ensures
        n == present_from(optional_views(verts@), 0),
{
    let ghost views = optional_views(verts@);
    let mut n: usize = 0;
    let mut i: usize = verts.len();
    while i > 0
        invariant
            i <= verts.len(),
            views == optional_views(verts@),
            n == present_from(views, i as int),
            n <= verts.len() - i,
        decreases i,
    {
        i -= 1;
        if verts[i].is_some() {
            n += 1;
        }
    }
    n
}

/// Writes the warning for a closed polyline that is cut short.
fn vertex_missing_message(i: usize) -> (m: String)
    ensures
        m@ == vertex_missing_at(i as int),
{
    let mut m = String::from_str("Path with 'LineClosed' encountered a nullish vertex at index ");
    append_decimal(&mut m, i as u64);
    m.append(", stopping line generation for this path.");
    m
}

/// Writes the closed polyline through vertices that may be missing.
fn closed_polyline_from_parts(parsed_verts: &[Option<Vec2>], log: &mut Vec<String>) -> (d: String)
    ensures
        (d@, log_view(final(log)@)) == path_data_from_parts(
            "LineClosed"@,
            optional_views(parsed_verts@),
            Seq::empty(),
            log_view(old(log)@),
        ),
{
    let ghost views = optional_views(parsed_verts@);
    if parsed_verts.len() == 0 {
        push_log(log, nothing_to_draw_message("LineClosed"));
        return String::new();
    }
    let start = match &parsed_verts[0] {
        Some(v) => v,
        None => {
            push_log(log, String::from_str("Path with 'LineClosed' has nullish first vertex, skipping"));
            return String::new();
        },
    };
    let present = count_present(parsed_verts);
    let mut d = String::from_str("M");
    d.append(start.x.as_str());
    d.append(",");
    d.append(start.y.as_str());
    let ghost head = d@;
    let mut i: usize = 1;
    while i < parsed_verts.len()
        invariant_except_break
            log_view(log@) == log_view(old(log)@),
        invariant
            1 <= i <= parsed_verts.len(),
            views == optional_views(parsed_verts@),
            first_missing(views, 1) == first_missing(views, i as int),
            lines_to(views, 1, first_missing(views, 1), head) == lines_to(
                views,
                i as int,
                first_missing(views, 1),
                d@,
            ),
        ensures
            1 <= i <= parsed_verts.len(),
            i == first_missing(views, 1),
            lines_to(views, 1, first_missing(views, 1), head) == d@,
            log_view(log@) == if present > 1 && i < parsed_verts.len() {
                log_view(old(log)@).push(vertex_missing_at(i as int))
            } else {
                log_view(old(log)@)
            },
        decreases parsed_verts.len() - i,
    {
        proof {
            lemma_first_missing_bounds(views, i as int);
            lemma_first_missing_bounds(views, i + 1);
            assert(views[i as int] == parsed_verts[i as int].deep_view());
        }
        match &parsed_verts[i] {
            Some(v) => {
                d.append(" L");
                d.append(v.x.as_str());
                d.append(",");
                d.append(v.y.as_str());
            },
            None => {
                if present > 1 {
                    push_log(log, vertex_missing_message(i));
                }
                break ;
            },
        }
        i += 1;
    }
    d.push('Z');
    d
}

/// The first missing vertex at or after `i` is looked for within the list.
proof fn lemma_first_missing_bounds(verts: Seq<Option<Vec2View>>, i: int)
    requires
        0 <= i <= verts.len(),
    ensures
        i <= first_missing(verts, i) <= verts.len(),
    decreases verts.len() - i,
{
    if i < verts.len() && verts[i] is Some {
        lemma_first_missing_bounds(verts, i + 1);
    }
}

/// Generate path data for testing with arbitrary path-like data.
pub fn generate_path_data_from_parts(
    prim_list: &str,
    parsed_verts: &[Option<Vec2>],
    parsed_primitives: &[PathPrimitive],
    log: &mut Vec<String>,
) -> (d: String)
    ensures
        (d@, log_view(final(log)@)) == path_data_from_parts(
            prim_list@,
            optional_views(parsed_verts@),
            parsed_primitives@,
            log_view(old(log)@),
        ),
        extends(log_view(final(log)@), log_view(old(log)@)),
{
    proof {
        parts_extend_log(
            prim_list@,
            optional_views(parsed_verts@),
            parsed_primitives@,
            log_view(log@),
        );
    }
    if text_eq(prim_list, "LineClosed") {
        return closed_polyline_from_parts(parsed_verts, log);
    }
    let ghost views = optional_views(parsed_verts@);
    if parsed_primitives.len() == 0 || count_present(parsed_verts) == 0 {
        push_log(log, nothing_to_draw_message(prim_list));
        return String::new();
    }
    let ghost goal = drawn(views, parsed_primitives@, 0, fresh_pen(log_view(log@)), true);
    let mut d = String::new();
    let mut first: Option<usize> = None;
    let mut last: Option<usize> = None;
    let mut i: usize = 0;
    while i < parsed_primitives.len()
        invariant
            i <= parsed_primitives.len(),
            views == optional_views(parsed_verts@),
            goal == drawn(views, parsed_primitives@, i as int, pen_of(d, first, last, *log), true),
        decreases parsed_primitives.len() - i,
    {
        let p = &parsed_primitives[i];
        let (a, b) = ends_of(p);
        if a > MAX_INDEX || b > MAX_INDEX {
            push_log(log, bad_indices_message(p));
        } else if a >= parsed_verts.len() || b >= parsed_verts.len() {
            push_log(log, bad_vertex_message(p));
        } else {
            match (&parsed_verts[a], &parsed_verts[b]) {
                (Some(tail), Some(tip)) => {
                    draw_segment(&mut d, &mut first, &mut last, log, p, tail, tip);
                },
                _ => {
                    push_log(log, bad_vertex_message(p));
                },
            }
        }
        i += 1;
    }
    lift(&mut d, first, last);
    d
}

} // verus!
