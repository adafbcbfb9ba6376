use laser_tools::bounds::{measures, Item, Measure};
use laser_tools::types::{Bitmap, Ellipse, Group, Path, PathPrimitive, Rect, Shape, Vec2, XForm};

fn xform(e: &str) -> XForm {
    XForm {
        e: e.to_string(),
        ..XForm::identity()
    }
}

fn vertex(x: &str, y: &str) -> Vec2 {
    Vec2::new(x.to_string(), y.to_string())
}

fn curve_vertex(x: &str, c0: Option<&str>, c1: Option<&str>) -> Vec2 {
    Vec2::with_control_points(
        x.to_string(),
        "0".to_string(),
        c0.map(|c| c.to_string()),
        c0.map(|c| c.to_string()),
        c1.map(|c| c.to_string()),
        c1.map(|c| c.to_string()),
    )
}

fn path(prim_list: &str, verts: Vec<Vec2>, prims: Vec<PathPrimitive>) -> Shape {
    Shape::Path(Path {
        cut_index: 0,
        xform: xform("9"),
        vert_list: String::new(),
        prim_list: prim_list.to_string(),
        parsed_verts: verts,
        parsed_primitives: prims,
    })
}

fn rect(e: &str) -> Shape {
    Shape::Rect(Rect {
        cut_index: 0,
        xform: xform(e),
        w: "4".to_string(),
        h: "2".to_string(),
        cr: "1".to_string(),
    })
}

fn group(e: &str, children: Vec<Shape>) -> Shape {
    Shape::Group(Group {
        cut_index: 0,
        xform: xform(e),
        children,
    })
}

fn line(a: usize, b: usize) -> PathPrimitive {
    PathPrimitive::Line {
        start_idx: a,
        end_idx: b,
    }
}

fn bezier(a: usize, b: usize) -> PathPrimitive {
    PathPrimitive::Bezier {
        start_idx: a,
        end_idx: b,
    }
}

fn shown(items: &[Item]) -> Vec<String> {
    items
        .iter()
        .map(|item| match item {
            Item::Corners { w, h } => format!("corners {} {}", w, h),
            Item::Ellipse { rx, ry } => format!("ellipse {} {}", rx, ry),
            Item::Point { x, y } => format!("point {} {}", x, y),
            Item::Curve {
                x0,
                c0x,
                c1x,
                x1,
                ..
            } => format!("curve {} {} {} {}", x0, c0x, c1x, x1),
        })
        .collect()
}

fn offsets(m: &Measure) -> Vec<&str> {
    m.chain.iter().map(|t| t.e.as_str()).collect()
}

#[test]
fn boxes_and_ellipses_are_measured_by_their_size() {
    let out = measures(&rect("7"));
    assert_eq!(out.len(), 1);
    assert_eq!(offsets(&out[0]), vec!["7"]);
    assert_eq!(shown(&out[0].items), vec!["corners 4 2"]);

    let bitmap = Shape::Bitmap(Bitmap {
        cut_index: 0,
        xform: xform("1"),
        w: "3".to_string(),
        h: "5".to_string(),
        data: String::new(),
    });
    assert_eq!(shown(&measures(&bitmap)[0].items), vec!["corners 3 5"]);

    let ellipse = Shape::Ellipse(Ellipse {
        cut_index: 0,
        xform: xform("1"),
        rx: "2".to_string(),
        ry: "6".to_string(),
    });
    assert_eq!(shown(&measures(&ellipse)[0].items), vec!["ellipse 2 6"]);
}

#[test]
fn empty_path_and_empty_group_have_no_bounds() {
    assert!(measures(&path("L0 1", vec![], vec![line(0, 1)])).is_empty());
    assert!(measures(&path("LineClosed", vec![], vec![])).is_empty());
    assert!(measures(&group("1", vec![])).is_empty());
    assert!(measures(&group("1", vec![group("2", vec![]), path("", vec![], vec![])])).is_empty());
    // A path all of whose primitives are off has nothing to measure.
    assert!(measures(&path("L5 6", vec![vertex("1", "2")], vec![bezier(5, 0), line(7, 8)])).is_empty());
}

#[test]
fn closed_polyline_and_path_without_primitives_count_every_vertex() {
    let verts = || vec![vertex("1", "2"), vertex("3", "4"), vertex("5", "6")];
    for p in [
        path("LineClosed", verts(), vec![line(0, 1)]),
        path("", verts(), vec![]),
    ] {
        let out = measures(&p);
        assert_eq!(out.len(), 1);
        assert_eq!(offsets(&out[0]), vec!["9"]);
        assert_eq!(
            shown(&out[0].items),
            vec!["point 1 2", "point 3 4", "point 5 6"]
        );
    }
}

#[test]
fn lines_count_each_end_that_is_there() {
    let p = path(
        "L0 1L1 9L9 0",
        vec![vertex("1", "2"), vertex("3", "4"), vertex("5", "6")],
        vec![line(0, 1), line(1, 9), line(9, 0)],
    );
    assert_eq!(
        shown(&measures(&p)[0].items),
        vec!["point 1 2", "point 3 4", "point 3 4", "point 1 2"]
    );
}

#[test]
fn curves_count_ends_control_points_and_extremes() {
    let verts = vec![
        curve_vertex("0", Some("1"), None),
        curve_vertex("10", None, Some("9")),
        curve_vertex("20", None, None),
    ];
    let p = path(
        "B0 1B1 2B0 7",
        verts,
        vec![bezier(0, 1), bezier(1, 2), bezier(0, 7)],
    );
    assert_eq!(
        shown(&measures(&p)[0].items),
        vec![
            "point 0 0",
            "point 10 0",
            "point 1 1",
            "point 9 9",
            "curve 0 1 9 10",
            "point 10 0",
            "point 20 0",
        ]
    );
}

#[test]
fn a_control_point_needs_both_its_coordinates() {
    let mut start = curve_vertex("0", Some("1"), None);
    start.c0y = None;
    let p = path(
        "B0 1",
        vec![start, curve_vertex("10", None, Some("9"))],
        vec![bezier(0, 1)],
    );
    assert_eq!(
        shown(&measures(&p)[0].items),
        vec!["point 0 0", "point 10 0", "point 9 9"]
    );
}

#[test]
fn groups_hand_their_transforms_down() {
    let g = group(
        "1",
        vec![
            rect("2"),
            group("3", vec![rect("4"), group("5", vec![]), rect("6")]),
            path("", vec![], vec![]),
            group("7", vec![rect("8")]),
        ],
    );
    let out = measures(&g);
    let chains: Vec<Vec<&str>> = out.iter().map(offsets).collect();
    assert_eq!(
        chains,
        vec![
            vec!["1", "2"],
            vec!["1", "3", "4"],
            vec!["1", "3", "6"],
            vec!["1", "7", "8"]
        ]
    );
}
