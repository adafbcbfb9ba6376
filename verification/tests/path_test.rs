use laser_tools::path::{generate_path_data, generate_path_data_from_parts};
use laser_tools::types::{Path, PathPrimitive, Vec2, XForm};

fn n(v: f64) -> String {
    format!("{:.6}", v)
}

fn vertex(x: f64, y: f64) -> Vec2 {
    Vec2::new(n(x), n(y))
}

fn curve_vertex(x: f64, y: f64, c0: Option<(f64, f64)>, c1: Option<(f64, f64)>) -> Vec2 {
    Vec2::with_control_points(
        n(x),
        n(y),
        c0.map(|c| n(c.0)),
        c0.map(|c| n(c.1)),
        c1.map(|c| n(c.0)),
        c1.map(|c| n(c.1)),
    )
}

fn path(prim_list: &str, verts: Vec<Vec2>, prims: Vec<PathPrimitive>) -> Path {
    Path {
        cut_index: 0,
        xform: XForm::identity(),
        vert_list: String::new(),
        prim_list: prim_list.to_string(),
        parsed_verts: verts,
        parsed_primitives: prims,
    }
}

fn line(a: usize, b: usize) -> PathPrimitive {
    PathPrimitive::Line {
        start_idx: a,
        end_idx: b,
    }
}

fn bezier(a: usize, b: usize) -> PathPrimitive {
    PathPrimitive::Bezier {
        start_idx: a,
        end_idx: b,
    }
}

#[test]
fn test_line_closed_with_0_vertices() {
    let mut log = Vec::new();
    let result = generate_path_data_from_parts("LineClosed", &[], &[], &mut log);
    assert_eq!(result, "");
    assert!(log[0].contains("missing/empty"));
}

#[test]
fn test_line_closed_with_1_vertex() {
    let mut log = Vec::new();
    let verts = vec![Some(vertex(1.0, 2.0))];
    let result = generate_path_data_from_parts("LineClosed", &verts, &[], &mut log);
    assert_eq!(result, "M1.000000,2.000000Z");
}

#[test]
fn test_line_closed_with_nullish_first_vertex() {
    let mut log = Vec::new();
    let verts = vec![None, Some(vertex(2.0, 3.0))];
    let result = generate_path_data_from_parts("LineClosed", &verts, &[], &mut log);
    assert_eq!(result, "");
    assert!(log[0].contains("nullish first vertex"));
}

#[test]
fn test_skips_if_verts_or_prims_missing() {
    let mut log = Vec::new();
    let result = generate_path_data_from_parts("X", &[], &[], &mut log);
    assert_eq!(result, "");
    assert!(log[0].contains("missing/empty"));
}

#[test]
fn test_line_with_invalid_indices() {
    let mut log = Vec::new();
    let verts = vec![Some(vertex(0.0, 0.0)), Some(vertex(1.0, 1.0))];
    let prims = vec![PathPrimitive::Line {
        start_idx: usize::MAX, // Represents -1
        end_idx: 1,
    }];
    let result = generate_path_data_from_parts("", &verts, &prims, &mut log);
    assert_eq!(result, "");
    assert!(log[0].contains("Invalid indices"));
}

#[test]
fn test_line_with_invalid_vertex_index() {
    let mut log = Vec::new();
    let verts = vec![Some(vertex(0.0, 0.0))];
    let prims = vec![PathPrimitive::Line {
        start_idx: 0,
        end_idx: 1,
    }];
    let result = generate_path_data_from_parts("", &verts, &prims, &mut log);
    assert_eq!(result, "");
    assert!(log[0].contains("Invalid vertex index"));
}

#[test]
fn test_bezier_missing_control_points_fallback() {
    let mut log = Vec::new();
    let verts = vec![Some(vertex(0.0, 0.0)), Some(vertex(1.0, 1.0))];
    let prims = vec![PathPrimitive::Bezier {
        start_idx: 0,
        end_idx: 1,
    }];
    let result = generate_path_data_from_parts("", &verts, &prims, &mut log);
    assert!(result.contains("M0.000000,0.000000 L1.000000,1.000000"));
    assert!(log[0].contains("missing control points"));
}

#[test]
fn test_unknown_primitive_type() {
    // A primitive is a line or a Bezier segment and nothing else: there is
    // no value of the type that stands for an unknown kind.
    for p in [line(0, 1), bezier(0, 1)] {
        match p {
            PathPrimitive::Line { .. } | PathPrimitive::Bezier { .. } => {}
        }
    }
}

#[test]
fn closed_polyline_of_a_path() {
    let mut log = Vec::new();
    let p = path(
        "LineClosed",
        vec![vertex(0.0, 0.0), vertex(10.0, 0.0), vertex(10.0, 5.5)],
        vec![],
    );
    assert_eq!(
        generate_path_data(&p, &mut log),
        "M0.000000,0.000000 L10.000000,0.000000 L10.000000,5.500000Z"
    );
    assert!(log.is_empty());

    let single = path("LineClosed", vec![vertex(1.0, 2.0)], vec![]);
    assert_eq!(generate_path_data(&single, &mut log), "M1.000000,2.000000Z");
    assert!(log.is_empty());

    let empty = path("LineClosed", vec![], vec![]);
    assert_eq!(generate_path_data(&empty, &mut log), "");
    assert_eq!(
        log,
        vec!["Path LineClosed or parsedVerts/parsedPrimitives missing/empty, skipping."]
    );
}

#[test]
fn path_without_primitives_is_empty_with_a_warning() {
    let mut log = vec!["kept".to_string()];
    let p = path("", vec![vertex(0.0, 0.0)], vec![]);
    assert_eq!(generate_path_data(&p, &mut log), "");
    let q = path("L0 1", vec![], vec![line(0, 1)]);
    assert_eq!(generate_path_data(&q, &mut log), "");
    assert_eq!(
        log,
        vec![
            "kept",
            "Path PrimList missing or parsedVerts/parsedPrimitives missing/empty, skipping.",
            "Path L0 1 or parsedVerts/parsedPrimitives missing/empty, skipping.",
        ]
    );
}

#[test]
fn chained_lines_share_their_move_and_close() {
    let mut log = Vec::new();
    let p = path(
        "L0 1L1 2L2 0",
        vec![vertex(0.0, 0.0), vertex(1.0, 0.0), vertex(1.0, 1.0)],
        vec![line(0, 1), line(1, 2), line(2, 0)],
    );
    assert_eq!(
        generate_path_data(&p, &mut log),
        "M0.000000,0.000000 L1.000000,0.000000 L1.000000,1.000000 L0.000000,0.000000Z"
    );
    assert!(log.is_empty());
}

#[test]
fn primitives_that_do_not_chain_get_a_move_and_stay_open() {
    let mut log = Vec::new();
    let p = path(
        "L0 1L2 3",
        vec![
            vertex(0.0, 0.0),
            vertex(1.0, 0.0),
            vertex(5.0, 5.0),
            vertex(6.0, 5.0),
        ],
        vec![line(0, 1), line(2, 3)],
    );
    assert_eq!(
        generate_path_data(&p, &mut log),
        "M0.000000,0.000000 L1.000000,0.000000 M5.000000,5.000000 L6.000000,5.000000"
    );
}

#[test]
fn closing_goes_by_index_and_not_by_place() {
    let mut log = Vec::new();
    // Vertex 2 lies where vertex 0 lies, but it is another vertex.
    let p = path(
        "L0 1L1 2",
        vec![vertex(0.0, 0.0), vertex(1.0, 0.0), vertex(0.0, 0.0)],
        vec![line(0, 1), line(1, 2)],
    );
    assert_eq!(
        generate_path_data(&p, &mut log),
        "M0.000000,0.000000 L1.000000,0.000000 L0.000000,0.000000"
    );
    // A line from a vertex to itself ends where the path began.
    let q = path("L0 0", vec![vertex(3.0, 4.0)], vec![line(0, 0)]);
    assert_eq!(
        generate_path_data(&q, &mut log),
        "M3.000000,4.000000 L3.000000,4.000000Z"
    );
}

#[test]
fn bezier_with_control_points_is_a_curve() {
    let mut log = Vec::new();
    let p = path(
        "B0 1",
        vec![
            curve_vertex(0.0, 0.0, Some((1.0, 2.0)), None),
            curve_vertex(10.0, 0.0, None, Some((9.0, -2.0))),
        ],
        vec![bezier(0, 1)],
    );
    assert_eq!(
        generate_path_data(&p, &mut log),
        "M0.000000,0.000000 C1.000000,2.000000 9.000000,-2.000000 10.000000,0.000000"
    );
    assert!(log.is_empty());
}

#[test]
fn bezier_needs_both_coordinates_of_both_control_points() {
    let mut log = Vec::new();
    let mut start = curve_vertex(0.0, 0.0, Some((1.0, 2.0)), None);
    start.c0y = None;
    let p = path(
        "B0 1",
        vec![start, curve_vertex(10.0, 0.0, None, Some((9.0, -2.0)))],
        vec![bezier(0, 1)],
    );
    assert_eq!(
        generate_path_data(&p, &mut log),
        "M0.000000,0.000000 L10.000000,0.000000"
    );
    assert_eq!(
        log,
        vec!["Bezier primitive 0 1 missing control points. Falling back to Line."]
    );
}

#[test]
fn invalid_primitive_is_passed_over_and_the_rest_is_drawn() {
    let mut log = Vec::new();
    let p = path(
        "L0 1L0 7B9 0L1 0",
        vec![vertex(0.0, 0.0), vertex(1.0, 1.0)],
        vec![line(0, 1), line(0, 7), bezier(9, 0), line(1, 0)],
    );
    assert_eq!(
        generate_path_data(&p, &mut log),
        "M0.000000,0.000000 L1.000000,1.000000 L0.000000,0.000000Z"
    );
    assert_eq!(
        log,
        vec![
            "Invalid indices for Line: 0, 7",
            "Invalid indices for Bezier: 9, 0"
        ]
    );
}

#[test]
fn path_of_only_invalid_primitives_is_empty() {
    let mut log = Vec::new();
    let p = path("L5 6", vec![vertex(0.0, 0.0)], vec![line(5, 6)]);
    assert_eq!(generate_path_data(&p, &mut log), "");
    assert_eq!(log, vec!["Invalid indices for Line: 5, 6"]);
}

#[test]
fn parts_tell_large_indices_from_missing_vertices() {
    let mut log = Vec::new();
    let verts = vec![Some(vertex(0.0, 0.0)), None, Some(vertex(2.0, 2.0))];
    let prims = vec![
        line(1000001, 0),
        bezier(0, 1000001),
        line(1000000, 0),
        line(0, 1),
        bezier(1, 2),
        line(0, 2),
    ];
    let result = generate_path_data_from_parts("", &verts, &prims, &mut log);
    assert_eq!(result, "M0.000000,0.000000 L2.000000,2.000000");
    assert_eq!(
        log,
        vec![
            "Invalid indices for Line: 1000001, 0",
            "Invalid indices for Bezier: 0, 1000001",
            "Invalid vertex index for Line 1000000 0",
            "Invalid vertex index for Line 0 1",
            "Invalid vertex index for Bezier 1 2",
        ]
    );
}

#[test]
fn parts_without_any_vertex_are_empty_with_a_warning() {
    let mut log = Vec::new();
    let verts: Vec<Option<Vec2>> = vec![None, None];
    let result = generate_path_data_from_parts("", &verts, &[line(0, 1)], &mut log);
    assert_eq!(result, "");
    assert_eq!(
        log,
        vec!["Path PrimList missing or parsedVerts/parsedPrimitives missing/empty, skipping."]
    );
}

#[test]
fn closed_polyline_of_parts_stops_at_a_missing_vertex() {
    let mut log = Vec::new();
    let verts = vec![
        Some(vertex(0.0, 0.0)),
        Some(vertex(1.0, 0.0)),
        None,
        Some(vertex(2.0, 2.0)),
    ];
    let result = generate_path_data_from_parts("LineClosed", &verts, &[], &mut log);
    assert_eq!(result, "M0.000000,0.000000 L1.000000,0.000000Z");
    assert_eq!(
        log,
        vec!["Path with 'LineClosed' encountered a nullish vertex at index 2, stopping line generation for this path."]
    );
}

#[test]
fn closed_polyline_of_parts_with_one_vertex_there_gives_no_warning() {
    let mut log = Vec::new();
    let verts = vec![Some(vertex(4.0, 5.0)), None, None];
    let result = generate_path_data_from_parts("LineClosed", &verts, &[], &mut log);
    assert_eq!(result, "M4.000000,5.000000Z");
    assert!(log.is_empty());
}

#[test]
fn path_data_writes_coordinates_as_they_are_held() {
    let mut log = Vec::new();
    let p = path(
        "L0 1",
        vec![
            Vec2::new("1".to_string(), "-2.5".to_string()),
            Vec2::new("3e2".to_string(), "4".to_string()),
        ],
        vec![line(0, 1)],
    );
    assert_eq!(generate_path_data(&p, &mut log), "M1,-2.5 L3e2,4");
}

#[test]
fn the_log_is_only_added_to() {
    let mut log = vec!["first".to_string(), "second".to_string()];
    let p = path("L5 6", vec![vertex(0.0, 0.0)], vec![line(5, 6)]);
    generate_path_data(&p, &mut log);
    generate_path_data_from_parts("LineClosed", &[None], &[], &mut log);
    assert_eq!(&log[..2], ["first", "second"]);
    assert_eq!(log.len(), 4);
}
