use laser_tools::svg::{flatten, lbrn2_to_svg, lbrn2_to_svg_with_log, render, Element, Flat, ViewBox};
use laser_tools::types::{
    CutSetting, Ellipse, Group, Path, PathPrimitive, Rect, Shape, Vec2, XForm,
};

const DEFAULT_STYLE: &str = "stroke:#000000;stroke-width:0.050000mm;fill:none";
const EMPTY_DOCUMENT: &str = r#"<svg xmlns="http://www.w3.org/2000/svg" width="100mm" height="100mm" viewBox="0 0 100 100"><text>No shapes found</text></svg>"#;

fn f(n: f64) -> String {
    let n = if n == 0.0 { 0.0 } else { n };
    format!("{:.6}", n)
}

fn xform(v: [f64; 6]) -> XForm {
    XForm {
        a: v[0].to_string(),
        b: v[1].to_string(),
        c: v[2].to_string(),
        d: v[3].to_string(),
        e: v[4].to_string(),
        f: v[5].to_string(),
    }
}

fn numbers(t: &XForm) -> [f64; 6] {
    [&t.a, &t.b, &t.c, &t.d, &t.e, &t.f].map(|s| s.parse().unwrap())
}

fn compose(p: [f64; 6], q: [f64; 6]) -> [f64; 6] {
    [
        p[0] * q[0] + p[2] * q[1],
        p[1] * q[0] + p[3] * q[1],
        p[0] * q[2] + p[2] * q[3],
        p[1] * q[2] + p[3] * q[3],
        p[0] * q[4] + p[2] * q[5] + p[4],
        p[1] * q[4] + p[3] * q[5] + p[5],
    ]
}

/// The six numbers of the SVG matrix of a chain of transforms.
fn matrix(chain: &[XForm]) -> XForm {
    let mut all = chain.iter().map(numbers);
    let first = all.next().unwrap();
    let t = all.fold(first, compose);
    XForm {
        a: f(t[0]),
        b: f(-t[1]),
        c: f(t[2]),
        d: f(-t[3]),
        e: f(t[4]),
        f: f(-t[5]),
    }
}

fn identity_matrix() -> XForm {
    matrix(&[XForm::identity()])
}

fn ellipse(rx: f64, ry: f64, t: [f64; 6]) -> Shape {
    Shape::Ellipse(Ellipse {
        cut_index: 0,
        xform: xform(t),
        rx: rx.to_string(),
        ry: ry.to_string(),
    })
}

fn rect(w: f64, h: f64, t: [f64; 6]) -> Shape {
    Shape::Rect(Rect {
        cut_index: 0,
        xform: xform(t),
        w: w.to_string(),
        h: h.to_string(),
        cr: "0".to_string(),
    })
}

fn group(t: [f64; 6], children: Vec<Shape>) -> Shape {
    Shape::Group(Group {
        cut_index: 0,
        xform: xform(t),
        children,
    })
}

/// The element of a flattened ellipse, with its numbers worked out.
fn ellipse_element(flat: &Flat) -> Element {
    match flat {
        Flat::Leaf {
            chain,
            shape: Shape::Ellipse(e),
        } => {
            let rx: f64 = e.rx.parse().unwrap();
            let ry: f64 = e.ry.parse().unwrap();
            if (rx - ry).abs() < 1e-10 {
                Element::Circle {
                    cut_index: e.cut_index,
                    matrix: matrix(chain),
                    r: f(rx),
                }
            } else {
                Element::Ellipse {
                    cut_index: e.cut_index,
                    matrix: matrix(chain),
                    rx: f(rx),
                    ry: f(ry),
                }
            }
        }
        other => panic!("not an ellipse: {:?}", other),
    }
}

fn view_box() -> ViewBox {
    ViewBox {
        min_x: f(-5.0),
        min_y: f(-10.0),
        width: f(20.0),
        height: f(30.5),
    }
}

#[test]
fn group_with_one_ellipse_is_drawn_as_the_ellipse() {
    let g = group(
        [2.0, 0.0, 0.0, 2.0, 10.0, 20.0],
        vec![ellipse(3.0, 1.5, [1.0, 0.0, 0.0, 1.0, 5.0, 5.0])],
    );
    let flat = flatten(&g);
    match &flat {
        Flat::Leaf { chain, shape } => {
            assert_eq!(chain.len(), 2);
            assert_eq!(numbers(&chain[0]), [2.0, 0.0, 0.0, 2.0, 10.0, 20.0]);
            assert_eq!(numbers(&chain[1]), [1.0, 0.0, 0.0, 1.0, 5.0, 5.0]);
            assert!(matches!(shape, Shape::Ellipse(_)));
        }
        other => panic!("kept as a group: {:?}", other),
    }
    let mut log = Vec::new();
    let svg = render(&ellipse_element(&flat), None, &mut log);
    assert_eq!(
        svg,
        format!(
            "<ellipse cx=\"0\" cy=\"0\" rx=\"3.000000\" ry=\"1.500000\" style=\"{}\" transform=\"matrix(2.000000 0.000000 0.000000 -2.000000 20.000000 -30.000000)\"/>",
            DEFAULT_STYLE
        )
    );
    assert!(!svg.contains("<g"));
    assert!(log.is_empty());
}

#[test]
fn nested_single_children_are_all_flattened() {
    let inner = group(
        [1.0, 0.0, 0.0, 1.0, 1.0, 0.0],
        vec![rect(1.0, 1.0, [1.0, 0.0, 0.0, 1.0, 0.0, 1.0])],
    );
    let outer = group([3.0, 0.0, 0.0, 3.0, 0.0, 0.0], vec![inner]);
    match flatten(&outer) {
        Flat::Leaf { chain, shape } => {
            let firsts: Vec<f64> = chain.iter().map(|t| numbers(t)[0]).collect();
            assert_eq!(firsts, vec![3.0, 1.0, 1.0]);
            assert_eq!(numbers(&matrix(&chain)), [3.0, 0.0, 0.0, -3.0, 3.0, -3.0]);
            assert!(matches!(shape, Shape::Rect(_)));
        }
        other => panic!("kept as a group: {:?}", other),
    }
}

#[test]
fn groups_of_several_are_kept_and_their_children_start_anew() {
    let single = group(
        [1.0, 0.0, 0.0, 1.0, 7.0, 7.0],
        vec![ellipse(1.0, 1.0, [1.0, 0.0, 0.0, 1.0, 0.0, 0.0])],
    );
    let g = group(
        [2.0, 0.0, 0.0, 2.0, 0.0, 0.0],
        vec![rect(1.0, 1.0, [1.0, 0.0, 0.0, 1.0, 4.0, 4.0]), single],
    );
    // A group of one around it joins the chain of the group it holds.
    let wrapped = group([5.0, 0.0, 0.0, 5.0, 0.0, 0.0], vec![g]);
    match flatten(&wrapped) {
        Flat::Group {
            chain, children, ..
        } => {
            let firsts: Vec<f64> = chain.iter().map(|t| numbers(t)[0]).collect();
            assert_eq!(firsts, vec![5.0, 2.0]);
            assert_eq!(children.len(), 2);
            match &children[0] {
                Flat::Leaf { chain, .. } => {
                    assert_eq!(chain.len(), 1);
                    assert_eq!(numbers(&chain[0])[4], 4.0);
                }
                other => panic!("unexpected {:?}", other),
            }
            match &children[1] {
                Flat::Leaf { chain, shape } => {
                    assert_eq!(chain.len(), 2);
                    assert_eq!(numbers(&chain[0])[4], 7.0);
                    assert!(matches!(shape, Shape::Ellipse(_)));
                }
                other => panic!("unexpected {:?}", other),
            }
        }
        other => panic!("flattened away: {:?}", other),
    }
}

#[test]
fn flattening_leaves_no_group_of_one() {
    fn flat(f: &Flat) -> bool {
        match f {
            Flat::Leaf { shape, .. } => !matches!(shape, Shape::Group(_)),
            Flat::Group { children, .. } => children.len() != 1 && children.iter().all(flat),
        }
    }
    let id = [1.0, 0.0, 0.0, 1.0, 0.0, 0.0];
    let leaf = || rect(1.0, 1.0, id);
    let shapes = vec![
        leaf(),
        group(id, vec![]),
        group(id, vec![leaf()]),
        group(id, vec![group(id, vec![group(id, vec![])])]),
        group(
            id,
            vec![
                group(id, vec![leaf()]),
                group(id, vec![group(id, vec![leaf(), leaf()])]),
                group(id, vec![]),
            ],
        ),
    ];
    for s in &shapes {
        assert!(flat(&flatten(s)), "{:?}", s);
    }
    assert!(matches!(
        flatten(&shapes[3]),
        Flat::Group { chain, children, .. } if chain.len() == 3 && children.is_empty()
    ));
}

#[test]
fn empty_project_gives_the_fixed_document() {
    assert_eq!(lbrn2_to_svg(&[], &[], &view_box()), EMPTY_DOCUMENT);
    let settings = vec![CutSetting {
        index: 0,
        name: String::new(),
        color: Some("#123456".to_string()),
        stroke_width: None,
    }];
    assert_eq!(lbrn2_to_svg(&[], &settings, &view_box()), EMPTY_DOCUMENT);
    let mut log = vec!["kept".to_string()];
    assert_eq!(
        lbrn2_to_svg_with_log(&[], &[], &view_box(), &mut log),
        EMPTY_DOCUMENT
    );
    assert_eq!(log, vec!["kept"]);
}

#[test]
fn rect_is_written_with_and_without_corners() {
    let mut log = Vec::new();
    let plain = Element::Rect {
        cut_index: 0,
        matrix: identity_matrix(),
        x: f(-5.0),
        y: f(-2.5),
        width: f(10.0),
        height: f(5.0),
        corner: None,
    };
    assert_eq!(
        render(&plain, None, &mut log),
        format!(
            "<rect x=\"-5.000000\" y=\"-2.500000\" width=\"10.000000\" height=\"5.000000\" style=\"{}\" transform=\"matrix(1.000000 0.000000 0.000000 -1.000000 0.000000 0.000000)\"/>",
            DEFAULT_STYLE
        )
    );
    let rounded = Element::Rect {
        cut_index: 0,
        matrix: identity_matrix(),
        x: f(-5.0),
        y: f(-2.5),
        width: f(10.0),
        height: f(5.0),
        corner: Some(f(1.0)),
    };
    assert_eq!(
        render(&rounded, None, &mut log),
        format!(
            "<rect x=\"-5.000000\" y=\"-2.500000\" width=\"10.000000\" height=\"5.000000\" rx=\"1.000000\" ry=\"1.000000\" style=\"{}\" transform=\"matrix(1.000000 0.000000 0.000000 -1.000000 0.000000 0.000000)\"/>",
            DEFAULT_STYLE
        )
    );
    assert!(log.is_empty());
}

#[test]
fn circle_takes_its_style_from_the_cut_settings() {
    let settings = vec![
        CutSetting {
            index: 1,
            name: String::new(),
            color: None,
            stroke_width: None,
        },
        CutSetting {
            index: 2,
            name: String::new(),
            color: Some("#ABCDEF".to_string()),
            stroke_width: Some("0.1mm".to_string()),
        },
    ];
    let circle = |cut_index| Element::Circle {
        cut_index,
        matrix: matrix(&[xform([1.0, 0.0, 0.0, 1.0, 55.0, 55.0])]),
        r: f(5.0),
    };
    let mut log = Vec::new();
    assert_eq!(
        render(&circle(2), Some(&settings), &mut log),
        "<circle cx=\"0\" cy=\"0\" r=\"5.000000\" style=\"stroke:#ABCDEF;stroke-width:0.1mm;fill:none\" transform=\"matrix(1.000000 0.000000 0.000000 -1.000000 55.000000 -55.000000)\"/>"
    );
    assert!(render(&circle(1), Some(&settings), &mut log)
        .contains("style=\"stroke:#FF0000;stroke-width:0.050000mm;fill:none\""));
    assert!(render(&circle(9), Some(&settings), &mut log)
        .contains(&format!("style=\"{}\"", DEFAULT_STYLE)));
}

fn path_element(prim_list: &str, verts: Vec<Vec2>, prims: Vec<PathPrimitive>) -> Element {
    Element::Path {
        matrix: identity_matrix(),
        path: Path {
            cut_index: 0,
            xform: XForm::identity(),
            vert_list: String::new(),
            prim_list: prim_list.to_string(),
            parsed_verts: verts,
            parsed_primitives: prims,
        },
    }
}

#[test]
fn path_is_written_or_left_out_with_a_warning() {
    let v = |x: f64, y: f64| Vec2::new(format!("{:.6}", x), format!("{:.6}", y));
    let mut log = Vec::new();
    let good = path_element("LineClosed", vec![v(1.0, 2.0)], vec![]);
    assert_eq!(
        render(&good, None, &mut log),
        format!(
            "<path d=\"M1.000000,2.000000Z\" style=\"{}\" transform=\"matrix(1.000000 0.000000 0.000000 -1.000000 0.000000 0.000000)\"/>",
            DEFAULT_STYLE
        )
    );
    assert!(log.is_empty());

    let no_verts = path_element("L0 1", vec![], vec![]);
    assert_eq!(render(&no_verts, None, &mut log), "");
    assert_eq!(log, vec!["Path shape with no vertices"]);

    log.clear();
    let no_prims = path_element("", vec![v(1.0, 2.0)], vec![]);
    assert_eq!(render(&no_prims, None, &mut log), "");
    assert_eq!(
        log,
        vec![
            "Path PrimList missing or parsedVerts/parsedPrimitives missing/empty, skipping.",
            "Path shape with no valid primitives"
        ]
    );
}

#[test]
fn image_carries_no_style() {
    let mut log = Vec::new();
    let image = |data: &str| Element::Image {
        matrix: identity_matrix(),
        x: f(-1.0),
        y: f(-2.0),
        width: f(2.0),
        height: f(4.0),
        data: data.to_string(),
    };
    assert_eq!(
        render(&image("QUJD"), None, &mut log),
        "<image x=\"-1.000000\" y=\"-2.000000\" width=\"2.000000\" height=\"4.000000\" xlink:href=\"data:image/png;base64,QUJD\" transform=\"matrix(1.000000 0.000000 0.000000 -1.000000 0.000000 0.000000)\"/>"
    );
    assert!(log.is_empty());
    assert_eq!(render(&image(""), None, &mut log), "");
    assert_eq!(log, vec!["Bitmap shape missing Data"]);
}

#[test]
fn group_wraps_what_can_be_written_of_its_children() {
    let circle = |r: f64| Element::Circle {
        cut_index: 0,
        matrix: identity_matrix(),
        r: f(r),
    };
    let mut log = Vec::new();
    let g = Element::Group {
        matrix: matrix(&[xform([1.0, 0.0, 0.0, 1.0, 3.0, 4.0])]),
        children: vec![
            circle(1.0),
            path_element("L0 1", vec![], vec![]),
            circle(2.0),
        ],
    };
    let one = |r: &str| {
        format!(
            "<circle cx=\"0\" cy=\"0\" r=\"{}\" style=\"{}\" transform=\"matrix(1.000000 0.000000 0.000000 -1.000000 0.000000 0.000000)\"/>",
            r, DEFAULT_STYLE
        )
    };
    assert_eq!(
        render(&g, None, &mut log),
        format!(
            "<g transform=\"matrix(1.000000 0.000000 0.000000 -1.000000 3.000000 -4.000000)\">\n    {}\n    {}\n</g>",
            one("1.000000"),
            one("2.000000")
        )
    );
    assert_eq!(log, vec!["Path shape with no vertices"]);

    log.clear();
    let empty = Element::Group {
        matrix: identity_matrix(),
        children: vec![],
    };
    assert_eq!(render(&empty, None, &mut log), "");
    assert_eq!(log, vec!["Group shape with no children"]);

    log.clear();
    let hollow = Element::Group {
        matrix: identity_matrix(),
        children: vec![path_element("", vec![], vec![]), empty],
    };
    assert_eq!(
        render(&hollow, None, &mut log),
        "<g transform=\"matrix(1.000000 0.000000 0.000000 -1.000000 0.000000 0.000000)\">\n    \n</g>"
    );
    assert_eq!(
        log,
        vec!["Path shape with no vertices", "Group shape with no children"]
    );
}

#[test]
fn document_holds_its_elements_in_order() {
    let circle = |r: f64| Element::Circle {
        cut_index: 0,
        matrix: identity_matrix(),
        r: f(r),
    };
    let elements = vec![
        circle(1.0),
        Element::Group {
            matrix: identity_matrix(),
            children: vec![],
        },
        circle(2.0),
    ];
    let mut log = Vec::new();
    let svg = lbrn2_to_svg_with_log(&elements, &[], &view_box(), &mut log);
    let one = |r: &str| {
        format!(
            "<circle cx=\"0\" cy=\"0\" r=\"{}\" style=\"{}\" transform=\"matrix(1.000000 0.000000 0.000000 -1.000000 0.000000 0.000000)\"/>",
            r, DEFAULT_STYLE
        )
    };
    assert_eq!(
        svg,
        format!(
            "<?xml version=\"1.0\" encoding=\"UTF-8\" standalone=\"no\"?>\n<svg xmlns=\"http://www.w3.org/2000/svg\" xmlns:xlink=\"http://www.w3.org/1999/xlink\" width=\"20.000000mm\" height=\"30.500000mm\" viewBox=\"-5.000000 -10.000000 20.000000 30.500000\">\n    {}\n    {}\n</svg>",
            one("1.000000"),
            one("2.000000")
        )
    );
    assert_eq!(log, vec!["Group shape with no children"]);
    assert_eq!(lbrn2_to_svg(&elements, &[], &view_box()), svg);
}

#[test]
fn document_uses_the_cut_settings_where_there_are_any() {
    let settings = vec![CutSetting {
        index: 0,
        name: String::new(),
        color: Some("#010203".to_string()),
        stroke_width: None,
    }];
    let elements = vec![Element::Circle {
        cut_index: 0,
        matrix: identity_matrix(),
        r: f(1.0),
    }];
    assert!(lbrn2_to_svg(&elements, &settings, &view_box())
        .contains("style=\"stroke:#010203;stroke-width:0.050000mm;fill:none\""));
    assert!(lbrn2_to_svg(&elements, &[], &view_box())
        .contains(&format!("style=\"{}\"", DEFAULT_STYLE)));
}
