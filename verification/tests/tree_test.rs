use laser_tools::tree::{
    parse_events, parse_events_with_log, parse_lbrn2_complete, parse_lbrn2_with_log,
};
use laser_tools::types::{PathPrimitive, Shape};
use laser_tools::xml::{read_events, XmlEvent};

fn num(s: &str) -> f64 {
    s.parse().unwrap()
}

fn document(body: &str) -> String {
    format!(
        "<?xml version=\"1.0\" encoding=\"UTF-8\"?>\n<LightBurnProject AppVersion=\"1.7.08\" FormatVersion=\"1\">\n{}\n</LightBurnProject>",
        body
    )
}

fn start(name: &str, attributes: &[(&str, &str)]) -> XmlEvent {
    XmlEvent::Start {
        name: name.to_string(),
        attributes: attributes
            .iter()
            .map(|(k, v)| (k.to_string(), v.to_string()))
            .collect(),
    }
}

fn empty(name: &str, attributes: &[(&str, &str)]) -> XmlEvent {
    XmlEvent::Empty {
        name: name.to_string(),
        attributes: attributes
            .iter()
            .map(|(k, v)| (k.to_string(), v.to_string()))
            .collect(),
    }
}

fn end(name: &str) -> XmlEvent {
    XmlEvent::End {
        name: name.to_string(),
    }
}

fn text(text: &str) -> XmlEvent {
    XmlEvent::Text {
        text: text.to_string(),
    }
}

#[test]
fn test_parse_circle() {
    let xml = r#"<?xml version="1.0" encoding="UTF-8"?>
<LightBurnProject AppVersion="1.7.08" FormatVersion="1">
  <Shape Type="Ellipse" CutIndex="0" Rx="5" Ry="5">
    <XForm>1 0 0 1 55 55</XForm>
  </Shape>
</LightBurnProject>"#;

    let project = parse_lbrn2_complete(xml).unwrap();
    assert_eq!(project.shapes.len(), 1);
    match &project.shapes[0] {
        Shape::Ellipse(e) => {
            assert_eq!(num(&e.rx), 5.0);
            assert_eq!(num(&e.ry), 5.0);
            assert_eq!(num(&e.xform.e), 55.0);
            assert_eq!(num(&e.xform.f), 55.0);
        }
        _ => panic!("Expected Ellipse"),
    }
}

#[test]
fn document_is_read_into_its_events() {
    let events = read_events(
        "<?xml version=\"1.0\"?><a k=\"v\" n='1'>  hello  <b/><!-- c --></a>",
    );
    let shown: Vec<String> = events.iter().map(|e| format!("{:?}", e)).collect();
    assert_eq!(
        shown,
        vec![
            "Other",
            "Start { name: \"a\", attributes: [(\"k\", \"v\"), (\"n\", \"1\")] }",
            "Text { text: \"hello\" }",
            "Empty { name: \"b\", attributes: [] }",
            "Other",
            "End { name: \"a\" }",
            "Eof",
        ]
    );
}

#[test]
fn events_of_a_malformed_document_end_with_the_error() {
    let events = read_events("<a><b></a>");
    assert!(matches!(events.last(), Some(XmlEvent::Error { .. })));
    assert_eq!(
        events
            .iter()
            .filter(|e| matches!(e, XmlEvent::Error { .. } | XmlEvent::Eof))
            .count(),
        1
    );
    let events = read_events("");
    assert_eq!(events.len(), 1);
    assert!(matches!(events[0], XmlEvent::Eof));
}

#[test]
fn malformed_attributes_are_left_out() {
    let events = read_events("<a good=\"1\" bad also=\"2\"/>");
    match &events[0] {
        XmlEvent::Empty { name, attributes } => {
            assert_eq!(name, "a");
            assert_eq!(
                attributes,
                &vec![
                    ("good".to_string(), "1".to_string()),
                    ("also".to_string(), "2".to_string())
                ]
            );
        }
        other => panic!("unexpected {:?}", other),
    }
}

#[test]
fn versions_and_cut_settings_are_read() {
    let xml = document(
        "<CutSetting type=\"Cut\"><index Value=\"3\"/><name Value=\"C03\"/></CutSetting>\n\
         <CutSetting type=\"Cut\"><index Value=\"x\"/></CutSetting>\n\
         <CutSetting type=\"Cut\"><name Value=\"none\"/></CutSetting>",
    );
    let project = parse_lbrn2_complete(&xml).unwrap();
    assert_eq!(project.app_version, "1.7.08");
    assert_eq!(project.format_version, "1");
    let indices: Vec<i32> = project.cut_settings.iter().map(|c| c.index).collect();
    assert_eq!(indices, vec![3, 0, 0]);
    for cs in &project.cut_settings {
        assert_eq!(cs.name, "");
        assert_eq!(cs.color, None);
        assert_eq!(cs.stroke_width, None);
    }
    assert!(project.shapes.is_empty());
}

#[test]
fn malformed_xml_is_an_error() {
    let xml = document("<Shape Type=\"Rect\"><XForm>1 0 0 1 0 0</Shape>");
    let err = parse_lbrn2_complete(&xml).unwrap_err();
    assert!(err.starts_with("Error parsing Shape: "), "{}", err);

    let err = parse_lbrn2_complete("<LightBurnProject></Other>").unwrap_err();
    assert!(err.starts_with("XML parsing error: "), "{}", err);

    let err =
        parse_lbrn2_complete("<LightBurnProject><CutSetting><index></CutSetting>").unwrap_err();
    assert!(err.starts_with("Error parsing CutSetting: "), "{}", err);
}

#[test]
fn error_event_is_reported_where_it_is_met() {
    let error = || XmlEvent::Error {
        message: "boom".to_string(),
    };
    assert_eq!(
        parse_events(&vec![error()]).unwrap_err(),
        "XML parsing error: boom"
    );
    assert_eq!(
        parse_events(&vec![start("Shape", &[("Type", "Rect")]), error()]).unwrap_err(),
        "Error parsing Shape: boom"
    );
    assert_eq!(
        parse_events(&vec![start("CutSetting", &[]), error()]).unwrap_err(),
        "Error parsing CutSetting: boom"
    );
    assert_eq!(
        parse_events(&vec![
            start("Shape", &[("Type", "Group")]),
            start("Children", &[]),
            start("Shape", &[("Type", "Rect")]),
            error()
        ])
        .unwrap_err(),
        "Error parsing Shape: boom"
    );
    // What follows the end of the document is not looked at.
    assert!(parse_events(&vec![XmlEvent::Eof, error()]).is_ok());
}

#[test]
fn rect_with_defaults() {
    let xml = document("<Shape Type=\"Rect\" CutIndex=\"2\" W=\"10\" H=\"abc\"></Shape>");
    let project = parse_lbrn2_complete(&xml).unwrap();
    match &project.shapes[0] {
        Shape::Rect(r) => {
            assert_eq!(r.cut_index, 2);
            assert_eq!(r.w, "10");
            assert_eq!(r.h, "0");
            assert_eq!(r.cr, "0");
            assert_eq!(
                [&r.xform.a, &r.xform.b, &r.xform.c, &r.xform.d, &r.xform.e, &r.xform.f],
                ["1", "0", "0", "1", "0", "0"]
            );
        }
        other => panic!("unexpected {:?}", other),
    }
}

#[test]
fn bad_transform_gives_the_identity() {
    let xml = document("<Shape Type=\"Ellipse\" Rx=\"1\" Ry=\"2\"><XForm>1 0 0 1 5</XForm></Shape>");
    let project = parse_lbrn2_complete(&xml).unwrap();
    let t = project.shapes[0].xform();
    assert_eq!(
        [&t.a, &t.b, &t.c, &t.d, &t.e, &t.f],
        ["1", "0", "0", "1", "0", "0"]
    );
}

#[test]
fn shape_without_body_is_made_of_its_attributes() {
    let xml = document(
        "<Shape Type=\"Rect\" W=\"4\" H=\"2\" Cr=\"1\" CutIndex=\"7\"/>\
         <Shape Type=\"Ellipse\" Rx=\"3\" Ry=\"1\"/>\
         <Shape Type=\"Path\" VertID=\"0\"/>\
         <Shape Type=\"Group\"/>",
    );
    let project = parse_lbrn2_complete(&xml).unwrap();
    assert_eq!(project.shapes.len(), 2);
    assert!(matches!(&project.shapes[0], Shape::Rect(r) if r.cut_index == 7 && r.cr == "1"));
    assert!(matches!(&project.shapes[1], Shape::Ellipse(e) if e.rx == "3" && e.ry == "1"));
}

#[test]
fn unknown_type_and_empty_shapes_are_dropped() {
    let xml = document(
        "<Shape Type=\"Star\" CutIndex=\"0\"><XForm>1 0 0 1 0 0</XForm></Shape>\n\
         <Shape Type=\"Group\"><XForm>1 0 0 1 0 0</XForm><Children></Children></Shape>\n\
         <Shape Type=\"Path\"><XForm>1 0 0 1 0 0</XForm><PrimList>L0 1</PrimList></Shape>\n\
         <Shape Type=\"Text\" HasBackupPath=\"1\"><XForm>1 0 0 1 0 0</XForm></Shape>\n\
         <Shape Type=\"Rect\" W=\"1\" H=\"1\"><XForm>1 0 0 1 0 0</XForm></Shape>",
    );
    let project = parse_lbrn2_complete(&xml).unwrap();
    assert_eq!(project.shapes.len(), 1);
    assert!(matches!(&project.shapes[0], Shape::Rect(_)));
}

#[test]
fn path_is_decoded() {
    let xml = document(
        "<Shape Type=\"Path\" CutIndex=\"1\" VertID=\"4\" PrimID=\"5\">\n\
           <XForm>1 0 0 1 2 3</XForm>\n\
           <VertList>V0 0c0x1c0y1V10 0c1x9c1y1</VertList>\n\
           <PrimList>B0 1</PrimList>\n\
         </Shape>",
    );
    let project = parse_lbrn2_complete(&xml).unwrap();
    match &project.shapes[0] {
        Shape::Path(p) => {
            assert_eq!(p.cut_index, 1);
            assert_eq!(p.vert_list, "V0 0c0x1c0y1V10 0c1x9c1y1");
            assert_eq!(p.prim_list, "B0 1");
            assert_eq!(p.parsed_verts.len(), 2);
            assert_eq!(p.parsed_verts[1].c1x.as_deref(), Some("9"));
            assert_eq!(
                p.parsed_primitives,
                vec![PathPrimitive::Bezier {
                    start_idx: 0,
                    end_idx: 1
                }]
            );
            assert_eq!(p.xform.e, "2");
        }
        other => panic!("unexpected {:?}", other),
    }
}

#[test]
fn path_with_vertices_but_no_primitives_is_kept() {
    let xml = document(
        "<Shape Type=\"Path\"><VertList>V1 2V3 4</VertList><PrimList>LineClosed</PrimList></Shape>\
         <Shape Type=\"Path\"><VertList>V1 2</VertList></Shape>",
    );
    let project = parse_lbrn2_complete(&xml).unwrap();
    assert_eq!(project.shapes.len(), 2);
    match &project.shapes[0] {
        Shape::Path(p) => {
            assert_eq!(p.prim_list, "LineClosed");
            assert!(p.parsed_primitives.is_empty());
            assert_eq!(p.parsed_verts.len(), 2);
        }
        other => panic!("unexpected {:?}", other),
    }
    assert!(matches!(&project.shapes[1], Shape::Path(p) if p.prim_list.is_empty()));
}

#[test]
fn lists_are_shared_by_id_in_document_order() {
    let xml = document(
        "<Shape Type=\"Path\" VertID=\"1\" PrimID=\"2\"></Shape>\n\
         <Shape Type=\"Path\" VertID=\"1\" PrimID=\"2\">\
           <VertList>V0 0V5 5</VertList><PrimList>L0 1</PrimList></Shape>\n\
         <Shape Type=\"Path\" VertID=\"1\" PrimID=\"2\"><XForm>1 0 0 1 9 9</XForm></Shape>\n\
         <Shape Type=\"Path\" VertID=\"1\" PrimID=\"3\"></Shape>\n\
         <Shape Type=\"Path\" VertID=\"x\"></Shape>",
    );
    let project = parse_lbrn2_complete(&xml).unwrap();
    // The first comes before the definition and is dropped; the last has no
    // id that can be read.
    assert_eq!(project.shapes.len(), 3);
    match (&project.shapes[0], &project.shapes[1], &project.shapes[2]) {
        (Shape::Path(a), Shape::Path(b), Shape::Path(c)) => {
            assert_eq!(b.vert_list, a.vert_list);
            assert_eq!(b.prim_list, a.prim_list);
            assert_eq!(b.parsed_verts.len(), 2);
            assert_eq!(b.parsed_primitives, a.parsed_primitives);
            assert_eq!(b.xform.e, "9");
            // The primitive list with id 3 was never defined.
            assert_eq!(c.parsed_verts.len(), 2);
            assert!(c.parsed_primitives.is_empty());
            assert_eq!(c.prim_list, "");
        }
        other => panic!("unexpected {:?}", other),
    }
}

#[test]
fn a_later_definition_replaces_an_earlier_one() {
    let xml = document(
        "<Shape Type=\"Path\" VertID=\"1\"><VertList>V0 0</VertList></Shape>\
         <Shape Type=\"Path\" VertID=\"1\"><VertList>V1 1V2 2</VertList></Shape>\
         <Shape Type=\"Path\" VertID=\"1\"></Shape>",
    );
    let project = parse_lbrn2_complete(&xml).unwrap();
    let counts: Vec<usize> = project
        .shapes
        .iter()
        .map(|s| match s {
            Shape::Path(p) => p.parsed_verts.len(),
            _ => 0,
        })
        .collect();
    assert_eq!(counts, vec![1, 2, 2]);
}

#[test]
fn group_holds_its_children() {
    let xml = document(
        "<Shape Type=\"Group\" CutIndex=\"0\">\n\
           <XForm>1 0 0 1 10 20</XForm>\n\
           <Children>\n\
             <Shape Type=\"Rect\" W=\"1\" H=\"2\"><XForm>1 0 0 1 1 1</XForm></Shape>\n\
             <Shape Type=\"Ellipse\" Rx=\"1\" Ry=\"2\"/>\n\
             <Shape Type=\"Group\"><Children><Shape Type=\"Rect\" W=\"3\" H=\"3\"/></Children></Shape>\n\
             <Shape Type=\"Group\"><Children></Children></Shape>\n\
           </Children>\n\
         </Shape>\n\
         <Shape Type=\"Rect\" W=\"9\" H=\"9\"/>",
    );
    let project = parse_lbrn2_complete(&xml).unwrap();
    assert_eq!(project.shapes.len(), 2);
    match &project.shapes[0] {
        Shape::Group(g) => {
            assert_eq!(g.xform.e, "10");
            assert_eq!(g.children.len(), 3);
            assert!(matches!(&g.children[0], Shape::Rect(r) if r.xform.e == "1"));
            assert!(matches!(&g.children[1], Shape::Ellipse(_)));
            assert!(matches!(&g.children[2], Shape::Group(inner) if inner.children.len() == 1));
        }
        other => panic!("unexpected {:?}", other),
    }
}

#[test]
fn shapes_outside_children_are_not_kept() {
    let xml = document(
        "<Shape Type=\"Group\"><Shape Type=\"Rect\" W=\"1\" H=\"1\"/>\
           <Shape Type=\"Rect\" W=\"2\" H=\"2\"></Shape>\
           <Children><Shape Type=\"Rect\" W=\"3\" H=\"3\"/><Shape Type=\"Rect\" W=\"4\" H=\"4\"/></Children>\
           <Shape Type=\"Rect\" W=\"5\" H=\"5\"/></Shape>",
    );
    let project = parse_lbrn2_complete(&xml).unwrap();
    match &project.shapes[0] {
        Shape::Group(g) => {
            let widths: Vec<&str> = g
                .children
                .iter()
                .map(|c| match c {
                    Shape::Rect(r) => r.w.as_str(),
                    _ => "",
                })
                .collect();
            assert_eq!(widths, vec!["3", "4"]);
        }
        other => panic!("unexpected {:?}", other),
    }
}

#[test]
fn text_is_replaced_by_its_backup_path() {
    let xml = document(
        "<Shape Type=\"Text\" CutIndex=\"0\" HasBackupPath=\"1\" Str=\"hi\">\n\
           <XForm>1 0 0 1 100 100</XForm>\n\
           <BackupPath Type=\"Path\" CutIndex=\"3\">\n\
             <XForm>1 0 0 1 7 8</XForm>\n\
             <VertList>V0 0V1 1</VertList>\n\
             <PrimList>L0 1</PrimList>\n\
           </BackupPath>\n\
         </Shape>",
    );
    let project = parse_lbrn2_complete(&xml).unwrap();
    assert_eq!(project.shapes.len(), 1);
    match &project.shapes[0] {
        Shape::Path(p) => {
            assert_eq!(p.cut_index, 3);
            assert_eq!(p.xform.e, "7");
            assert_eq!(p.parsed_verts.len(), 2);
        }
        other => panic!("unexpected {:?}", other),
    }
}

#[test]
fn backup_path_is_only_used_for_text_that_says_so() {
    let xml = document(
        "<Shape Type=\"Text\" HasBackupPath=\"0\">\
           <BackupPath Type=\"Path\"><VertList>V0 0</VertList></BackupPath></Shape>\
         <Shape Type=\"Rect\" W=\"1\" H=\"1\" HasBackupPath=\"1\">\
           <BackupPath Type=\"Path\"><VertList>V0 0</VertList></BackupPath></Shape>",
    );
    let project = parse_lbrn2_complete(&xml).unwrap();
    assert_eq!(project.shapes.len(), 1);
    assert!(matches!(&project.shapes[0], Shape::Rect(_)));
}

#[test]
fn bitmap_takes_data_from_attribute_or_text() {
    let xml = document(
        "<Shape Type=\"Bitmap\" W=\"2\" H=\"3\" Data=\"QUJD\"><XForm>1 0 0 1 0 0</XForm></Shape>\
         <Shape Type=\"Bitmap\" W=\"2\" H=\"3\" Data=\"old\"><Data>bmV3</Data></Shape>",
    );
    let project = parse_lbrn2_complete(&xml).unwrap();
    let data: Vec<&str> = project
        .shapes
        .iter()
        .map(|s| match s {
            Shape::Bitmap(b) => b.data.as_str(),
            _ => "",
        })
        .collect();
    assert_eq!(data, vec!["QUJD", "bmV3"]);
}

#[test]
fn events_are_built_into_the_same_project_as_the_document() {
    let events = vec![
        XmlEvent::Other,
        start(
            "LightBurnProject",
            &[("AppVersion", "1.0"), ("FormatVersion", "1")],
        ),
        start("Shape", &[("Type", "Group"), ("CutIndex", "-4")]),
        start("XForm", &[]),
        text("2 0 0 2 0 0"),
        end("XForm"),
        start("Children", &[]),
        empty("Shape", &[("Type", "Ellipse"), ("Rx", "1"), ("Ry", "1")]),
        start("Shape", &[("Type", "Rect"), ("W", "1e1"), ("H", "+2")]),
        end("Shape"),
        end("Children"),
        end("Shape"),
        end("LightBurnProject"),
        XmlEvent::Eof,
    ];
    let project = parse_events(&events).unwrap();
    assert_eq!(project.app_version, "1.0");
    assert_eq!(project.shapes.len(), 1);
    match &project.shapes[0] {
        Shape::Group(g) => {
            assert_eq!(g.cut_index, -4);
            assert_eq!(g.xform.a, "2");
            assert_eq!(g.children.len(), 2);
            assert!(matches!(&g.children[1], Shape::Rect(r) if r.w == "1e1" && r.h == "+2"));
        }
        other => panic!("unexpected {:?}", other),
    }
}

#[test]
fn a_shape_that_is_never_closed_is_an_error() {
    let events = vec![
        start("Shape", &[("Type", "Rect"), ("W", "1"), ("H", "1")]),
        start("XForm", &[]),
        text("1 0 0 1 3 4"),
    ];
    assert_eq!(
        parse_events(&events).unwrap_err(),
        "Error parsing Shape: document ends inside an open element"
    );
    let events = vec![
        start("LightBurnProject", &[]),
        start("Shape", &[("Type", "Rect")]),
        XmlEvent::Eof,
    ];
    assert_eq!(
        parse_events(&events).unwrap_err(),
        "Error parsing Shape: document ends inside an open element"
    );
    let events = vec![
        start("Shape", &[("Type", "Group")]),
        start("Children", &[]),
        start("Shape", &[("Type", "Rect")]),
        end("Shape"),
        end("Children"),
        XmlEvent::Eof,
    ];
    assert_eq!(
        parse_events(&events).unwrap_err(),
        "Error parsing Shape: document ends inside an open element"
    );
}

#[test]
fn a_cut_setting_that_is_never_closed_is_an_error() {
    let events = vec![
        start("CutSetting", &[("type", "Cut")]),
        empty("index", &[("Value", "3")]),
    ];
    assert_eq!(
        parse_events(&events).unwrap_err(),
        "Error parsing CutSetting: document ends inside an open element"
    );
    let events = vec![
        start("CutSetting", &[]),
        start("index", &[("Value", "3")]),
        end("index"),
        XmlEvent::Eof,
    ];
    assert_eq!(
        parse_events(&events).unwrap_err(),
        "Error parsing CutSetting: document ends inside an open element"
    );
}

#[test]
fn a_document_that_ends_with_a_tag_open_is_an_error() {
    let events = vec![start("LightBurnProject", &[("AppVersion", "1")]), XmlEvent::Eof];
    assert_eq!(
        parse_events(&events).unwrap_err(),
        "XML parsing error: document ends inside an open element"
    );
    let events = vec![
        start("LightBurnProject", &[]),
        start("Notes", &[]),
        end("Notes"),
        empty("Shape", &[("Type", "Rect")]),
    ];
    assert_eq!(
        parse_events(&events).unwrap_err(),
        "XML parsing error: document ends inside an open element"
    );
    let events = vec![end("LightBurnProject"), XmlEvent::Eof];
    assert_eq!(
        parse_events(&events).unwrap_err(),
        "XML parsing error: closing tag without an opening tag"
    );
}

#[test]
fn a_document_with_every_tag_closed_is_read() {
    assert!(parse_events(&vec![]).unwrap().shapes.is_empty());
    assert!(parse_events(&vec![XmlEvent::Eof]).unwrap().shapes.is_empty());
    let events = vec![
        start("LightBurnProject", &[("AppVersion", "1")]),
        start("Notes", &[]),
        end("Notes"),
        start("Shape", &[("Type", "Rect"), ("W", "1"), ("H", "1")]),
        start("XForm", &[]),
        text("1 0 0 1 3 4"),
        end("XForm"),
        end("Shape"),
        end("LightBurnProject"),
        XmlEvent::Eof,
    ];
    let project = parse_events(&events).unwrap();
    assert_eq!(project.shapes.len(), 1);
    assert_eq!(project.shapes[0].xform().e, "3");
}

#[test]
fn truncated_documents_are_errors() {
    for xml in [
        "<LightBurnProject><Shape Type=\"Rect\" W=\"1\" H=\"1\">",
        "<LightBurnProject><Shape Type=\"Rect\"><XForm>1 0 0 1 0 0</XForm>",
        "<LightBurnProject><Shape Type=\"Group\"><Children><Shape Type=\"Rect\"/></Children>",
        "<LightBurnProject><CutSetting type=\"Cut\"><index Value=\"1\"/>",
        "<LightBurnProject><Shape Type=\"Rect\" W=\"1\" H=\"1\"/>",
        "<LightBurnProject>",
        "<LightBurnProject><Shape Type=\"Rect\"></Oops></LightBurnProject>",
        "<LightBurnProject><Shape Type=\"Rect\"",
        "</LightBurnProject>",
    ] {
        let mut log = vec!["before".to_string()];
        assert!(parse_lbrn2_with_log(xml, &mut log).is_err(), "{:?}", xml);
        assert_eq!(log, ["before"], "{:?}", xml);
        assert!(parse_lbrn2_complete(xml).is_err(), "{:?}", xml);
    }
    assert_eq!(
        parse_lbrn2_complete("<LightBurnProject><Shape Type=\"Rect\">").unwrap_err(),
        "Error parsing Shape: document ends inside an open element"
    );
    assert_eq!(
        parse_lbrn2_complete("<LightBurnProject><CutSetting>").unwrap_err(),
        "Error parsing CutSetting: document ends inside an open element"
    );
    assert_eq!(
        parse_lbrn2_complete("<LightBurnProject>").unwrap_err(),
        "XML parsing error: document ends inside an open element"
    );
    assert!(parse_lbrn2_complete("").unwrap().shapes.is_empty());
}

#[test]
fn backup_path_without_a_type_stands_for_the_shape_inside_it() {
    let xml = document(
        "<Shape Type=\"Text\" CutIndex=\"0\" HasBackupPath=\"1\">\
           <XForm>1 0 0 1 9 9</XForm>\
           <BackupPath>\
             <Shape Type=\"Path\" CutIndex=\"3\"><XForm>1 0 0 1 5 6</XForm>\
               <VertList>V0 0V1 1</VertList><PrimList>L0 1</PrimList></Shape>\
           </BackupPath>\
         </Shape>\
         <Shape Type=\"Text\" HasBackupPath=\"1\">\
           <BackupPath><Shape Type=\"Rect\" W=\"2\" H=\"3\" CutIndex=\"4\"/></BackupPath>\
         </Shape>",
    );
    let mut log = Vec::new();
    let project = parse_lbrn2_with_log(&xml, &mut log).unwrap();
    assert!(log.is_empty(), "{:?}", log);
    assert_eq!(project.shapes.len(), 2);
    match &project.shapes[0] {
        Shape::Path(p) => {
            assert_eq!(p.cut_index, 3);
            assert_eq!(p.xform.e, "5");
            assert_eq!(p.parsed_verts.len(), 2);
            assert_eq!(
                p.parsed_primitives,
                vec![PathPrimitive::Line { start_idx: 0, end_idx: 1 }]
            );
        }
        _ => panic!("expected the path inside the backup path"),
    }
    assert!(matches!(&project.shapes[1], Shape::Rect(r) if r.cut_index == 4 && r.w == "2"));
}

#[test]
fn backup_path_with_a_type_is_the_shape_itself() {
    let xml = document(
        "<Shape Type=\"Text\" HasBackupPath=\"1\">\
           <BackupPath Type=\"Path\" CutIndex=\"7\"><XForm>1 0 0 1 0 0</XForm>\
             <VertList>V0 0V1 1</VertList><PrimList>L0 1</PrimList>\
             <Shape Type=\"Rect\" W=\"2\" H=\"3\"/>\
           </BackupPath>\
         </Shape>",
    );
    let project = parse_lbrn2_complete(&xml).unwrap();
    assert_eq!(project.shapes.len(), 1);
    assert!(matches!(&project.shapes[0], Shape::Path(p) if p.cut_index == 7));
}

#[test]
fn backup_path_without_type_or_shape_gives_a_warning() {
    let xml = document(
        "<Shape Type=\"Text\" HasBackupPath=\"1\"><BackupPath><XForm>1 0 0 1 0 0</XForm></BackupPath></Shape>\
         <Shape Type=\"Rect\" W=\"1\" H=\"1\"><BackupPath><Shape Type=\"Ellipse\"/></BackupPath></Shape>",
    );
    let mut log = Vec::new();
    let project = parse_lbrn2_with_log(&xml, &mut log).unwrap();
    assert_eq!(project.shapes.len(), 1);
    assert!(matches!(&project.shapes[0], Shape::Rect(_)));
    assert_eq!(
        log,
        [
            "BackupPath holds no shape, skipping",
            "Unknown shape type \"Text\", skipping",
        ]
    );
}

#[test]
fn the_last_attribute_of_a_name_counts() {
    let events = vec![empty(
        "Shape",
        &[("Type", "Ellipse"), ("Type", "Rect"), ("W", "1"), ("W", "2")],
    )];
    let project = parse_events(&events).unwrap();
    assert!(matches!(&project.shapes[0], Shape::Rect(r) if r.w == "2"));
}

#[test]
fn no_group_is_empty_and_no_path_without_vertices() {
    fn populated(shape: &Shape) -> bool {
        match shape {
            Shape::Path(p) => !p.parsed_verts.is_empty(),
            Shape::Group(g) => !g.children.is_empty() && g.children.iter().all(populated),
            _ => true,
        }
    }
    let xml = document(
        "<Shape Type=\"Group\"><Children>\
           <Shape Type=\"Group\"><Children><Shape Type=\"Path\"/></Children></Shape>\
           <Shape Type=\"Path\"><VertList>V1 1</VertList></Shape>\
           <Shape Type=\"Group\"><Children><Shape Type=\"Group\"/></Children></Shape>\
         </Children></Shape>",
    );
    let project = parse_lbrn2_complete(&xml).unwrap();
    assert_eq!(project.shapes.len(), 1);
    assert!(project.shapes.iter().all(populated));
    assert!(matches!(&project.shapes[0], Shape::Group(g) if g.children.len() == 1));
}

#[test]
fn shape_without_body_reads_shared_lists() {
    let xml = document(
        "<Shape Type=\"Path\" VertID=\"2\" PrimID=\"3\">\
           <XForm>1 0 0 1 0 0</XForm><VertList>V0 0V4 0V4 4</VertList><PrimList>L0 1L1 2</PrimList>\
         </Shape>\
         <Shape Type=\"Path\" CutIndex=\"5\" VertID=\"2\" PrimID=\"3\"/>",
    );
    let project = parse_lbrn2_complete(&xml).unwrap();
    assert_eq!(project.shapes.len(), 2);
    match &project.shapes[1] {
        Shape::Path(p) => {
            assert_eq!(p.cut_index, 5);
            assert_eq!(p.vert_list, "V0 0V4 0V4 4");
            assert_eq!(p.prim_list, "L0 1L1 2");
            assert_eq!(p.parsed_verts.len(), 3);
            assert_eq!(p.parsed_verts[2].x, "4");
            assert_eq!(
                p.parsed_primitives,
                vec![
                    PathPrimitive::Line { start_idx: 0, end_idx: 1 },
                    PathPrimitive::Line { start_idx: 1, end_idx: 2 },
                ]
            );
            assert_eq!(p.xform.a, "1");
            assert_eq!(p.xform.e, "0");
        }
        other => panic!("expected a path, found {:?}", other.cut_index()),
    }
}

#[test]
fn shape_without_body_keeps_its_data() {
    let xml = document("<Shape Type=\"Bitmap\" W=\"8\" H=\"6\" Data=\"aGVsbG8=\"/>");
    let project = parse_lbrn2_complete(&xml).unwrap();
    assert_eq!(project.shapes.len(), 1);
    assert!(
        matches!(&project.shapes[0], Shape::Bitmap(b) if b.w == "8" && b.h == "6" && b.data == "aGVsbG8=")
    );
}

#[test]
fn warnings_follow_the_document() {
    let xml = document(
        "<Shape Type=\"Star\"><XForm>1 0 0 1 5</XForm></Shape>\
         <Shape Type=\"Path\" VertID=\"3\" PrimID=\"-4\"/>\
         <Shape Type=\"Group\"><Children></Children></Shape>\
         <Shape Type=\"Path\"><VertList>V1 2V3</VertList><PrimList>LineClosed</PrimList></Shape>\
         <Shape Type=\"Text\" HasBackupPath=\"1\"><XForm>1 0 0 1 0 0</XForm></Shape>\
         <Shape Type=\"Rect\" W=\"1\" H=\"1\"><XForm>1 0 0 1 0 0</XForm></Shape>",
    );
    let mut log = vec!["before".to_string()];
    let project = parse_lbrn2_with_log(&xml, &mut log).unwrap();
    assert_eq!(project.shapes.len(), 2);
    assert!(matches!(&project.shapes[0], Shape::Path(p) if p.parsed_verts.len() == 1));
    assert!(matches!(&project.shapes[1], Shape::Rect(_)));
    assert_eq!(
        log,
        [
            "before",
            "Invalid XForm string, using identity: 1 0 0 1 5",
            "Unknown shape type \"Star\", skipping",
            "Vertex data for VertID=3 not found in cache",
            "Primitive data for PrimID=-4 not found in cache",
            "Path shape has no vertices after resolution, skipping",
            "Group shape has no children, skipping",
            "Failed to parse vertex from X: \"3\", Y: \"\" in VertList: \"V1 2V3\"",
            "Unknown shape type \"Text\", skipping",
        ]
    );
}

#[test]
fn sound_document_gives_no_warning() {
    let xml = document(
        "<CutSetting type=\"Cut\"><index Value=\"2\"/></CutSetting>\
         <Shape Type=\"Group\"><XForm>1 0 0 1 0 0</XForm><Children>\
           <Shape Type=\"Ellipse\" Rx=\"1\" Ry=\"2\"><XForm>1 0 0 1 3 4</XForm></Shape>\
           <Shape Type=\"Path\" VertID=\"0\" PrimID=\"0\"><XForm>1 0 0 1 0 0</XForm>\
             <VertList>V0 0V1 1</VertList><PrimList>L0 1</PrimList></Shape>\
           <Shape Type=\"Path\" VertID=\"0\" PrimID=\"0\"><XForm>1 0 0 1 9 9</XForm></Shape>\
         </Children></Shape>",
    );
    let mut log = Vec::new();
    let project = parse_lbrn2_with_log(&xml, &mut log).unwrap();
    assert_eq!(project.shapes.len(), 1);
    assert!(log.is_empty());
}

#[test]
fn warnings_inside_a_backup_path_are_kept() {
    let xml = document(
        "<Shape Type=\"Text\" HasBackupPath=\"1\"><XForm>bad</XForm>\
           <BackupPath Type=\"Path\" VertID=\"7\"><XForm>1 0 0 1 0 0</XForm></BackupPath>\
         </Shape>",
    );
    let mut log = Vec::new();
    let project = parse_lbrn2_with_log(&xml, &mut log).unwrap();
    assert!(project.shapes.is_empty());
    assert_eq!(
        log,
        [
            "Invalid XForm string, using identity: bad",
            "Vertex data for VertID=7 not found in cache",
            "Path shape has no vertices after resolution, skipping",
            "Unknown shape type \"Text\", skipping",
        ]
    );
}

#[test]
fn malformed_document_leaves_the_log() {
    let mut log = vec!["before".to_string()];
    let xml = "<LightBurnProject><Shape Type=\"Star\"></Shape><Shape Type=\"Rect\"></Wrong></LightBurnProject>";
    assert!(parse_lbrn2_with_log(xml, &mut log).is_err());
    assert_eq!(log, ["before"]);
}

#[test]
fn events_with_log_agree_with_events() {
    let events = vec![
        start("LightBurnProject", &[("AppVersion", "1.0")]),
        empty("Shape", &[("Type", "Hexagon")]),
        start("Shape", &[("Type", "Rect"), ("W", "2"), ("H", "3")]),
        start("XForm", &[]),
        text("1 0 0 1"),
        end("XForm"),
        end("Shape"),
        end("LightBurnProject"),
    ];
    let mut log = Vec::new();
    let logged = parse_events_with_log(&events, &mut log).unwrap();
    let plain = parse_events(&events).unwrap();
    assert_eq!(logged.shapes.len(), 1);
    assert_eq!(plain.shapes.len(), 1);
    assert_eq!(logged.app_version, plain.app_version);
    assert_eq!(
        log,
        [
            "Unknown shape type \"Hexagon\", skipping",
            "Invalid XForm string, using identity: 1 0 0 1",
        ]
    );
}

fn assert_numerals(shape: &Shape) {
    let t = shape.xform();
    for n in [&t.a, &t.b, &t.c, &t.d, &t.e, &t.f] {
        assert!(n.parse::<f64>().is_ok(), "{:?}", n);
    }
    match shape {
        Shape::Rect(r) => {
            for n in [&r.w, &r.h, &r.cr] {
                assert!(n.parse::<f64>().is_ok(), "{:?}", n);
            }
        }
        Shape::Ellipse(e) => {
            for n in [&e.rx, &e.ry] {
                assert!(n.parse::<f64>().is_ok(), "{:?}", n);
            }
        }
        Shape::Path(p) => {
            assert!(!p.parsed_verts.is_empty());
            for v in &p.parsed_verts {
                assert!(v.x.parse::<f64>().is_ok(), "{:?}", v.x);
                assert!(v.y.parse::<f64>().is_ok(), "{:?}", v.y);
                for c in [&v.c0x, &v.c0y, &v.c1x, &v.c1y].into_iter().flatten() {
                    assert!(c.parse::<f64>().is_ok(), "{:?}", c);
                }
            }
        }
        Shape::Bitmap(b) => {
            for n in [&b.w, &b.h] {
                assert!(n.parse::<f64>().is_ok(), "{:?}", n);
            }
        }
        Shape::Group(g) => {
            assert!(!g.children.is_empty());
            for child in &g.children {
                assert_numerals(child);
            }
        }
    }
}

#[test]
fn numbers_of_a_project_are_numerals() {
    let xml = document(
        "<Shape Type=\"Rect\" W=\"wide\" H=\"1e\" Cr=\"--1\"><XForm>1 0 0 one 0 0</XForm></Shape>\
         <Shape Type=\"Ellipse\" Rx=\"\" Ry=\"0x10\"><XForm>1 0 0 1 2 3 4</XForm></Shape>\
         <Shape Type=\"Bitmap\" W=\"1,5\" H=\".\" Data=\"QQ==\"/>\
         <Shape Type=\"Group\"><XForm>  2 0 0 2 1e3 -.5 </XForm><Children>\
           <Shape Type=\"Path\" VertID=\"1\"><XForm>1 0 0 1 0 0</XForm>\
             <VertList>V1 2c0x3c0yzc1x-Vx yV.5 -1e-2c1y+4c0x.V5 e</VertList>\
             <PrimList>L0 1</PrimList></Shape>\
           <Shape Type=\"Path\" VertID=\"1\"/>\
         </Children></Shape>",
    );
    let project = parse_lbrn2_complete(&xml).unwrap();
    assert_eq!(project.shapes.len(), 4);
    for shape in &project.shapes {
        assert_numerals(shape);
    }
    match &project.shapes[0] {
        Shape::Rect(r) => assert_eq!((r.w.as_str(), r.h.as_str(), r.cr.as_str()), ("0", "0", "0")),
        _ => panic!("expected a rect"),
    }
    match &project.shapes[3] {
        Shape::Group(g) => {
            assert_eq!(g.xform.e, "1e3");
            assert_eq!(g.xform.f, "-.5");
            assert_eq!(g.children.len(), 2);
            match &g.children[1] {
                Shape::Path(p) => {
                    assert_eq!(p.parsed_verts.len(), 2);
                    assert_eq!(p.parsed_verts[0].c0x.as_deref(), Some("3"));
                    assert_eq!(p.parsed_verts[0].c0y, None);
                    assert_eq!(p.parsed_verts[0].c1x, None);
                    assert_eq!(p.parsed_verts[1].x, ".5");
                    assert_eq!(p.parsed_verts[1].y, "-1e-2");
                    assert_eq!(p.parsed_verts[1].c1y.as_deref(), Some("+4"));
                    assert_eq!(p.parsed_verts[1].c0x, None);
                }
                _ => panic!("expected a path"),
            }
        }
        _ => panic!("expected a group"),
    }
}
