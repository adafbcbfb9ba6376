use laser_tools::vectorize::trace::{
    coordinate_pairs, extract_paths, is_white_or_light_fill, parse_hex_color, paths_of_answer,
    scale_up_mask, tokenize_path_data, trace_mask_to_svg_paths, tracer_settings, wrap_path,
    PathToken, TracerSettings,
};
use laser_tools::vectorize::{assemble_svg, VectorizeOptions};

fn shown(tokens: &[PathToken]) -> Vec<String> {
    tokens
        .iter()
        .map(|t| match t {
            PathToken::Command(c) => format!("{}", c),
            PathToken::Number { text, valid, is_x } => format!(
                "{}{}{}",
                if *is_x { "x" } else { "y" },
                if *valid { "=" } else { "?" },
                text
            ),
            PathToken::Separator(c) => format!("{:?}", c),
        })
        .collect()
}

/// Path data with each number that is one mapped, the way a caller does.
fn transform(d: &str, f: fn(f64, bool) -> f64) -> String {
    let mut result = String::new();
    for token in tokenize_path_data(d) {
        match token {
            PathToken::Command(c) | PathToken::Separator(c) => result.push(c),
            PathToken::Number { text, valid, is_x } => {
                if valid {
                    let n: f64 = text.parse().unwrap();
                    result.push_str(&format!("{:.3}", f(n, is_x)));
                } else {
                    result.push_str(&text);
                }
            }
        }
    }
    result
}

#[test]
fn test_scale_path_data() {
    let d = "M100,200 L300,400";
    let scaled = transform(d, |n, _| n / 2.0);
    assert_eq!(scaled, "M50.000,100.000 L150.000,200.000");
}

#[test]
fn test_empty_mask() {
    let mask = vec![0u8; 100];
    let options = VectorizeOptions::default();
    let result = trace_mask_to_svg_paths(&mask, 10, 10, &options).unwrap();
    assert!(result.is_empty());
}

#[test]
fn test_trace_empty_mask() {
    let mask = vec![0u8; 100];
    let options = VectorizeOptions::default();

    let paths = trace_mask_to_svg_paths(&mask, 10, 10, &options).unwrap();

    assert!(paths.is_empty(), "Empty mask should produce no paths");
}

#[test]
fn test_trace_full_mask_produces_path() {
    let mask = vec![1u8; 100]; // 10x10 all filled
    let options = VectorizeOptions {
        scale_factor: 1, // No upscaling for determinism
        filter_speckle: 0,
        corner_threshold: 60,
        path_precision: 3,
    };

    let paths = trace_mask_to_svg_paths(&mask, 10, 10, &options).unwrap();

    assert!(
        !paths.is_empty(),
        "Full mask should produce at least one path"
    );
    // Check that paths contain SVG path data (raw d attribute values)
    for path in &paths {
        let path = &path.d;
        // Raw path data should start with a move command (M)
        assert!(
            path.starts_with('M') || path.starts_with('m'),
            "Path data should start with move command, got: {}",
            &path[..path.len().min(20)]
        );
    }
}

#[test]
fn test_trace_single_large_square() {
    // Create a 20x20 mask with a 10x10 square in the middle
    let mut mask = vec![0u8; 400];
    for y in 5..15 {
        for x in 5..15 {
            mask[y * 20 + x] = 1;
        }
    }

    let options = VectorizeOptions {
        scale_factor: 1,
        filter_speckle: 0,
        corner_threshold: 60,
        path_precision: 3,
    };

    let paths = trace_mask_to_svg_paths(&mask, 20, 20, &options).unwrap();

    assert!(!paths.is_empty(), "Square should produce at least one path");
}

#[test]
fn traced_square_lies_where_the_square_lies() {
    let mut mask = vec![0u8; 400];
    for y in 5..15 {
        for x in 5..15 {
            mask[y * 20 + x] = 1;
        }
    }
    let options = VectorizeOptions {
        scale_factor: 2,
        filter_speckle: 0,
        corner_threshold: 60,
        path_precision: 3,
    };
    let paths = trace_mask_to_svg_paths(&mask, 20, 20, &options).unwrap();
    assert_eq!(paths.len(), 1);
    // The path is in the scale of the traced image: twice that of the mask.
    let (tx, ty) = paths[0].translate.clone().unwrap();
    let points = coordinate_pairs(&tokenize_path_data(&paths[0].d));
    assert!(!points.is_empty());
    for (x, y) in points {
        let x = x.parse::<f64>().unwrap() + tx.parse::<f64>().unwrap();
        let y = y.parse::<f64>().unwrap() + ty.parse::<f64>().unwrap();
        assert!((9.0..=31.0).contains(&x), "{}", x);
        assert!((9.0..=31.0).contains(&y), "{}", y);
    }
}

#[test]
fn scaled_up_mask_is_a_black_and_white_image() {
    // 2x1 mask, the second pixel set, scaled by 2: 4x2 pixels.
    let pixels = scale_up_mask(&vec![0, 1], 2, 1, 2);
    let white = [255u8, 255, 255, 255];
    let black = [0u8, 0, 0, 255];
    let expected: Vec<u8> = [white, white, black, black, white, white, black, black].concat();
    assert_eq!(pixels, expected);
    // Only the value one counts as set.
    assert_eq!(scale_up_mask(&vec![2], 1, 1, 1), white.to_vec());
    assert_eq!(scale_up_mask(&vec![1, 1], 1, 2, 0), Vec::<u8>::new());
    assert_eq!(scale_up_mask(&vec![1, 1], 0, 2, 3), Vec::<u8>::new());
}

#[test]
fn scaled_up_mask_repeats_each_pixel() {
    let (w, h, f) = (3usize, 2usize, 3usize);
    let mask: Vec<u8> = vec![1, 0, 1, 0, 0, 1];
    let pixels = scale_up_mask(&mask, w as u32, h as u32, f as u32);
    assert_eq!(pixels.len(), w * f * h * f * 4);
    for y in 0..h * f {
        for x in 0..w * f {
            let at = (y * w * f + x) * 4;
            let set = mask[(y / f) * w + x / f] == 1;
            let c = if set { 0 } else { 255 };
            assert_eq!(&pixels[at..at + 4], &[c, c, c, 255]);
        }
    }
}

#[test]
fn hex_colours_are_read_in_both_forms() {
    assert_eq!(parse_hex_color("FFFFFF"), Some((255, 255, 255)));
    assert_eq!(parse_hex_color("000000"), Some((0, 0, 0)));
    assert_eq!(parse_hex_color("12abEF"), Some((0x12, 0xab, 0xef)));
    assert_eq!(parse_hex_color("  0a0B0c\t"), Some((10, 11, 12)));
    assert_eq!(parse_hex_color("fff"), Some((255, 255, 255)));
    assert_eq!(parse_hex_color("1a0"), Some((17, 170, 0)));
    assert_eq!(parse_hex_color("+1+2+3"), Some((1, 2, 3)));
    for bad in [
        "", "f", "ff", "ffff", "fffff", "fffffff", "gggggg", "ggg", "-1-2-3", "+++", "ff ff ",
        "#ffffff", "0x0",
    ] {
        assert_eq!(parse_hex_color(bad), None, "{:?}", bad);
    }
}

#[test]
fn light_fills_are_told_from_dark_ones() {
    let cases = [
        ("<path d=\"M0 0\" fill=\"rgb(255,255,255)\"/>", true),
        ("<path d=\"M0 0\" fill=\"rgb(201, 201 ,201)\"/>", true),
        ("<path d=\"M0 0\" fill=\"rgb(200,255,255)\"/>", false),
        ("<path d=\"M0 0\" fill=\"rgb(0,0,0)\"/>", false),
        ("<path d=\"M0 0\" fill=\"#FFFFFF\"/>", true),
        ("<path d=\"M0 0\" fill=\"#fff\"/>", true),
        ("<path d=\"M0 0\" fill=\"#C9C9C9\"/>", true),
        ("<path d=\"M0 0\" fill=\"#C8C9C9\"/>", false),
        ("<path d=\"M0 0\" fill=\"#000000\"/>", false),
        ("<path d=\"M0 0\" fill=\"white\"/>", true),
        ("<path d=\"M0 0\" fill=\"black\"/>", false),
        ("<path d=\"M0 0\"/>", false),
        // What cannot be read as a colour does not decide.
        ("<path fill=\"rgb(255,255)\" d=\"\" fill=\"#ffffff\"/>", true),
        ("<path fill=\"rgb(255,255,256)\" fill=\"white\"/>", true),
        ("<path fill=\"rgb(255,255,255\" fill=\"#000\"/>", false),
        ("<path fill=\"#zzz\" fill=\"white\"/>", true),
        ("<path fill=\"#ffffff", false),
        // The first fill of a kind is the one that is read.
        ("<path fill=\"rgb(0,0,0)\" fill=\"rgb(255,255,255)\"/>", false),
        ("<path fill=\"#000\" fill=\"rgb(255,255,255)\"/>", true),
    ];
    for (element, light) in cases {
        assert_eq!(is_white_or_light_fill(element), light, "{}", element);
    }
}

#[test]
fn paths_are_taken_out_of_the_document_line_by_line() {
    let svg = "<?xml version=\"1.0\" encoding=\"UTF-8\"?>\n\
        <svg version=\"1.1\" width=\"20\" height=\"20\">\n\
        <path d=\"M0 0 L20 0 Z\" fill=\"#FFFFFF\" transform=\"translate(0,0)\"/>\r\n\
        \t <path d=\"M0 0 C1 1 2 2 3 3 Z\" fill=\"#000000\" transform=\"translate(10,12.5)\"/>  \n\
        <path fill=\"#000000\" d=\"M1 1\"/>\n\
        <g><path d=\"M9 9\"/></g>\n\
        <path d=\"M2 2\" transform=\"translate(1)\"/>\n\
        <path d=\"M3 3\" transform=\"translate(1, 2)\"/>\n\
        <path d=\"M4 4\" transform=\"translate( 1 ,2 3)\"/>\n\
        <path d=\"M5 5\" transform=\"translate(1 2)\"/>\n\
        <path d=\"M6 6\n\
        <pathological d=\"M7 7\"/>\n\
        </svg>";
    let shown: Vec<(String, Option<(String, String)>)> = extract_paths(svg)
        .into_iter()
        .map(|p| (p.d, p.translate))
        .collect();
    let t = |x: &str, y: &str| Some((x.to_string(), y.to_string()));
    assert_eq!(
        shown,
        vec![
            ("M0 0 C1 1 2 2 3 3 Z".to_string(), t("10", "12.5")),
            ("M1 1".to_string(), None),
            ("M2 2".to_string(), None),
            // A comma and a space make an empty second part.
            ("M3 3".to_string(), None),
            ("M4 4".to_string(), None),
            ("M5 5".to_string(), t("1", "2")),
            ("M7 7".to_string(), None),
        ]
    );
    assert!(extract_paths("").is_empty());
    assert!(extract_paths("\n\n").is_empty());
}

#[test]
fn answer_of_the_tracer_gives_paths_or_a_message() {
    let paths = paths_of_answer(Ok("<path d=\"M1 2\"/>\n".to_string())).unwrap();
    assert_eq!(paths.len(), 1);
    assert_eq!(paths[0].d, "M1 2");
    assert_eq!(
        paths_of_answer(Err("no colour".to_string())).unwrap_err(),
        "vtracer conversion failed: no colour"
    );
}

#[test]
fn path_data_is_split_into_its_pieces() {
    assert_eq!(
        shown(&tokenize_path_data("M100,200 L-3.5e-2 .5z #1e")),
        vec![
            "M", "x=100", "','", "y=200", "' '", "L", "x=-3.5e-2", "' '", "y=.5", "z", "' '",
            "x?1e"
        ]
    );
    // A point goes on with the number before it, which is then none.
    assert_eq!(
        shown(&tokenize_path_data("L-3.5e-2.5 7")),
        vec!["L", "x?-3.5e-2.5", "' '", "y=7"]
    );
    assert_eq!(
        shown(&tokenize_path_data("1 2 3M4-5-6")),
        vec!["x=1", "' '", "y=2", "' '", "x=3", "M", "x=4", "y=-5", "x=-6"]
    );
    // A number that is none still takes its turn.
    assert_eq!(
        shown(&tokenize_path_data("M1.2.3 4")),
        vec!["M", "x?1.2.3", "' '", "y=4"]
    );
    assert!(tokenize_path_data("").is_empty());
    assert!(tokenize_path_data("()[]+").is_empty());
}

#[test]
fn translation_moves_x_and_y_by_their_own_offsets() {
    let moved = transform("M1,2 L3,4 5,6", |n, is_x| n + if is_x { 10.0 } else { 100.0 });
    assert_eq!(moved, "M11.000,102.000 L13.000,104.000 15.000,106.000");
}

#[test]
fn points_pair_each_y_with_the_last_x() {
    let points = |d: &str| -> Vec<(String, String)> { coordinate_pairs(&tokenize_path_data(d)) };
    let p = |x: &str, y: &str| (x.to_string(), y.to_string());
    assert_eq!(
        points("M1,2 L3,4 C5 6 7 8 9 10"),
        vec![p("1", "2"), p("3", "4"), p("5", "6"), p("7", "8"), p("9", "10")]
    );
    // A command starts with x again; a number that is none does not count.
    assert_eq!(points("M1 L2,3"), vec![p("2", "3")]);
    assert_eq!(points("M1,2 3 L4,5"), vec![p("1", "2"), p("4", "5")]);
    assert_eq!(points("M1,1.2.3,2"), vec![p("1", "2")]);
    assert!(points("").is_empty());
    assert!(points("M5").is_empty());
}

#[test]
fn paths_are_wrapped_and_layers_assembled() {
    assert_eq!(wrap_path("M1,2 L3,4"), "<path d=\"M1,2 L3,4\"/>");
    assert_eq!(wrap_path(""), "<path d=\"\"/>");
    let black = vec![wrap_path("M1,2"), wrap_path("M3,4")];
    let blue = vec![wrap_path("M5,6")];
    assert_eq!(
        assemble_svg(100, 80, &black, &blue),
        "<?xml version=\"1.0\" encoding=\"UTF-8\" standalone=\"no\"?>\n\
<svg xmlns=\"http://www.w3.org/2000/svg\" width=\"100\" height=\"80\" viewBox=\"0 0 100 80\">\n    \
<g id=\"cut-layer\" fill=\"#000000\" stroke=\"none\">\n        \
<path d=\"M1,2\"/>\n        <path d=\"M3,4\"/>\n    \
</g>\n    \
<g id=\"engrave-layer\" fill=\"#0000FF\" stroke=\"none\">\n        \
<path d=\"M5,6\"/>\n    \
</g>\n\
</svg>"
    );
    assert_eq!(
        assemble_svg(0, 4294967295, &[], &[]),
        "<?xml version=\"1.0\" encoding=\"UTF-8\" standalone=\"no\"?>\n\
<svg xmlns=\"http://www.w3.org/2000/svg\" width=\"0\" height=\"4294967295\" viewBox=\"0 0 0 4294967295\">\n    \
<g id=\"cut-layer\" fill=\"#000000\" stroke=\"none\">\n        \n    \
</g>\n    \
<g id=\"engrave-layer\" fill=\"#0000FF\" stroke=\"none\">\n        \n    \
</g>\n\
</svg>"
    );
}

#[test]
fn a_mask_that_is_longer_than_an_empty_image_is_traced_as_nothing() {
    let options = VectorizeOptions {
        scale_factor: 1,
        filter_speckle: 0,
        corner_threshold: 60,
        path_precision: 3,
    };
    assert!(trace_mask_to_svg_paths(&vec![1], 0, 0, &options)
        .unwrap()
        .is_empty());
    assert!(trace_mask_to_svg_paths(&vec![1, 1], 0, 2, &options)
        .unwrap()
        .is_empty());
    let none = VectorizeOptions {
        scale_factor: 0,
        filter_speckle: 4,
        corner_threshold: 60,
        path_precision: 3,
    };
    assert!(trace_mask_to_svg_paths(&vec![1, 1], 1, 2, &none)
        .unwrap()
        .is_empty());
}

#[test]
fn tracer_settings_scale_the_size_and_the_speckles() {
    let options = VectorizeOptions {
        scale_factor: 3,
        filter_speckle: 4,
        corner_threshold: 45,
        path_precision: 2,
    };
    assert_eq!(
        tracer_settings(10, 7, &options),
        TracerSettings {
            width: 30,
            height: 21,
            filter_speckle: 12,
            color_precision: 8,
            layer_difference: 128,
            corner_threshold: 45,
            path_precision: 2,
        }
    );
    let defaults = tracer_settings(1, 1, &VectorizeOptions::default());
    assert_eq!((defaults.width, defaults.height), (2, 2));
    assert_eq!(defaults.filter_speckle, 8);
    assert_eq!(defaults.corner_threshold, 60);
    assert_eq!(defaults.path_precision, 3);
}
