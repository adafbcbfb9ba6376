//! Bitmap tracing: what is handed to the tracer and what is taken out of
//! its answer.
//!
//! The tracing itself is done by `vtracer`. It answers with an SVG document
//! that holds one `path` element to a line; the paths of the layer are
//! taken out of it as they stand, for the caller to scale and move.

use crate::number::{check_numeral, is_numeral, parse_u8, unsigned_byte};
use crate::text::{
    alphabetic, char_at, chars_of, copy_range, find_from, find_word, has_word_at, is_ascii_digit,
    is_digit, is_letter, is_space, is_whitespace, lemma_find_from, lemma_run_end, run_end,
    scan_run, starts_with_at, string_of, trim, trimmed, CharClass,
};
use crate::vectorize::VectorizeOptions;
use vstd::prelude::*;
use vtracer::{convert, ColorImage, Config};

verus! {

/// The colour that `s` writes in hexadecimal, as `RRGGBB` or `RGB`, white
/// space around it aside. In the short form each digit stands for itself
/// twice.
pub open spec fn hex_color(s: Seq<char>) -> Option<(u8, u8, u8)> {
    let t = trimmed(s);
    if t.len() == 6 {
        match (
            unsigned_byte(t.subrange(0, 2), 16),
            unsigned_byte(t.subrange(2, 4), 16),
            unsigned_byte(t.subrange(4, 6), 16),
        ) {
            (Some(r), Some(g), Some(b)) => Some((r as u8, g as u8, b as u8)),
            _ => None,
        }
    } else if t.len() == 3 {
        match (
            unsigned_byte(t.subrange(0, 1), 16),
            unsigned_byte(t.subrange(1, 2), 16),
            unsigned_byte(t.subrange(2, 3), 16),
        ) {
            (Some(r), Some(g), Some(b)) => if r < 16 && g < 16 && b < 16 {
                Some(((r * 17) as u8, (g * 17) as u8, (b * 17) as u8))
            } else {
                None
            },
            _ => None,
        }
    } else {
        None
    }
}

/// Reads the byte that a stretch of `t` writes in hexadecimal.
fn hex_part(t: &[char], from: usize, to: usize) -> (r: Option<u8>)
    requires
        from <= to <= t.len(),
    ensures
        match r {
            Some(v) => unsigned_byte(t@.subrange(from as int, to as int), 16) == Some(v as nat),
            None => unsigned_byte(t@.subrange(from as int, to as int), 16) is None,
        },
{
    let part = copy_range(t, from, to);
    parse_u8(part.as_slice(), 16)
}

/// Reads the colour that `s` writes in hexadecimal.
fn hex_color_of(s: &[char]) -> (r: Option<(u8, u8, u8)>)
    ensures
        r == hex_color(s@),
{
    let t = trim(s);
    if t.len() == 6 {
        match (hex_part(t.as_slice(), 0, 2), hex_part(t.as_slice(), 2, 4), hex_part(t.as_slice(), 4, 6)) {
            (Some(r), Some(g), Some(b)) => Some((r, g, b)),
            _ => None,
        }
    } else if t.len() == 3 {
        match (hex_part(t.as_slice(), 0, 1), hex_part(t.as_slice(), 1, 2), hex_part(t.as_slice(), 2, 3)) {
            (Some(r), Some(g), Some(b)) => if r < 16 && g < 16 && b < 16 {
                Some((r * 17, g * 17, b * 17))
            } else {
                None
            },
            _ => None,
        }
    } else {
        None
    }
}

/// Parse a hex color string to RGB values.
pub fn parse_hex_color(hex: &str) -> (r: Option<(u8, u8, u8)>)
    ensures
        r == hex_color(hex@),
{
    let s = chars_of(hex);
    hex_color_of(s.as_slice())
}

/// Whether a colour is white or light: every channel above 200.
pub open spec fn is_light(c: (u8, u8, u8)) -> bool {
    c.0 > 200 && c.1 > 200 && c.2 > 200
}

/// The byte that `s` writes in decimal, white space around it aside.
pub open spec fn channel(s: Seq<char>) -> Option<nat> {
    unsigned_byte(trimmed(s), 10)
}

/// The colour that `rgb` writes as three decimal channels between commas.
pub open spec fn rgb_color(rgb: Seq<char>) -> Option<(u8, u8, u8)> {
    let c1 = run_end(rgb, 0, CharClass::NotComma);
    let c2 = run_end(rgb, c1 + 1, CharClass::NotComma);
    let c3 = run_end(rgb, c2 + 1, CharClass::NotComma);
    if c1 < rgb.len() && c2 < rgb.len() && c3 >= rgb.len() {
        match (
            channel(rgb.subrange(0, c1)),
            channel(rgb.subrange(c1 + 1, c2)),
            channel(rgb.subrange(c2 + 1, rgb.len() as int)),
        ) {
            (Some(r), Some(g), Some(b)) => Some((r as u8, g as u8, b as u8)),
            _ => None,
        }
    } else {
        None
    }
}

/// The text between the first `opening` in `s` and the next `closing`
/// character, if `s` holds both.
pub open spec fn enclosed(s: Seq<char>, opening: Seq<char>, closing: CharClass) -> Option<Seq<char>> {
    match find_from(s, 0, opening) {
        Some(p) => {
            let start = p + opening.len();
            let end = run_end(s, start, closing);
            if end < s.len() {
                Some(s.subrange(start, end))
            } else {
                None
            }
        },
        None => None,
    }
}

/// The fill colour of an element that is written as `rgb(r,g,b)`.
pub open spec fn rgb_fill(s: Seq<char>) -> Option<(u8, u8, u8)> {
    match enclosed(s, "fill=\"rgb("@, CharClass::NotBracket) {
        Some(rgb) => rgb_color(rgb),
        None => None,
    }
}

/// The fill colour of an element that is written in hexadecimal.
pub open spec fn hex_fill(s: Seq<char>) -> Option<(u8, u8, u8)> {
    match enclosed(s, "fill=\"#"@, CharClass::NotQuote) {
        Some(hex) => hex_color(hex),
        None => None,
    }
}

/// Whether an element is filled in white or a light colour. The first of
/// these decides: a fill written as `rgb(..)`, one written in hexadecimal,
/// the fill `white`.
pub open spec fn light_fill(s: Seq<char>) -> bool {
    match rgb_fill(s) {
        Some(c) => is_light(c),
        None => match hex_fill(s) {
            Some(c) => is_light(c),
            None => find_from(s, 0, "fill=\"white\""@) is Some,
        },
    }
}

/// The text between the first `opening` and the next `closing` character.
fn read_enclosed(s: &[char], opening: &str, closing: CharClass) -> (r: Option<Vec<char>>)
    ensures
        r.deep_view() == enclosed(s@, opening@, closing),
{
    match find_word(s, 0, opening) {
        Some(p) => {
            proof {
                lemma_find_from(s@, 0, opening@);
            }
            let start = p + opening.unicode_len();
            let end = scan_run(s, start, closing);
            if end < s.len() {
                let inner = copy_range(s, start, end);
                assert(inner.deep_view() =~= inner@);
                Some(inner)
            } else {
                None
            }
        },
        None => None,
    }
}

/// Reads the byte that a stretch of `s` writes in decimal.
fn read_channel(s: &[char], from: usize, to: usize) -> (r: Option<u8>)
    requires
        from <= to <= s.len(),
    ensures
        match r {
            Some(v) => channel(s@.subrange(from as int, to as int)) == Some(v as nat),
            None => channel(s@.subrange(from as int, to as int)) is None,
        },
{
    let part = copy_range(s, from, to);
    let t = trim(part.as_slice());
    parse_u8(t.as_slice(), 10)
}

/// Reads the colour that `rgb` writes as three decimal channels.
fn rgb_color_of(rgb: &[char]) -> (r: Option<(u8, u8, u8)>)
    ensures
        r == rgb_color(rgb@),
{
    let c1 = scan_run(rgb, 0, CharClass::NotComma);
    if c1 >= rgb.len() {
        return None;
    }
    let c2 = scan_run(rgb, c1 + 1, CharClass::NotComma);
    if c2 >= rgb.len() {
        return None;
    }
    let c3 = scan_run(rgb, c2 + 1, CharClass::NotComma);
    if c3 < rgb.len() {
        return None;
    }
    match (read_channel(rgb, 0, c1), read_channel(rgb, c1 + 1, c2), read_channel(rgb, c2 + 1, rgb.len())) {
        (Some(r), Some(g), Some(b)) => Some((r, g, b)),
        _ => None,
    }
}

/// Whether an element is filled in white or a light colour.
fn light_fill_of(s: &[char]) -> (light: bool)
    ensures
        light == light_fill(s@),
{
    let rgb = match read_enclosed(s, "fill=\"rgb(", CharClass::NotBracket) {
        Some(inner) => {
            assert(inner.deep_view() =~= inner@);
            rgb_color_of(inner.as_slice())
        },
        None => None,
    };
    match rgb {
        Some((r, g, b)) => {
            return r > 200 && g > 200 && b > 200;
        },
        None => {},
    }
    let hex = match read_enclosed(s, "fill=\"#", CharClass::NotQuote) {
        Some(inner) => {
            assert(inner.deep_view() =~= inner@);
            hex_color_of(inner.as_slice())
        },
        None => None,
    };
    match hex {
        Some((r, g, b)) => {
            return r > 200 && g > 200 && b > 200;
        },
        None => {},
    }
    find_word(s, 0, "fill=\"white\"").is_some()
}

/// Check if a path element has a white or light fill color (background).
pub fn is_white_or_light_fill(path_element: &str) -> (light: bool)
    ensures
        light == light_fill(path_element@),
{
    let s = chars_of(path_element);
    light_fill_of(s.as_slice())
}

/// The two numbers of the `translate(..)` transform of an element: what
/// stands before the first comma or space, and what stands between it and
/// the next, white space around each aside, where both are numerals.
pub open spec fn translate_of(s: Seq<char>) -> Option<(Seq<char>, Seq<char>)> {
    match enclosed(s, "transform=\"translate("@, CharClass::NotBracket) {
        Some(values) => {
            let c1 = run_end(values, 0, CharClass::NotCommaOrSpace);
            let c2 = run_end(values, c1 + 1, CharClass::NotCommaOrSpace);
            let x = trimmed(values.subrange(0, c1));
            let y = trimmed(values.subrange(c1 + 1, c2));
            if c1 < values.len() && is_numeral(x) && is_numeral(y) {
                Some((x, y))
            } else {
                None
            }
        },
        None => None,
    }
}

/// Reads the two numbers of the `translate(..)` transform of an element.
fn read_translate(s: &[char]) -> (r: Option<(String, String)>)
    ensures
        r.deep_view() == translate_of(s@),
{
    let values = match read_enclosed(s, "transform=\"translate(", CharClass::NotBracket) {
        Some(inner) => {
            assert(inner.deep_view() =~= inner@);
            inner
        },
        None => {
            return None;
        },
    };
    let c1 = scan_run(values.as_slice(), 0, CharClass::NotCommaOrSpace);
    if c1 >= values.len() {
        return None;
    }
    let c2 = scan_run(values.as_slice(), c1 + 1, CharClass::NotCommaOrSpace);
    let first = copy_range(values.as_slice(), 0, c1);
    let second = copy_range(values.as_slice(), c1 + 1, c2);
    let x = trim(first.as_slice());
    let y = trim(second.as_slice());
    if check_numeral(x.as_slice()) && check_numeral(y.as_slice()) {
        Some((string_of(x.as_slice()), string_of(y.as_slice())))
    } else {
        None
    }
}

/// A path as the tracer wrote it: its path data, in the scale of the image
/// that was traced, and the place it is moved to, if it is.
#[derive(Debug)]
pub struct TracedPath {
    pub d: String,
    pub translate: Option<(String, String)>,
}

/// The mathematical value of a [`TracedPath`].
pub struct TracedPathView {
    pub d: Seq<char>,
    pub translate: Option<(Seq<char>, Seq<char>)>,
}

impl DeepView for TracedPath {
    type V = TracedPathView;

    open spec fn deep_view(&self) -> TracedPathView {
        TracedPathView { d: self.d@, translate: self.translate.deep_view() }
    }
}

/// The path that a line of the tracer's document holds, white space around
/// the line aside: the line is a `path` element with path data that is not
/// filled in white or a light colour.
pub open spec fn path_in(line: Seq<char>) -> Option<TracedPathView> {
    let t = trimmed(line);
    match find_from(t, 0, " d=\""@) {
        Some(p) => {
            let end = run_end(t, p + 4, CharClass::NotQuote);
            if has_word_at(t, 0, "<path"@) && !light_fill(t) && end < t.len() {
                Some(TracedPathView { d: t.subrange(p + 4, end), translate: translate_of(t) })
            } else {
                None
            }
        },
        None => None,
    }
}

/// The paths that the lines of `s` from position `at` on hold, in order.
pub open spec fn paths_from(s: Seq<char>, at: int) -> Seq<TracedPathView>
    decreases s.len() - at,
{
    if at < 0 || at >= s.len() {
        Seq::empty()
    } else {
        let end = run_end(s, at, CharClass::NotNewline);
        proof {
            lemma_run_end(s, at, CharClass::NotNewline);
        }
        let rest = if end < s.len() {
            paths_from(s, end + 1)
        } else {
            Seq::empty()
        };
        match path_in(s.subrange(at, end)) {
            Some(path) => seq![path] + rest,
            None => rest,
        }
    }
}

/// The paths of a layer in the document that the tracer wrote.
pub open spec fn traced_paths(svg: Seq<char>) -> Seq<TracedPathView> {
    paths_from(svg, 0)
}

/// Reads the path that a line holds, if it holds one.
fn read_path(line: &[char]) -> (r: Option<TracedPath>)
    ensures
        r.deep_view() == path_in(line@),
{
    let t = trim(line);
    proof {
        reveal_strlit(" d=\"");
    }
    let p = match find_word(t.as_slice(), 0, " d=\"") {
        Some(p) => p,
        None => {
            return None;
        },
    };
    proof {
        lemma_find_from(t@, 0, " d=\""@);
        assert(" d=\""@.len() == 4);
    }
    if !starts_with_at(t.as_slice(), 0, "<path") {
        return None;
    }
    if light_fill_of(t.as_slice()) {
        return None;
    }
    let end = scan_run(t.as_slice(), p + 4, CharClass::NotQuote);
    if end >= t.len() {
        return None;
    }
    let d = copy_range(t.as_slice(), p + 4, end);
    Some(TracedPath { d: string_of(d.as_slice()), translate: read_translate(t.as_slice()) })
}

/// Extract path d attributes from SVG.
/// Only extracts paths with dark fill colors (not white background).
/// Returns raw path data strings (not wrapped in `<path>` elements), each
/// with the `translate(x,y)` of its element, if it has one.
pub fn extract_paths(svg_content: &str) -> (paths: Vec<TracedPath>)
    ensures
        paths.deep_view() == traced_paths(svg_content@),
{
    let s = chars_of(svg_content);
    let mut paths: Vec<TracedPath> = Vec::new();
    assert(paths.deep_view() =~= Seq::<TracedPathView>::empty());
    let mut i: usize = 0;
    while i < s.len()
        invariant
            s@ == svg_content@,
            traced_paths(s@) == paths.deep_view() + paths_from(s@, i as int),
        decreases s.len() - i,
    {
        let end = scan_run(s.as_slice(), i, CharClass::NotNewline);
        let line = copy_range(s.as_slice(), i, end);
        let ghost before = paths.deep_view();
        let ghost rest = if end < s.len() {
            paths_from(s@, end + 1)
        } else {
            Seq::empty()
        };
        match read_path(line.as_slice()) {
            Some(path) => {
                let ghost value = path.deep_view();
                paths.push(path);
                assert(paths.deep_view() =~= before.push(value));
                assert(before + (seq![value] + rest) =~= before.push(value) + rest);
            },
            None => {},
        }
        if end == s.len() {
            assert(paths.deep_view() + rest =~= paths.deep_view());
            return paths;
        }
        i = end + 1;
    }
    assert(paths.deep_view() + Seq::<TracedPathView>::empty() =~= paths.deep_view());
    paths
}

/// One piece of path data.
#[derive(Debug)]
pub enum PathToken {
    /// A command letter.
    Command(char),
    /// A number as it is written; `valid` where it is a numeral. `is_x`
    /// tells the axis: numbers behind a command are taken for x and y in
    /// turn.
    Number { text: String, valid: bool, is_x: bool },
    /// A comma or a white space character.
    Separator(char),
}

/// The mathematical value of a [`PathToken`].
pub enum PathTokenView {
    Command(char),
    Number { text: Seq<char>, valid: bool, is_x: bool },
    Separator(char),
}

impl DeepView for PathToken {
    type V = PathTokenView;

    open spec fn deep_view(&self) -> PathTokenView {
        match self {
            PathToken::Command(c) => PathTokenView::Command(*c),
            PathToken::Number { text, valid, is_x } => PathTokenView::Number {
                text: text@,
                valid: *valid,
                is_x: *is_x,
            },
            PathToken::Separator(c) => PathTokenView::Separator(*c),
        }
    }
}

/// Whether a number may begin with `c`.
pub open spec fn starts_number(c: char) -> bool {
    c == '-' || c == '.' || is_digit(c)
}

/// Where the number ends that has been read up to, not including, position
/// `at`: it goes on over digits, `.`, `e` and `E`, and over a `-` right
/// behind an `e` or `E`.
pub open spec fn number_end(s: Seq<char>, at: int) -> int
    decreases s.len() - at,
{
    if 1 <= at < s.len() && (is_digit(s[at]) || s[at] == '.' || s[at] == 'e' || s[at] == 'E' || (
    s[at] == '-' && (s[at - 1] == 'e' || s[at - 1] == 'E'))) {
        number_end(s, at + 1)
    } else {
        at
    }
}

/// A number ends at or behind the position it has been read up to, within
/// the text.
pub proof fn lemma_number_end(s: Seq<char>, at: int)
    requires
        1 <= at <= s.len(),
    ensures
        at <= number_end(s, at) <= s.len(),
    decreases s.len() - at,
{
    if at < s.len() && number_end(s, at) != at {
        lemma_number_end(s, at + 1);
    }
}

/// The pieces of the path data `s` from position `at` on. Characters that
/// are neither letters, numbers, commas nor white space are left out.
pub open spec fn tokens_from(s: Seq<char>, at: int, is_x: bool) -> Seq<PathTokenView>
    decreases s.len() - at,
{
    if at < 0 || at >= s.len() {
        Seq::empty()
    } else if alphabetic(s[at]) {
        seq![PathTokenView::Command(s[at])] + tokens_from(s, at + 1, true)
    } else if starts_number(s[at]) {
        let end = number_end(s, at + 1);
        proof {
            lemma_number_end(s, at + 1);
        }
        let text = s.subrange(at, end);
        seq![PathTokenView::Number { text, valid: is_numeral(text), is_x }] + tokens_from(
            s,
            end,
            !is_x,
        )
    } else if s[at] == ',' || is_space(s[at]) {
        seq![PathTokenView::Separator(s[at])] + tokens_from(s, at + 1, is_x)
    } else {
        tokens_from(s, at + 1, is_x)
    }
}

/// The pieces of path data.
pub open spec fn path_tokens(s: Seq<char>) -> Seq<PathTokenView> {
    tokens_from(s, 0, true)
}

/// Runs over the rest of a number that has been read up to `at`.
fn scan_number(s: &[char], at: usize) -> (end: usize)
    requires
        1 <= at <= s.len(),
    ensures
        end == number_end(s@, at as int),
        at <= end <= s.len(),
{
    let mut i: usize = at;
    while i < s.len() && (is_ascii_digit(s[i]) || s[i] == '.' || s[i] == 'e' || s[i]
        == 'E' || (s[i] == '-' && (s[i - 1] == 'e' || s[i - 1] == 'E')))
        invariant
            1 <= at <= i <= s.len(),
            number_end(s@, at as int) == number_end(s@, i as int),
        decreases s.len() - i,
    {
        i += 1;
    }
    i
}

/// Splits path data into its pieces.
pub fn tokenize_path_data(d: &str) -> (tokens: Vec<PathToken>)
    ensures
        tokens.deep_view() == path_tokens(d@),
{
    let s = chars_of(d);
    let mut tokens: Vec<PathToken> = Vec::new();
    assert(tokens.deep_view() =~= Seq::<PathTokenView>::empty());
    let mut is_x = true;
    let mut i: usize = 0;
    while i < s.len()
        invariant
            i <= s.len(),
            s@ == d@,
            path_tokens(s@) == tokens.deep_view() + tokens_from(s@, i as int, is_x),
        decreases s.len() - i,
    {
        let c = char_at(s.as_slice(), i);
        let ghost before = tokens.deep_view();
        if is_letter(c) {
            let token = PathToken::Command(c);
            let ghost value = token.deep_view();
            tokens.push(token);
            proof {
                let rest = tokens_from(s@, i + 1, true);
                assert(tokens.deep_view() =~= before.push(value));
                assert(before + (seq![value] + rest) =~= before.push(value) + rest);
            }
            is_x = true;
            i += 1;
        } else if c == '-' || c == '.' || is_ascii_digit(c) {
            let end = scan_number(s.as_slice(), i + 1);
            let text = copy_range(s.as_slice(), i, end);
            let valid = check_numeral(text.as_slice());
            let token = PathToken::Number { text: string_of(text.as_slice()), valid, is_x };
            let ghost value = token.deep_view();
            tokens.push(token);
            proof {
                let rest = tokens_from(s@, end as int, !is_x);
                assert(tokens.deep_view() =~= before.push(value));
                assert(before + (seq![value] + rest) =~= before.push(value) + rest);
            }
            is_x = !is_x;
            i = end;
        } else if c == ',' || is_whitespace(c) {
            let token = PathToken::Separator(c);
            let ghost value = token.deep_view();
            tokens.push(token);
            proof {
                let rest = tokens_from(s@, i + 1, is_x);
                assert(tokens.deep_view() =~= before.push(value));
                assert(before + (seq![value] + rest) =~= before.push(value) + rest);
            }
            i += 1;
        } else {
            i += 1;
        }
    }
    assert(tokens.deep_view() + Seq::<PathTokenView>::empty() =~= tokens.deep_view());
    tokens
}

/// The points that the pieces of path data from position `i` on name.
///
/// The numerals behind a command are taken for x and y in turn; each y
/// gives a point with the x read last, which is `x` to begin with. Numbers
/// that are no numerals are passed over and do not count in the turn.
pub open spec fn points_from(tokens: Seq<PathTokenView>, i: int, is_x: bool, x: Seq<char>) -> Seq<
    (Seq<char>, Seq<char>),
>
    decreases tokens.len() - i,
{
    if i < 0 || i >= tokens.len() {
        Seq::empty()
    } else {
        match tokens[i] {
            PathTokenView::Command(_) => points_from(tokens, i + 1, true, x),
            PathTokenView::Number { text, valid, .. } => if !valid {
                points_from(tokens, i + 1, is_x, x)
            } else if is_x {
                points_from(tokens, i + 1, false, text)
            } else {
                seq![(x, text)] + points_from(tokens, i + 1, true, x)
            },
            PathTokenView::Separator(_) => points_from(tokens, i + 1, is_x, x),
        }
    }
}

/// The points that path data names, with `0` for an x that was never read.
pub open spec fn path_points(tokens: Seq<PathTokenView>) -> Seq<(Seq<char>, Seq<char>)> {
    points_from(tokens, 0, true, seq!['0'])
}

/// The points that count for the bounding box of path data.
pub fn coordinate_pairs(tokens: &Vec<PathToken>) -> (points: Vec<(String, String)>)
    ensures
        points.deep_view() == path_points(tokens.deep_view()),
{
    proof {
        reveal_strlit("0");
        assert("0"@ =~= seq!['0']);
    }
    let ghost views = tokens.deep_view();
    let mut points: Vec<(String, String)> = Vec::new();
    assert(points.deep_view() =~= Seq::<(Seq<char>, Seq<char>)>::empty());
    let mut x = String::from_str("0");
    let mut is_x = true;
    let mut i: usize = 0;
    while i < tokens.len()
        invariant
            i <= tokens.len(),
            views == tokens.deep_view(),
            path_points(views) == points.deep_view() + points_from(views, i as int, is_x, x@),
        decreases tokens.len() - i,
    {
        assert(views[i as int] == tokens[i as int].deep_view());
        match &tokens[i] {
            PathToken::Command(_) => {
                is_x = true;
            },
            PathToken::Number { text, valid, is_x: _ } => {
                if *valid {
                    if is_x {
                        x = text.clone();
                        is_x = false;
                    } else {
                        let ghost before = points.deep_view();
                        let ghost rest = points_from(views, i + 1, true, x@);
                        let point = (x.clone(), text.clone());
                        let ghost value = point.deep_view();
                        points.push(point);
                        proof {
                            assert(points.deep_view() =~= before.push(value));
                            assert(before + (seq![value] + rest) =~= before.push(value) + rest);
                        }
                        is_x = true;
                    }
                }
            },
            PathToken::Separator(_) => {},
        }
        i += 1;
    }
    assert(points.deep_view() + Seq::<(Seq<char>, Seq<char>)>::empty() =~= points.deep_view());
    points
}

/// The `path` element around path data.
pub open spec fn wrapped(d: Seq<char>) -> Seq<char> {
    "<path d=\""@ + d + "\"/>"@
}

/// Wraps path data in a `<path>` element.
pub fn wrap_path(d: &str) -> (element: String)
    ensures
        element@ == wrapped(d@),
{
    let mut element = String::from_str("<path d=\"");
    element.append(d);
    element.append("\"/>");
    element
}

/// The byte at position `k` of the RGBA image that stands for a mask
/// scaled up by `scale`: a set pixel is black, any other white, all
/// opaque.
pub open spec fn scaled_at(mask: Seq<u8>, width: int, scale: int, k: int) -> u8 {
    let pixel = k / 4;
    let x = pixel % (width * scale);
    let y = pixel / (width * scale);
    if k % 4 == 3 {
        255
    } else if mask[(y / scale) * width + x / scale] == 1 {
        0
    } else {
        255
    }
}

/// The RGBA image that stands for a mask scaled up by `scale`.
pub open spec fn scaled_up(mask: Seq<u8>, width: int, height: int, scale: int) -> Seq<u8> {
    Seq::new(
        (width * scale * (height * scale) * 4) as nat,
        |k: int| scaled_at(mask, width, scale, k),
    )
}

/// Each pixel of a mask that is scaled up comes from a pixel of the mask.
proof fn lemma_source_pixel(width: int, height: int, scale: int, pixel: int)
    requires
        width >= 0,
        height >= 0,
        scale > 0,
        0 <= pixel < width * scale * (height * scale),
    ensures
        width > 0,
        ({
            let x = pixel % (width * scale);
            let y = pixel / (width * scale);
            0 <= x / scale < width && 0 <= y / scale < height && 0 <= (y / scale) * width + x
                / scale < width * height
        }),
{
    let sw = width * scale;
    let sh = height * scale;
    assert(sw >= 0 && sh >= 0) by (nonlinear_arith)
        requires
            width >= 0,
            height >= 0,
            scale > 0,
            sw == width * scale,
            sh == height * scale,
    ;
    if sw == 0 {
        assert(sw * sh == 0) by (nonlinear_arith)
            requires
                sw == 0,
        ;
    }
    assert(width > 0) by (nonlinear_arith)
        requires
            width >= 0,
            sw > 0,
            sw == width * scale,
    ;
    let x = pixel % sw;
    let y = pixel / sw;
    vstd::arithmetic::div_mod::lemma_fundamental_div_mod(pixel, sw);
    vstd::arithmetic::div_mod::lemma_mod_bound(pixel, sw);
    assert(0 <= y < sh) by (nonlinear_arith)
        requires
            pixel == sw * y + x,
            0 <= x < sw,
            0 <= pixel < sw * sh,
            sw > 0,
    ;
    vstd::arithmetic::div_mod::lemma_fundamental_div_mod(x, scale);
    vstd::arithmetic::div_mod::lemma_mod_bound(x, scale);
    vstd::arithmetic::div_mod::lemma_fundamental_div_mod(y, scale);
    vstd::arithmetic::div_mod::lemma_mod_bound(y, scale);
    let sx = x / scale;
    let sy = y / scale;
    assert(0 <= sx < width) by (nonlinear_arith)
        requires
            x == scale * sx + x % scale,
            0 <= x % scale < scale,
            0 <= x < width * scale,
            scale > 0,
    ;
    assert(0 <= sy < height) by (nonlinear_arith)
        requires
            y == scale * sy + y % scale,
            0 <= y % scale < scale,
            0 <= y < height * scale,
            scale > 0,
    ;
    assert(0 <= sy * width + sx < width * height) by (nonlinear_arith)
        requires
            0 <= sx < width,
            0 <= sy < height,
    ;
}

/// Scales a mask up and turns it into the RGBA image that is traced.
pub fn scale_up_mask(mask: &Vec<u8>, width: u32, height: u32, scale: u32) -> (pixels: Vec<u8>)
    requires
        width * height <= mask.len(),
        width * scale * (height * scale) * 4 <= usize::MAX,
    ensures
        pixels@ == scaled_up(mask@, width as int, height as int, scale as int),
{
    let w = width as usize;
    let h = height as usize;
    let f = scale as usize;
    let mut pixels: Vec<u8> = Vec::new();
    if f == 0 {
        assert(width * scale * (height * scale) * 4 == 0) by (nonlinear_arith)
            requires
                scale == 0,
        ;
        assert(pixels@ =~= scaled_up(mask@, width as int, height as int, scale as int));
        return pixels;
    }
    proof {
        assert(0 <= (w * f) * (h * f) <= (w * f) * (h * f) * 4) by (nonlinear_arith)
            requires
                w >= 0,
                h >= 0,
                f > 0,
        ;
        assert(0 <= w * f <= (w * f) * (h * f) || h == 0) by (nonlinear_arith)
            requires
                w >= 0,
                h >= 0,
                f > 0,
        ;
        assert(0 <= h * f <= (w * f) * (h * f) || w == 0) by (nonlinear_arith)
            requires
                w >= 0,
                h >= 0,
                f > 0,
        ;
    }
    if w == 0 || h == 0 {
        assert(width * scale * (height * scale) * 4 == 0) by (nonlinear_arith)
            requires
                width == 0 || height == 0,
        ;
        assert(pixels@ =~= scaled_up(mask@, width as int, height as int, scale as int));
        return pixels;
    }
    let sw: usize = w * f;
    let sh: usize = h * f;
    let total: usize = sw * sh;
    let mut p: usize = 0;
    while p < total
        invariant
            p <= total,
            total == sw * sh,
            sw == w * f,
            sh == h * f,
            w == width,
            h == height,
            f == scale,
            f > 0,
            w * h <= mask.len(),
            total * 4 <= usize::MAX,
            pixels.len() == p * 4,
            forall|k: int| 0 <= k < p * 4 ==> pixels[k] == scaled_at(mask@, w as int, f as int, k),
        decreases total - p,
    {
        proof {
            lemma_source_pixel(w as int, h as int, f as int, p as int);
        }
        let x = p % sw;
        let y = p / sw;
        let src = (y / f) * w + x / f;
        let color: u8 = if mask[src] == 1 {
            0
        } else {
            255
        };
        let ghost before = pixels@;
        pixels.push(color);
        pixels.push(color);
        pixels.push(color);
        pixels.push(255);
        proof {
            assert forall|k: int| 0 <= k < (p + 1) * 4 implies pixels[k] == scaled_at(
                mask@,
                w as int,
                f as int,
                k,
            ) by {
                if k >= p * 4 {
                    assert(k / 4 == p as int);
                } else {
                    assert(pixels[k] == before[k]);
                }
            }
        }
        p += 1;
    }
    assert(pixels@ =~= scaled_up(mask@, width as int, height as int, scale as int));
    pixels
}

/// What the tracer is asked to do with an image: the size of the image,
/// and how it is to be traced.
#[derive(Debug, Clone, Copy, PartialEq, Eq, Structural)]
pub struct TracerSettings {
    pub width: usize,
    pub height: usize,
    /// Patches of fewer pixels than the square of this are left out.
    pub filter_speckle: usize,
    /// How many bits of each colour channel count, from 1 to 8.
    pub color_precision: i32,
    pub layer_difference: i32,
    pub corner_threshold: i32,
    pub path_precision: u32,
}

/// The settings for tracing a mask of the given size under the options:
/// the image is the mask scaled up, speckles are scaled up with it, colours
/// count in full and layers lie 128 apart.
pub open spec fn settings_of(width: u32, height: u32, options: VectorizeOptions) -> TracerSettings {
    TracerSettings {
        width: (width * options.scale_factor) as usize,
        height: (height * options.scale_factor) as usize,
        filter_speckle: (options.filter_speckle * options.scale_factor) as usize,
        color_precision: 8,
        layer_difference: 128,
        corner_threshold: options.corner_threshold,
        path_precision: options.path_precision,
    }
}

/// Whether the tracer can take the image under the settings: the image
/// has pixels and they fill it, the area of a speckle can be held, and the
/// colour precision lies between 1 and 8.
pub open spec fn traceable(pixels: Seq<u8>, settings: TracerSettings) -> bool {
    settings.width > 0 && settings.height > 0 && pixels.len() == settings.width
        * settings.height * 4 && settings.filter_speckle * settings.filter_speckle <= usize::MAX
        && 1 <= settings.color_precision <= 8
}

/// Makes the settings for tracing a mask of the given size under the
/// options.
pub fn tracer_settings(width: u32, height: u32, options: &VectorizeOptions) -> (settings:
    TracerSettings)
    requires
        width * options.scale_factor <= usize::MAX,
        height * options.scale_factor <= usize::MAX,
        options.filter_speckle * options.scale_factor <= usize::MAX,
    ensures
        settings == settings_of(width, height, *options),
{
    let scale = options.scale_factor as usize;
    TracerSettings {
        width: width as usize * scale,
        height: height as usize * scale,
        filter_speckle: options.filter_speckle * scale,
        color_precision: 8,
        layer_difference: 128,
        corner_threshold: options.corner_threshold,
        path_precision: options.path_precision,
    }
}

/// `vtracer::convert` traces an RGBA image into an SVG document, which is
/// handed out as text. It fails with a message where it finds no colour
/// free for keying. Nothing is said of the document: the tracer draws
/// random numbers on the way. It is called only on what it can take: an
/// image that has pixels; it squares the speckle size, and shifts colours
/// by 8 less the colour precision, which it wants below 8 and which must
/// not be negative.
#[verifier::external_body]
fn run_tracer(pixels: Vec<u8>, settings: &TracerSettings) -> (svg: Result<String, String>)
    requires
        traceable(pixels@, *settings),
{
    let config = Config {
        filter_speckle: settings.filter_speckle,
        color_precision: settings.color_precision,
        layer_difference: settings.layer_difference,
        corner_threshold: settings.corner_threshold,
        path_precision: Some(settings.path_precision),
        ..Default::default()
    };
    let image = ColorImage { pixels, width: settings.width, height: settings.height };
    convert(image, config).map(|svg| svg.to_string())
}

/// Whether a pixel of the mask is set.
pub open spec fn has_mark(mask: Seq<u8>) -> bool {
    exists|i: int| 0 <= i < mask.len() && mask[i] == 1
}

/// Whether there is anything to trace: a pixel of the mask is set and the
/// image that the mask is scaled up to has pixels.
pub open spec fn worth_tracing(mask: Seq<u8>, width: u32, height: u32, scale: u32) -> bool {
    has_mark(mask) && width > 0 && height > 0 && scale > 0
}

/// Whether a pixel of the mask is set.
fn any_mark(mask: &Vec<u8>) -> (found: bool)
    ensures
        found == has_mark(mask@),
{
    let mut i: usize = 0;
    while i < mask.len()
        invariant
            i <= mask.len(),
            forall|k: int| 0 <= k < i ==> mask[k] != 1,
        decreases mask.len() - i,
    {
        if mask[i] == 1 {
            return true;
        }
        i += 1;
    }
    false
}

/// The message for a tracing that failed.
pub open spec fn tracing_failed(message: Seq<char>) -> Seq<char> {
    "vtracer conversion failed: "@ + message
}

/// What a tracing gives once the tracer has answered: the paths of its
/// document, or the message of its failure.
pub open spec fn tracing_outcome(answer: Result<Seq<char>, Seq<char>>) -> Result<
    Seq<TracedPathView>,
    Seq<char>,
> {
    match answer {
        Ok(svg) => Ok(traced_paths(svg)),
        Err(message) => Err(tracing_failed(message)),
    }
}

/// The value of what the tracer answers.
pub open spec fn answer_view(answer: Result<String, String>) -> Result<Seq<char>, Seq<char>> {
    match answer {
        Ok(svg) => Ok(svg@),
        Err(message) => Err(message@),
    }
}

/// Turns the answer of the tracer into the paths of the layer.
pub fn paths_of_answer(answer: Result<String, String>) -> (r: Result<Vec<TracedPath>, String>)
    ensures
        match tracing_outcome(answer_view(answer)) {
            Ok(paths) => r matches Ok(found) && found.deep_view() == paths,
            Err(e) => r matches Err(message) && message@ == e,
        },
{
    match answer {
        Ok(svg) => Ok(extract_paths(svg.as_str())),
        Err(e) => {
            let mut message = String::from_str("vtracer conversion failed: ");
            message.append(e.as_str());
            Err(message)
        },
    }
}

/// Trace a binary mask to SVG path data.
/// Returns raw path data (d attribute values), not wrapped in `<path>`
/// elements, in the scale of the image that was traced: `scale_factor`
/// times that of the mask.
///
/// A mask without a set pixel gives no path and is not traced, nor is an
/// image without pixels. Of any other mask the paths are those that
/// [`paths_of_answer`] takes out of what the tracer answers, when it is
/// handed the image of [`scale_up_mask`] under the settings of
/// [`tracer_settings`].
pub fn trace_mask_to_svg_paths(
    mask: &Vec<u8>,
    width: u32,
    height: u32,
    options: &VectorizeOptions,
) -> (r: Result<Vec<TracedPath>, String>)
    requires
        width * height <= mask.len(),
        width * options.scale_factor <= u32::MAX,
        height * options.scale_factor <= u32::MAX,
        width * options.scale_factor * (height * options.scale_factor) * 4 <= u32::MAX,
        options.filter_speckle * options.scale_factor * (options.filter_speckle
            * options.scale_factor) <= usize::MAX,
    ensures
        !worth_tracing(mask@, width, height, options.scale_factor) ==> (r matches Ok(paths)
            && paths.len() == 0),
        worth_tracing(mask@, width, height, options.scale_factor) ==> exists|
            answer: Result<Seq<char>, Seq<char>>,
        |
            match #[trigger] tracing_outcome(answer) {
                Ok(paths) => (r matches Ok(found) && found.deep_view() == paths),
                Err(e) => (r matches Err(message) && message@ == e),
            },
{
    if !any_mark(mask) || width == 0 || height == 0 || options.scale_factor == 0 {
        return Ok(Vec::new());
    }
    let scale = options.scale_factor;
    let pixels = scale_up_mask(mask, width, height, scale);
    proof {
        let fs = options.filter_speckle as int;
        let sc = scale as int;
        assert(0 <= fs * sc <= fs * sc * (fs * sc)) by (nonlinear_arith)
            requires
                fs >= 0,
                sc >= 0,
        ;
    }
    let settings = tracer_settings(width, height, options);
    assert(settings.width * settings.height * 4 == width * scale * (height * scale) * 4)
        by (nonlinear_arith)
        requires
            settings.width == width * scale,
            settings.height == height * scale,
    ;
    assert(width * scale > 0 && height * scale > 0) by (nonlinear_arith)
        requires
            width > 0,
            height > 0,
            scale > 0,
    ;
    let answer = run_tracer(pixels, &settings);
    let ghost seen = answer_view(answer);
    let r = paths_of_answer(answer);
    // What the tracer answered is the answer that the contract speaks of.
    assert(tracing_outcome(seen) == tracing_outcome(seen));
    r
}

} // verus!
