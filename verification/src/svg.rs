//! The SVG document of a project.
//!
//! The way from a shape tree to its document has three legs. [`flatten`]
//! decides what is drawn under which chain of transforms: a group with a
//! single child gives way to that child. The numbers of what is left are
//! then worked out and written down by the caller, which gives the
//! [`Element`]s. [`lbrn2_to_svg`] writes the document from them.

use crate::log::{extends, extends_by_one, extends_itself, extends_on, log_view, push_warning};
use crate::path::{generate_path_data, path_data, path_data_extends_log};
use crate::style::{get_cut_setting_style, settings_view, style_of};
use crate::types::{
    extend_chain, lemma_group_view, CutSetting, CutSettingView, Path, PathView, Shape, ShapeView,
    XForm, XFormView,
};
use vstd::prelude::*;

verus! {

/// A shape as it is drawn: under a chain of transforms, the outermost
/// first, that are to be composed from left to right.
#[derive(Debug)]
pub enum Flat {
    /// A shape that is no group. Its own transform ends the chain.
    Leaf { chain: Vec<XForm>, shape: Shape },
    /// A group that is kept as a group. Its own transform ends the chain.
    Group { chain: Vec<XForm>, cut_index: i32, children: Vec<Flat> },
}

/// The mathematical value of a [`Flat`].
pub enum FlatView {
    Leaf { chain: Seq<XFormView>, shape: ShapeView },
    Group { chain: Seq<XFormView>, cut_index: i32, children: Seq<FlatView> },
}

/// The mathematical value of a flattened shape.
pub open spec fn flat_view(flat: Flat) -> FlatView
    decreases flat,
{
    match flat {
        Flat::Leaf { chain, shape } => FlatView::Leaf {
            chain: chain.deep_view(),
            shape: shape.deep_view(),
        },
        Flat::Group { chain, cut_index, children } => FlatView::Group {
            chain: chain.deep_view(),
            cut_index,
            children: Seq::new(
                children@.len(),
                |i: int|
                    if 0 <= i < children@.len() {
                        flat_view(children@[i])
                    } else {
                        arbitrary()
                    },
            ),
        },
    }
}

impl DeepView for Flat {
    type V = FlatView;

    open spec fn deep_view(&self) -> FlatView {
        flat_view(*self)
    }
}

/// What is drawn for `shape` under the transforms `prefix`.
///
/// A group with exactly one child is not drawn itself: its transform joins
/// the chain and the child is drawn in its place. Any other group is kept,
/// and each of its children starts a chain of its own.
pub open spec fn flattened(prefix: Seq<XFormView>, shape: ShapeView) -> FlatView
    decreases shape,
{
    match shape {
        ShapeView::Group { cut_index, xform, children } => if children.len() == 1 {
            flattened(prefix.push(xform), children[0])
        } else {
            FlatView::Group {
                chain: prefix.push(xform),
                cut_index,
                children: Seq::new(
                    children.len(),
                    |i: int|
                        if 0 <= i < children.len() {
                            flattened(Seq::empty(), children[i])
                        } else {
                            arbitrary()
                        },
                ),
            }
        },
        _ => FlatView::Leaf { chain: prefix.push(shape.xform()), shape },
    }
}

impl FlatView {
    /// No group of the tree has exactly one child.
    pub open spec fn is_flat(self) -> bool
        decreases self,
    {
        match self {
            FlatView::Leaf { .. } => true,
            FlatView::Group { children, .. } => children.len() != 1 && forall|i: int|
                0 <= i < children.len() ==> (#[trigger] children[i]).is_flat(),
        }
    }
}

/// A group with exactly one child that is no group is drawn as that child
/// alone, under the transform of the group followed by its own.
pub proof fn single_child_is_flattened(
    prefix: Seq<XFormView>,
    cut_index: i32,
    xform: XFormView,
    child: ShapeView,
)
    requires
        !(child is Group),
    ensures
        flattened(prefix, ShapeView::Group { cut_index, xform, children: seq![child] }) == (
        FlatView::Leaf { chain: prefix.push(xform).push(child.xform()), shape: child }),
{
    let group = ShapeView::Group { cut_index, xform, children: seq![child] };
    assert(seq![child][0] == child);
    assert(flattened(prefix, group) == flattened(prefix.push(xform), child));
}

/// Whatever the shape, what is drawn for it holds no group with exactly one
/// child.
pub proof fn flattened_is_flat(prefix: Seq<XFormView>, shape: ShapeView)
    ensures
        flattened(prefix, shape).is_flat(),
    decreases shape,
{
    match shape {
        ShapeView::Group { cut_index, xform, children } => {
            if children.len() == 1 {
                flattened_is_flat(prefix.push(xform), children[0]);
            } else {
                let flat = flattened(prefix, shape);
                assert forall|i: int| 0 <= i < children.len() implies (
                #[trigger] flat->Group_children[i]).is_flat() by {
                    flattened_is_flat(Seq::empty(), children[i]);
                }
            }
        },
        _ => {},
    }
}

/// Decides what is drawn for a shape under the transforms `prefix`.
fn flatten_under(prefix: &Vec<XForm>, shape: &Shape) -> (flat: Flat)
    ensures
        flat.deep_view() == flattened(prefix.deep_view(), shape.deep_view()),
    decreases shape,
{
    match shape {
        Shape::Group(g) => {
            proof {
                lemma_group_view(*g);
            }
            let chain = extend_chain(prefix, &g.xform);
            if g.children.len() == 1 {
                proof {
                    let whole = *shape;
                    assert(whole->Group_0 == *g);
                    assert(decreases_to!(whole => whole->Group_0));
                    assert(decreases_to!(whole->Group_0 => whole->Group_0.children));
                    assert(decreases_to!(g.children => g.children@));
                    assert(decreases_to!(g.children@ => g.children@[0]));
                }
                flatten_under(&chain, &g.children[0])
            } else {
                let none: Vec<XForm> = Vec::new();
                assert(none.deep_view() =~= Seq::<XFormView>::empty());
                let mut children: Vec<Flat> = Vec::new();
                let mut i: usize = 0;
                while i < g.children.len()
                    invariant
                        i <= g.children.len(),
                        children.len() == i,
                        *shape == Shape::Group(*g),
                        none.deep_view() == Seq::<XFormView>::empty(),
                        forall|k: int|
                            0 <= k < i ==> flat_view(children[k]) == flattened(
                                Seq::empty(),
                                g.children[k].deep_view(),
                            ),
                    decreases g.children.len() - i,
                {
                    proof {
                        let whole = *shape;
                        assert(whole->Group_0 == *g);
                        assert(decreases_to!(whole => whole->Group_0));
                        assert(decreases_to!(whole->Group_0 => whole->Group_0.children));
                        assert(decreases_to!(g.children => g.children@));
                        assert(decreases_to!(g.children@ => g.children@[i as int]));
                    }
                    children.push(flatten_under(&none, &g.children[i]));
                    i += 1;
                }
                let flat = Flat::Group { chain, cut_index: g.cut_index, children };
                assert(flat.deep_view()->Group_children =~= flattened(
                    prefix.deep_view(),
                    shape.deep_view(),
                )->Group_children);
                flat
            }
        },
        _ => {
            let chain = extend_chain(prefix, shape.xform());
            Flat::Leaf { chain, shape: shape.clone() }
        },
    }
}

/// Decides what is drawn for a shape and under which transforms.
pub fn flatten(shape: &Shape) -> (flat: Flat)
    ensures
        flat.deep_view() == flattened(Seq::empty(), shape.deep_view()),
        flat.deep_view().is_flat(),
{
    let none: Vec<XForm> = Vec::new();
    assert(none.deep_view() =~= Seq::<XFormView>::empty());
    proof {
        flattened_is_flat(Seq::empty(), shape.deep_view());
    }
    flatten_under(&none, shape)
}

/// One element of a document, with its numbers as they are written.
///
/// `matrix` holds the six numbers of the `matrix(..)` transform in the
/// order in which they are written.
#[derive(Debug)]
pub enum Element {
    Rect {
        cut_index: i32,
        matrix: XForm,
        x: String,
        y: String,
        width: String,
        height: String,
        /// The corner radius, for a rectangle with rounded corners.
        corner: Option<String>,
    },
    Circle { cut_index: i32, matrix: XForm, r: String },
    Ellipse { cut_index: i32, matrix: XForm, rx: String, ry: String },
    /// A path; the cut index is that of `path`, whose own transform is not
    /// looked at.
    Path { matrix: XForm, path: Path },
    /// An image; `data` is the Base64 text of a PNG file.
    Image { matrix: XForm, x: String, y: String, width: String, height: String, data: String },
    Group { matrix: XForm, children: Vec<Element> },
}

/// The mathematical value of an [`Element`].
pub enum ElementView {
    Rect {
        cut_index: i32,
        matrix: XFormView,
        x: Seq<char>,
        y: Seq<char>,
        width: Seq<char>,
        height: Seq<char>,
        corner: Option<Seq<char>>,
    },
    Circle { cut_index: i32, matrix: XFormView, r: Seq<char> },
    Ellipse { cut_index: i32, matrix: XFormView, rx: Seq<char>, ry: Seq<char> },
    Path { matrix: XFormView, path: PathView },
    Image {
        matrix: XFormView,
        x: Seq<char>,
        y: Seq<char>,
        width: Seq<char>,
        height: Seq<char>,
        data: Seq<char>,
    },
    Group { matrix: XFormView, children: Seq<ElementView> },
}

/// The mathematical value of an element.
pub open spec fn element_view(element: Element) -> ElementView
    decreases element,
{
    match element {
        Element::Rect { cut_index, matrix, x, y, width, height, corner } => ElementView::Rect {
            cut_index,
            matrix: matrix.deep_view(),
            x: x@,
            y: y@,
            width: width@,
            height: height@,
            corner: corner.deep_view(),
        },
        Element::Circle { cut_index, matrix, r } => ElementView::Circle {
            cut_index,
            matrix: matrix.deep_view(),
            r: r@,
        },
        Element::Ellipse { cut_index, matrix, rx, ry } => ElementView::Ellipse {
            cut_index,
            matrix: matrix.deep_view(),
            rx: rx@,
            ry: ry@,
        },
        Element::Path { matrix, path } => ElementView::Path {
            matrix: matrix.deep_view(),
            path: path.deep_view(),
        },
        Element::Image { matrix, x, y, width, height, data } => ElementView::Image {
            matrix: matrix.deep_view(),
            x: x@,
            y: y@,
            width: width@,
            height: height@,
            data: data@,
        },
        Element::Group { matrix, children } => ElementView::Group {
            matrix: matrix.deep_view(),
            children: Seq::new(
                children@.len(),
                |i: int|
                    if 0 <= i < children@.len() {
                        element_view(children@[i])
                    } else {
                        arbitrary()
                    },
            ),
        },
    }
}

impl DeepView for Element {
    type V = ElementView;

    open spec fn deep_view(&self) -> ElementView {
        element_view(*self)
    }
}

/// The values of a list of elements.
pub open spec fn element_views(elements: Seq<Element>) -> Seq<ElementView> {
    elements.map_values(|e: Element| e.deep_view())
}

/// The `transform` attribute value of a matrix.
pub open spec fn matrix_text(m: XFormView) -> Seq<char> {
    "matrix("@ + m.a + " "@ + m.b + " "@ + m.c + " "@ + m.d + " "@ + m.e + " "@ + m.f + ")"@
}

/// The attributes that end an element with a style.
pub open spec fn styled_end(style: Seq<char>, m: XFormView) -> Seq<char> {
    " style=\""@ + style + "\" transform=\""@ + matrix_text(m) + "\"/>"@
}

/// The attributes of rounded corners, if there are any.
pub open spec fn corner_text(corner: Option<Seq<char>>) -> Seq<char> {
    match corner {
        Some(c) => " rx=\""@ + c + "\" ry=\""@ + c + "\""@,
        None => Seq::empty(),
    }
}

/// A `rect` element.
pub open spec fn rect_text(
    x: Seq<char>,
    y: Seq<char>,
    width: Seq<char>,
    height: Seq<char>,
    corner: Option<Seq<char>>,
    style: Seq<char>,
    m: XFormView,
) -> Seq<char> {
    "<rect x=\""@ + x + "\" y=\""@ + y + "\" width=\""@ + width + "\" height=\""@ + height + "\""@
        + corner_text(corner) + styled_end(style, m)
}

/// A `circle` element.
pub open spec fn circle_text(r: Seq<char>, style: Seq<char>, m: XFormView) -> Seq<char> {
    "<circle cx=\"0\" cy=\"0\" r=\""@ + r + "\""@ + styled_end(style, m)
}

/// An `ellipse` element.
pub open spec fn ellipse_text(rx: Seq<char>, ry: Seq<char>, style: Seq<char>, m: XFormView) -> Seq<
    char,
> {
    "<ellipse cx=\"0\" cy=\"0\" rx=\""@ + rx + "\" ry=\""@ + ry + "\""@ + styled_end(style, m)
}

/// A `path` element.
pub open spec fn path_text(d: Seq<char>, style: Seq<char>, m: XFormView) -> Seq<char> {
    "<path d=\""@ + d + "\""@ + styled_end(style, m)
}

/// An `image` element. It carries no style.
pub open spec fn image_text(
    x: Seq<char>,
    y: Seq<char>,
    width: Seq<char>,
    height: Seq<char>,
    data: Seq<char>,
    m: XFormView,
) -> Seq<char> {
    "<image x=\""@ + x + "\" y=\""@ + y + "\" width=\""@ + width + "\" height=\""@ + height
        + "\" xlink:href=\"data:image/png;base64,"@ + data + "\" transform=\""@ + matrix_text(m)
        + "\"/>"@
}

/// A `g` element around what its children are written as.
pub open spec fn group_text(m: XFormView, content: Seq<char>) -> Seq<char> {
    "<g transform=\""@ + matrix_text(m) + "\">\n    "@ + content + "\n</g>"@
}

/// Element texts strung together: the texts written so far, and whether
/// there is one among them.
pub struct Joined {
    pub text: Seq<char>,
    pub any: bool,
}

/// Nothing strung together yet.
pub open spec fn nothing_joined() -> Joined {
    Joined { text: Seq::empty(), any: false }
}

/// The texts with one more. An empty text is left out; the others stand on
/// lines of their own, four spaces in.
pub open spec fn join(joined: Joined, text: Seq<char>) -> Joined {
    if text.len() == 0 {
        joined
    } else if joined.any {
        Joined { text: joined.text + "\n    "@ + text, any: true }
    } else {
        Joined { text, any: true }
    }
}

/// The text of a path element and the log behind it. A path without
/// vertices, or one whose path data comes out empty, is not written.
pub open spec fn rendered_path(
    path: PathView,
    m: XFormView,
    settings: Option<Seq<CutSettingView>>,
    log: Seq<Seq<char>>,
) -> (Seq<char>, Seq<Seq<char>>) {
    if path.parsed_verts.len() == 0 {
        (Seq::empty(), log.push("Path shape with no vertices"@))
    } else {
        let (d, log) = path_data(path.prim_list, path.parsed_verts, path.parsed_primitives, log);
        if d.len() == 0 {
            (Seq::empty(), log.push("Path shape with no valid primitives"@))
        } else {
            (path_text(d, style_of(path.cut_index, settings), m), log)
        }
    }
}

/// The text of an element and the log behind it. An element that cannot be
/// written gives an empty text and a warning.
pub open spec fn rendered(
    element: ElementView,
    settings: Option<Seq<CutSettingView>>,
    log: Seq<Seq<char>>,
) -> (Seq<char>, Seq<Seq<char>>)
    decreases element, 0int,
{
    match element {
        ElementView::Rect { cut_index, matrix, x, y, width, height, corner } => (
            rect_text(x, y, width, height, corner, style_of(cut_index, settings), matrix),
            log,
        ),
        ElementView::Circle { cut_index, matrix, r } => (
            circle_text(r, style_of(cut_index, settings), matrix),
            log,
        ),
        ElementView::Ellipse { cut_index, matrix, rx, ry } => (
            ellipse_text(rx, ry, style_of(cut_index, settings), matrix),
            log,
        ),
        ElementView::Path { matrix, path } => rendered_path(path, matrix, settings, log),
        ElementView::Image { matrix, x, y, width, height, data } => if data.len() == 0 {
            (Seq::empty(), log.push("Bitmap shape missing Data"@))
        } else {
            (image_text(x, y, width, height, data, matrix), log)
        },
        ElementView::Group { matrix, children } => if children.len() == 0 {
            (Seq::empty(), log.push("Group shape with no children"@))
        } else {
            let (content, log) = rendered_from(children, 0, settings, log, nothing_joined());
            (group_text(matrix, content.text), log)
        },
    }
}

/// The texts of the elements from position `i` on, strung to `joined`, and
/// the log behind them.
pub open spec fn rendered_from(
    elements: Seq<ElementView>,
    i: int,
    settings: Option<Seq<CutSettingView>>,
    log: Seq<Seq<char>>,
    joined: Joined,
) -> (Joined, Seq<Seq<char>>)
    decreases elements, elements.len() - i,
{
    if i < 0 || i >= elements.len() {
        (joined, log)
    } else {
        let (text, log) = rendered(elements[i], settings, log);
        rendered_from(elements, i + 1, settings, log, join(joined, text))
    }
}

/// Writing an element only adds to the log.
pub proof fn rendering_extends_log(
    element: ElementView,
    settings: Option<Seq<CutSettingView>>,
    log: Seq<Seq<char>>,
)
    ensures
        extends(rendered(element, settings, log).1, log),
    decreases element, 0int,
{
    extends_itself(log);
    match element {
        ElementView::Path { matrix, path } => {
            extends_by_one(log, "Path shape with no vertices"@);
            let after = path_data(path.prim_list, path.parsed_verts, path.parsed_primitives, log).1;
            path_data_extends_log(path.prim_list, path.parsed_verts, path.parsed_primitives, log);
            extends_by_one(after, "Path shape with no valid primitives"@);
            extends_on(after.push("Path shape with no valid primitives"@), after, log);
        },
        ElementView::Image { .. } => {
            extends_by_one(log, "Bitmap shape missing Data"@);
        },
        ElementView::Group { matrix, children } => {
            extends_by_one(log, "Group shape with no children"@);
            if children.len() > 0 {
                rendering_all_extends_log(children, 0, settings, log, nothing_joined());
            }
        },
        _ => {},
    }
}

/// Writing elements one after the other only adds to the log.
pub proof fn rendering_all_extends_log(
    elements: Seq<ElementView>,
    i: int,
    settings: Option<Seq<CutSettingView>>,
    log: Seq<Seq<char>>,
    joined: Joined,
)
    ensures
        extends(rendered_from(elements, i, settings, log, joined).1, log),
    decreases elements, elements.len() - i,
{
    if 0 <= i < elements.len() {
        rendering_extends_log(elements[i], settings, log);
        let (text, next) = rendered(elements[i], settings, log);
        rendering_all_extends_log(elements, i + 1, settings, next, join(joined, text));
        extends_on(rendered_from(elements, i, settings, log, joined).1, next, log);
    } else {
        extends_itself(log);
    }
}

/// The window of a document: its corner and its size, in millimetres.
#[derive(Debug)]
pub struct ViewBox {
    pub min_x: String,
    pub min_y: String,
    pub width: String,
    pub height: String,
}

/// The mathematical value of a [`ViewBox`].
pub struct ViewBoxView {
    pub min_x: Seq<char>,
    pub min_y: Seq<char>,
    pub width: Seq<char>,
    pub height: Seq<char>,
}

impl DeepView for ViewBox {
    type V = ViewBoxView;

    open spec fn deep_view(&self) -> ViewBoxView {
        ViewBoxView {
            min_x: self.min_x@,
            min_y: self.min_y@,
            width: self.width@,
            height: self.height@,
        }
    }
}

/// The document of a project without shapes.
pub open spec fn empty_document() -> Seq<char> {
    "<svg xmlns=\"http://www.w3.org/2000/svg\" width=\"100mm\" height=\"100mm\" viewBox=\"0 0 100 100\"><text>No shapes found</text></svg>"@
}

/// The document around the texts of its elements.
pub open spec fn document_text(view_box: ViewBoxView, content: Seq<char>) -> Seq<char> {
    "<?xml version=\"1.0\" encoding=\"UTF-8\" standalone=\"no\"?>\n<svg xmlns=\"http://www.w3.org/2000/svg\" xmlns:xlink=\"http://www.w3.org/1999/xlink\" width=\""@
        + view_box.width + "mm\" height=\""@ + view_box.height + "mm\" viewBox=\""@
        + view_box.min_x + " "@ + view_box.min_y + " "@ + view_box.width + " "@ + view_box.height
        + "\">\n    "@ + content + "\n</svg>"@
}

/// The table that a list of cut settings stands for: none where the list is
/// empty.
pub open spec fn table_of(settings: Seq<CutSettingView>) -> Option<Seq<CutSettingView>> {
    if settings.len() == 0 {
        None
    } else {
        Some(settings)
    }
}

/// The document of the elements, and the warnings met on the way.
///
/// Without elements it is the document of a project without shapes. Else it holds, inside the window
/// `view_box`, the elements that can be written, one to a line.
pub open spec fn document(
    elements: Seq<ElementView>,
    settings: Seq<CutSettingView>,
    view_box: ViewBoxView,
) -> (Seq<char>, Seq<Seq<char>>) {
    if elements.len() == 0 {
        (empty_document(), Seq::empty())
    } else {
        let (content, log) = rendered_from(
            elements,
            0,
            table_of(settings),
            Seq::empty(),
            nothing_joined(),
        );
        (document_text(view_box, content.text), log)
    }
}

/// Writes the `transform` attribute value of a matrix.
fn matrix_attribute(m: &XForm) -> (s: String)
    ensures
        s@ == matrix_text(m.deep_view()),
{
    let mut s = String::from_str("matrix(");
    s.append(m.a.as_str());
    s.append(" ");
    s.append(m.b.as_str());
    s.append(" ");
    s.append(m.c.as_str());
    s.append(" ");
    s.append(m.d.as_str());
    s.append(" ");
    s.append(m.e.as_str());
    s.append(" ");
    s.append(m.f.as_str());
    s.append(")");
    s
}

/// Writes the attributes that end an element with a style.
fn styled_attributes(style: &String, m: &XForm) -> (s: String)
    ensures
        s@ == styled_end(style@, m.deep_view()),
{
    let mut s = String::from_str(" style=\"");
    s.append(style.as_str());
    s.append("\" transform=\"");
    s.append(matrix_attribute(m).as_str());
    s.append("\"/>");
    s
}

/// Writes the attributes of rounded corners, if there are any.
fn corner_attributes(corner: &Option<String>) -> (s: String)
    ensures
        s@ == corner_text(corner.deep_view()),
{
    match corner {
        Some(c) => {
            let mut s = String::from_str(" rx=\"");
            s.append(c.as_str());
            s.append("\" ry=\"");
            s.append(c.as_str());
            s.append("\"");
            s
        },
        None => String::new(),
    }
}

/// Writes a path element.
fn render_path(
    path: &Path,
    m: &XForm,
    cut_settings: Option<&[CutSetting]>,
    log: &mut Vec<String>,
) -> (s: String)
    ensures
        (s@, log_view(final(log)@)) == rendered_path(
            path.deep_view(),
            m.deep_view(),
            crate::style::table_view(cut_settings),
            log_view(old(log)@),
        ),
{
    if path.parsed_verts.len() == 0 {
        push_warning(log, "Path shape with no vertices");
        return String::new();
    }
    let d = generate_path_data(path, log);
    if d.as_str().is_empty() {
        push_warning(log, "Path shape with no valid primitives");
        return String::new();
    }
    let style = get_cut_setting_style(path.cut_index, cut_settings);
    let mut s = String::from_str("<path d=\"");
    s.append(d.as_str());
    s.append("\"");
    s.append(styled_attributes(&style, m).as_str());
    s
}

/// Writes an element; what cannot be written gives an empty text and a
/// warning in the log.
pub fn render(element: &Element, cut_settings: Option<&[CutSetting]>, log: &mut Vec<String>) -> (s:
    String)
    ensures
        (s@, log_view(final(log)@)) == rendered(
            element.deep_view(),
            crate::style::table_view(cut_settings),
            log_view(old(log)@),
        ),
        extends(log_view(final(log)@), log_view(old(log)@)),
    decreases element,
{
    proof {
        rendering_extends_log(
            element.deep_view(),
            crate::style::table_view(cut_settings),
            log_view(log@),
        );
    }
    match element {
        Element::Rect { cut_index, matrix, x, y, width, height, corner } => {
            let style = get_cut_setting_style(*cut_index, cut_settings);
            let mut s = String::from_str("<rect x=\"");
            s.append(x.as_str());
            s.append("\" y=\"");
            s.append(y.as_str());
            s.append("\" width=\"");
            s.append(width.as_str());
            s.append("\" height=\"");
            s.append(height.as_str());
            s.append("\"");
            s.append(corner_attributes(corner).as_str());
            s.append(styled_attributes(&style, matrix).as_str());
            s
        },
        Element::Circle { cut_index, matrix, r } => {
            let style = get_cut_setting_style(*cut_index, cut_settings);
            let mut s = String::from_str("<circle cx=\"0\" cy=\"0\" r=\"");
            s.append(r.as_str());
            s.append("\"");
            s.append(styled_attributes(&style, matrix).as_str());
            s
        },
        Element::Ellipse { cut_index, matrix, rx, ry } => {
            let style = get_cut_setting_style(*cut_index, cut_settings);
            let mut s = String::from_str("<ellipse cx=\"0\" cy=\"0\" rx=\"");
            s.append(rx.as_str());
            s.append("\" ry=\"");
            s.append(ry.as_str());
            s.append("\"");
            s.append(styled_attributes(&style, matrix).as_str());
            s
        },
        Element::Path { matrix, path } => render_path(path, matrix, cut_settings, log),
        Element::Image { matrix, x, y, width, height, data } => {
            if data.as_str().is_empty() {
                push_warning(log, "Bitmap shape missing Data");
                return String::new();
            }
            let mut s = String::from_str("<image x=\"");
            s.append(x.as_str());
            s.append("\" y=\"");
            s.append(y.as_str());
            s.append("\" width=\"");
            s.append(width.as_str());
            s.append("\" height=\"");
            s.append(height.as_str());
            s.append("\" xlink:href=\"data:image/png;base64,");
            s.append(data.as_str());
            s.append("\" transform=\"");
            s.append(matrix_attribute(matrix).as_str());
            s.append("\"/>");
            s
        },
        Element::Group { matrix, children } => {
            if children.len() == 0 {
                push_warning(log, "Group shape with no children");
                return String::new();
            }
            let ghost views = element.deep_view()->Group_children;
            let ghost settings = crate::style::table_view(cut_settings);
            let ghost goal = rendered_from(views, 0, settings, log_view(log@), nothing_joined());
            let mut content = String::new();
            let mut any = false;
            let mut i: usize = 0;
            while i < children.len()
                invariant
                    i <= children.len(),
                    *element == (Element::Group { matrix: *matrix, children: *children }),
                    views == element.deep_view()->Group_children,
                    views.len() == children.len(),
                    settings == crate::style::table_view(cut_settings),
                    goal == rendered_from(
                        views,
                        i as int,
                        settings,
                        log_view(log@),
                        Joined { text: content@, any },
                    ),
                decreases children.len() - i,
            {
                proof {
                    let whole = *element;
                    assert(decreases_to!(whole => whole->Group_children));
                    assert(decreases_to!(children => children@));
                    assert(decreases_to!(children@ => children@[i as int]));
                    assert(views[i as int] == children[i as int].deep_view());
                }
                let text = render(&children[i], cut_settings, log);
                if !text.as_str().is_empty() {
                    if any {
                        content.append("\n    ");
                        content.append(text.as_str());
                    } else {
                        content = text;
                        any = true;
                    }
                }
                i += 1;
            }
            let mut s = String::from_str("<g transform=\"");
            s.append(matrix_attribute(matrix).as_str());
            s.append("\">\n    ");
            s.append(content.as_str());
            s.append("\n</g>");
            s
        },
    }
}

/// Convert the elements of a project to an SVG string.
///
/// `cut_settings` is the cut setting list of the project, `view_box` the
/// window that holds what is drawn. The warnings met on the way are
/// dropped; [`lbrn2_to_svg_with_log`] hands them out.
pub fn lbrn2_to_svg(elements: &[Element], cut_settings: &[CutSetting], view_box: &ViewBox) -> (svg:
    String)
    ensures
        svg@ == document(
            element_views(elements@),
            settings_view(cut_settings@),
            view_box.deep_view(),
        ).0,
        elements.len() == 0 ==> svg@ == empty_document(),
{
    let mut log: Vec<String> = Vec::new();
    assert(log_view(log@) =~= Seq::<Seq<char>>::empty());
    lbrn2_to_svg_with_log(elements, cut_settings, view_box, &mut log)
}

/// Convert the elements of a project to an SVG string, and append the
/// warnings met on the way to `log`.
pub fn lbrn2_to_svg_with_log(
    elements: &[Element],
    cut_settings: &[CutSetting],
    view_box: &ViewBox,
    log: &mut Vec<String>,
) -> (svg: String)
    ensures
        elements.len() == 0 ==> svg@ == empty_document() && log_view(final(log)@) == log_view(
            old(log)@,
        ),
        elements.len() > 0 ==> (svg@, log_view(final(log)@)) == ({
            let (content, log) = rendered_from(
                element_views(elements@),
                0,
                table_of(settings_view(cut_settings@)),
                log_view(old(log)@),
                nothing_joined(),
            );
            (document_text(view_box.deep_view(), content.text), log)
        }),
        extends(log_view(final(log)@), log_view(old(log)@)),
{
    proof {
        extends_itself(log_view(log@));
        rendering_all_extends_log(
            element_views(elements@),
            0,
            table_of(settings_view(cut_settings@)),
            log_view(log@),
            nothing_joined(),
        );
    }
    if elements.len() == 0 {
        return String::from_str(
            "<svg xmlns=\"http://www.w3.org/2000/svg\" width=\"100mm\" height=\"100mm\" viewBox=\"0 0 100 100\"><text>No shapes found</text></svg>",
        );
    }
    let table: Option<&[CutSetting]> = if cut_settings.len() == 0 {
        None
    } else {
        Some(cut_settings)
    };
    let ghost views = element_views(elements@);
    let ghost settings = table_of(settings_view(cut_settings@));
    let ghost goal = rendered_from(views, 0, settings, log_view(log@), nothing_joined());
    let mut content = String::new();
    let mut any = false;
    let mut i: usize = 0;
    while i < elements.len()
        invariant
            i <= elements.len(),
            views == element_views(elements@),
            settings == crate::style::table_view(table),
            goal == rendered_from(
                views,
                i as int,
                settings,
                log_view(log@),
                Joined { text: content@, any },
            ),
        decreases elements.len() - i,
    {
        let text = render(&elements[i], table, log);
        if !text.as_str().is_empty() {
            if any {
                content.append("\n    ");
                content.append(text.as_str());
            } else {
                content = text;
                any = true;
            }
        }
        i += 1;
    }
    let mut svg = String::from_str(
        "<?xml version=\"1.0\" encoding=\"UTF-8\" standalone=\"no\"?>\n<svg xmlns=\"http://www.w3.org/2000/svg\" xmlns:xlink=\"http://www.w3.org/1999/xlink\" width=\"",
    );
    svg.append(view_box.width.as_str());
    svg.append("mm\" height=\"");
    svg.append(view_box.height.as_str());
    svg.append("mm\" viewBox=\"");
    svg.append(view_box.min_x.as_str());
    svg.append(" ");
    svg.append(view_box.min_y.as_str());
    svg.append(" ");
    svg.append(view_box.width.as_str());
    svg.append(" ");
    svg.append(view_box.height.as_str());
    svg.append("\">\n    ");
    svg.append(content.as_str());
    svg.append("\n</svg>");
    svg
}

} // verus!
