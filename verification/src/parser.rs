//! Decoders for the compact text forms of a project file: transforms,
//! vertex lists and primitive lists.

use crate::log::{append_log, log_view, push_log};
use crate::number::{
    check_numeral, digit_is_numeral, is_numeral, magnitude, numeral_has_no_space, parse_magnitude,
};
use crate::text::{
    chars_of, copy_range, has_word_at, is_digit, is_letter, is_space, lemma_run_end, lemma_run_to,
    run_end, scan_run, starts_with_at, string_of, trim, trimmed, CharClass,
};
use crate::types::{
    all_numeric, identity_xform, is_numeral_or_none, PathPrimitive, Vec2, Vec2View, XForm,
    XFormView,
};
use vstd::prelude::*;

verus! {

/// The words of `s` that white space separates, from position `at` on, in
/// order.
pub open spec fn words_from(s: Seq<char>, at: int) -> Seq<Seq<char>>
    decreases s.len() - at,
{
    let start = run_end(s, at, CharClass::Space);
    if at < 0 || start >= s.len() {
        Seq::empty()
    } else {
        let end = run_end(s, start, CharClass::NonSpace);
        proof {
            lemma_run_end(s, at, CharClass::Space);
            lemma_run_end(s, start + 1, CharClass::NonSpace);
        }
        seq![s.subrange(start, end)] + words_from(s, end)
    }
}

/// Whether every one of the words is a numeral.
pub open spec fn all_numerals(words: Seq<Seq<char>>) -> bool {
    forall|i: int| 0 <= i < words.len() ==> is_numeral(#[trigger] words[i])
}

/// Whether the text writes a transform: it is made of exactly six words and
/// each is a numeral.
pub open spec fn is_transform(s: Seq<char>) -> bool {
    let w = words_from(s, 0);
    w.len() == 6 && all_numerals(w)
}

/// The transform that the text `s` writes: its six coefficients where it
/// writes a transform, the identity otherwise.
pub open spec fn xform_of(s: Seq<char>) -> XFormView {
    let w = words_from(s, 0);
    if is_transform(s) {
        XFormView { a: w[0], b: w[1], c: w[2], d: w[3], e: w[4], f: w[5] }
    } else {
        identity_xform()
    }
}

/// Whatever the text, each coefficient of the transform that is read from
/// it is a numeral.
pub proof fn xform_is_numeric(s: Seq<char>)
    ensures
        xform_of(s).is_numeric(),
{
    if is_transform(s) {
        let w = words_from(s, 0);
        assert(is_numeral(w[0]) && is_numeral(w[1]) && is_numeral(w[2]) && is_numeral(w[3])
            && is_numeral(w[4]) && is_numeral(w[5]));
    } else {
        digit_is_numeral('0');
        digit_is_numeral('1');
    }
}

/// The warning for a text that writes no transform.
pub open spec fn bad_transform(s: Seq<char>) -> Seq<char> {
    "Invalid XForm string, using identity: "@ + s
}

/// The transform that a text writes, if it writes one.
fn read_xform(xform_str: &str) -> (t: Option<XForm>)
    ensures
        match t {
            Some(x) => is_transform(xform_str@) && x.deep_view() == xform_of(xform_str@),
            None => !is_transform(xform_str@),
        },
{
    let s = chars_of(xform_str);
    let mut parts: Vec<String> = Vec::new();
    let mut numerals = true;
    let mut i: usize = 0;
    loop
        invariant
            i <= s.len(),
            s@ == xform_str@,
            words_from(s@, 0) == parts.deep_view() + words_from(s@, i as int),
            numerals == all_numerals(parts.deep_view()),
        ensures
            words_from(s@, 0) == parts.deep_view(),
            numerals == all_numerals(parts.deep_view()),
        decreases s.len() - i,
    {
        let start = scan_run(s.as_slice(), i, CharClass::Space);
        if start >= s.len() {
            assert(parts.deep_view() + Seq::<Seq<char>>::empty() =~= parts.deep_view());
            break ;
        }
        let end = scan_run(s.as_slice(), start, CharClass::NonSpace);
        proof {
            lemma_run_end(s@, i as int, CharClass::Space);
            lemma_run_end(s@, start + 1, CharClass::NonSpace);
        }
        let word = copy_range(s.as_slice(), start, end);
        let ghost before = parts.deep_view();
        let good = check_numeral(word.as_slice());
        parts.push(string_of(word.as_slice()));
        proof {
            assert(parts.deep_view() =~= before.push(word@));
            assert(before + (seq![word@] + words_from(s@, end as int)) =~= before.push(word@)
                + words_from(s@, end as int));
            if numerals && good {
                assert forall|k: int| 0 <= k < parts.deep_view().len() implies is_numeral(
                    #[trigger] parts.deep_view()[k],
                ) by {
                    if k < before.len() {
                        assert(parts.deep_view()[k] == before[k]);
                    }
                }
            } else if !good {
                assert(!is_numeral(parts.deep_view()[before.len() as int]));
            } else {
                let k = choose|k: int| 0 <= k < before.len() && !is_numeral(#[trigger] before[k]);
                assert(!is_numeral(parts.deep_view()[k]));
            }
        }
        numerals = numerals && good;
        i = end;
    }
    if parts.len() == 6 && numerals {
        let f = parts.pop().unwrap();
        let e = parts.pop().unwrap();
        let d = parts.pop().unwrap();
        let c = parts.pop().unwrap();
        let b = parts.pop().unwrap();
        let a = parts.pop().unwrap();
        Some(XForm { a, b, c, d, e, f })
    } else {
        None
    }
}

/// Parse XForm string "a b c d e f" into XForm struct.
///
/// Anything but six numerals with white space between them gives the
/// identity.
pub fn parse_xform(xform_str: &str) -> (t: XForm)
    ensures
        t.deep_view() == xform_of(xform_str@),
{
    match read_xform(xform_str) {
        Some(t) => t,
        None => XForm::identity(),
    }
}

/// Parse XForm string "a b c d e f" into XForm struct, with a warning in
/// the log where the text writes no transform.
pub fn parse_xform_with_log(xform_str: &str, log: &mut Vec<String>) -> (t: XForm)
    ensures
        t.deep_view() == xform_of(xform_str@),
        log_view(final(log)@) == if is_transform(xform_str@) {
            log_view(old(log)@)
        } else {
            log_view(old(log)@).push(bad_transform(xform_str@))
        },
{
    match read_xform(xform_str) {
        Some(t) => t,
        None => {
            let mut warning = String::from_str("Invalid XForm string, using identity: ");
            warning.append(xform_str);
            push_log(log, warning);
            XForm::identity()
        },
    }
}

/// The text of a transform: its six coefficients with a space between one
/// and the next.
pub open spec fn xform_text(t: XFormView) -> Seq<char> {
    t.a + " "@ + t.b + " "@ + t.c + " "@ + t.d + " "@ + t.e + " "@ + t.f
}

/// Writes a transform as the text "a b c d e f".
pub fn format_xform(t: &XForm) -> (s: String)
    ensures
        s@ == xform_text(t.deep_view()),
{
    let mut s = t.a.clone();
    s.append(" ");
    s.append(t.b.as_str());
    s.append(" ");
    s.append(t.c.as_str());
    s.append(" ");
    s.append(t.d.as_str());
    s.append(" ");
    s.append(t.e.as_str());
    s.append(" ");
    s.append(t.f.as_str());
    s
}

/// Behind white space up to `from`, a word from `from` to `to` is read as
/// one word, and the reading goes on behind it.
proof fn lemma_word_at(s: Seq<char>, at: int, from: int, to: int)
    requires
        0 <= at <= from < to <= s.len(),
        forall|j: int| at <= j < from ==> is_space(#[trigger] s[j]),
        forall|j: int| from <= j < to ==> !is_space(#[trigger] s[j]),
        to == s.len() || is_space(s[to]),
    ensures
        words_from(s, at) == seq![s.subrange(from, to)] + words_from(s, to),
{
    assert forall|j: int| at <= j < from implies CharClass::Space.holds(#[trigger] s[j]) by {}
    assert forall|j: int| from <= j < to implies CharClass::NonSpace.holds(#[trigger] s[j]) by {}
    lemma_run_to(s, at, from, CharClass::Space);
    lemma_run_to(s, from, to, CharClass::NonSpace);
}

/// Where the word `w` stands in `s` from position `from` on, no character
/// of that stretch is white space if none of `w` is.
proof fn lemma_piece(s: Seq<char>, from: int, w: Seq<char>)
    requires
        0 <= from,
        from + w.len() <= s.len(),
        s.subrange(from, from + w.len()) == w,
        forall|i: int| 0 <= i < w.len() ==> !is_space(#[trigger] w[i]),
    ensures
        forall|j: int| from <= j < from + w.len() ==> !is_space(#[trigger] s[j]),
{
    assert forall|j: int| from <= j < from + w.len() implies !is_space(#[trigger] s[j]) by {
        assert(s[j] == s.subrange(from, from + w.len())[j - from]);
    }
}

/// Whether the text `s` begins with the text `q`.
spec fn begins(s: Seq<char>, q: Seq<char>) -> bool {
    q.len() <= s.len() && s.subrange(0, q.len() as int) == q
}

/// Whether the beginning `q` of `s` ends where a word ends: at the end of
/// `s` or before white space.
spec fn ends_word(s: Seq<char>, q: Seq<char>) -> bool {
    q.len() == s.len() || (q.len() < s.len() && is_space(s[q.len() as int]))
}

/// Whether `w` is a numeral.
#[verifier::opaque]
spec fn numeral(w: Seq<char>) -> bool {
    is_numeral(w)
}

/// A text with a space and a word behind it holds the text, the space and
/// the word, in that order.
proof fn lemma_layout(p: Seq<char>, w: Seq<char>)
    ensures
        (p + " "@ + w).len() == p.len() + 1 + w.len(),
        (p + " "@ + w).subrange(0, p.len() as int) == p,
        is_space((p + " "@ + w)[p.len() as int]),
        (p + " "@ + w).subrange(p.len() as int + 1, p.len() as int + 1 + w.len() as int) == w,
{
    reveal_strlit(" ");
    let s = p + " "@ + w;
    let n = p.len() as int;
    assert(" "@.len() == 1 && " "@[0] == ' ');
    assert(s.subrange(0, n) =~= p);
    assert(s.subrange(n + 1, n + 1 + w.len() as int) =~= w);
}

/// A part of a text is the same part of what the text is the beginning of.
proof fn lemma_part(p: Seq<char>, s: Seq<char>, from: int, to: int)
    requires
        0 <= from <= to <= p.len(),
        begins(s, p),
    ensures
        s.subrange(from, to) == p.subrange(from, to),
        to < p.len() ==> s[to] == p[to],
{
    assert(s.subrange(from, to) =~= s.subrange(0, p.len() as int).subrange(from, to));
    if to < p.len() {
        assert(s[to] == s.subrange(0, p.len() as int)[to]);
    }
}

/// A text that begins with a text, a space and a word begins with the
/// text, which ends where a word ends.
proof fn lemma_begins(s: Seq<char>, p: Seq<char>, w: Seq<char>)
    requires
        begins(s, p + " "@ + w),
    ensures
        begins(s, p),
        ends_word(s, p),
{
    lemma_layout(p, w);
    lemma_part(p + " "@ + w, s, 0, p.len() as int);
}

/// A text that begins with a numeral, which ends where a word ends, is
/// read as that numeral and what is read behind it.
proof fn lemma_first_word(s: Seq<char>, w: Seq<char>)
    requires
        numeral(w),
        begins(s, w),
        ends_word(s, w),
    ensures
        words_from(s, 0) == seq![w] + words_from(s, w.len() as int),
{
    reveal(numeral);
    numeral_has_no_space(w);
    lemma_piece(s, 0, w);
    lemma_word_at(s, 0, 0, w.len() as int);
}

/// What has been read of a text up to the end of its beginning `p`, and
/// the numeral `w` behind a space behind `p`: together they are what has
/// been read up to the end of `w`.
proof fn lemma_read_on(s: Seq<char>, p: Seq<char>, w: Seq<char>, words: Seq<Seq<char>>)
    requires
        numeral(w),
        begins(s, p + " "@ + w),
        ends_word(s, p + " "@ + w),
        words_from(s, 0) == words + words_from(s, p.len() as int),
    ensures
        words_from(s, 0) == words.push(w) + words_from(s, (p + " "@ + w).len() as int),
{
    reveal(numeral);
    let q = p + " "@ + w;
    let n = p.len() as int;
    let from = n + 1;
    let to = from + w.len() as int;
    lemma_layout(p, w);
    numeral_has_no_space(w);
    lemma_part(q, s, from, to);
    lemma_part(q, s, n, n);
    lemma_piece(s, from, w);
    lemma_word_at(s, n, from, to);
    let rest = words_from(s, to);
    assert(words + (seq![w] + rest) =~= words.push(w) + rest);
}

/// Six numerals with a space between one and the next are read as those
/// six numerals.
proof fn lemma_six_words(
    s: Seq<char>,
    a: Seq<char>,
    b: Seq<char>,
    c: Seq<char>,
    d: Seq<char>,
    e: Seq<char>,
    f: Seq<char>,
)
    requires
        s == a + " "@ + b + " "@ + c + " "@ + d + " "@ + e + " "@ + f,
        numeral(a),
        numeral(b),
        numeral(c),
        numeral(d),
        numeral(e),
        numeral(f),
    ensures
        words_from(s, 0) == seq![a, b, c, d, e, f],
{
    let pb = a + " "@ + b;
    let pc = pb + " "@ + c;
    let pd = pc + " "@ + d;
    let pe = pd + " "@ + e;
    assert(begins(s, pe + " "@ + f) && ends_word(s, pe + " "@ + f)) by {
        assert(s.subrange(0, s.len() as int) =~= s);
    }
    lemma_begins(s, pe, f);
    lemma_begins(s, pd, e);
    lemma_begins(s, pc, d);
    lemma_begins(s, pb, c);
    lemma_begins(s, a, b);
    lemma_first_word(s, a);
    lemma_read_on(s, a, b, seq![a]);
    assert(seq![a].push(b) =~= seq![a, b]);
    lemma_read_on(s, pb, c, seq![a, b]);
    assert(seq![a, b].push(c) =~= seq![a, b, c]);
    lemma_read_on(s, pc, d, seq![a, b, c]);
    assert(seq![a, b, c].push(d) =~= seq![a, b, c, d]);
    lemma_read_on(s, pd, e, seq![a, b, c, d]);
    assert(seq![a, b, c, d].push(e) =~= seq![a, b, c, d, e]);
    lemma_read_on(s, pe, f, seq![a, b, c, d, e]);
    assert(seq![a, b, c, d, e].push(f) =~= seq![a, b, c, d, e, f]);
    assert(words_from(s, s.len() as int) =~= Seq::<Seq<char>>::empty());
    assert(seq![a, b, c, d, e, f] + Seq::<Seq<char>>::empty() =~= seq![a, b, c, d, e, f]);
}

/// A transform that is written as text and read back is the same: reading
/// undoes writing exactly, coefficient by coefficient.
pub proof fn xform_round_trip(t: XFormView)
    requires
        t.is_numeric(),
    ensures
        xform_of(xform_text(t)) == t,
{
    reveal(numeral);
    lemma_six_words(xform_text(t), t.a, t.b, t.c, t.d, t.e, t.f);
    assert(all_numerals(seq![t.a, t.b, t.c, t.d, t.e, t.f]));
}

/// A text that writes a transform, read and written again, holds the same
/// six words: only the white space between and around them may differ.
pub proof fn xform_text_keeps_words(s: Seq<char>)
    requires
        is_transform(s),
    ensures
        words_from(xform_text(xform_of(s)), 0) == words_from(s, 0),
        xform_of(xform_text(xform_of(s))) == xform_of(s),
{
    let w = words_from(s, 0);
    let t = xform_of(s);
    xform_is_numeric(s);
    xform_round_trip(t);
    reveal(numeral);
    lemma_six_words(xform_text(t), t.a, t.b, t.c, t.d, t.e, t.f);
    assert(w =~= seq![w[0], w[1], w[2], w[3], w[4], w[5]]);
}

/// The four coordinates of a vertex's control points, each one optional.
pub struct ControlPoints {
    pub c0x: Option<Seq<char>>,
    pub c0y: Option<Seq<char>>,
    pub c1x: Option<Seq<char>>,
    pub c1y: Option<Seq<char>>,
}

/// No control point at all.
pub open spec fn no_control_points() -> ControlPoints {
    ControlPoints { c0x: None, c0y: None, c1x: None, c1y: None }
}

/// The key that stands at position `at`: 0 for `c0x`, 1 for `c0y`, 2 for
/// `c1x`, 3 for `c1y`.
pub open spec fn key_at(s: Seq<char>, at: int) -> Option<int> {
    if has_word_at(s, at, seq!['c', '0', 'x']) {
        Some(0)
    } else if has_word_at(s, at, seq!['c', '0', 'y']) {
        Some(1)
    } else if has_word_at(s, at, seq!['c', '1', 'x']) {
        Some(2)
    } else if has_word_at(s, at, seq!['c', '1', 'y']) {
        Some(3)
    } else {
        None
    }
}

impl ControlPoints {
    /// Whether each coordinate that is there is a numeral.
    pub open spec fn is_numeric(self) -> bool {
        is_numeral_or_none(self.c0x) && is_numeral_or_none(self.c0y) && is_numeral_or_none(
            self.c1x,
        ) && is_numeral_or_none(self.c1y)
    }

    /// The control points with the coordinate of key `key` set to `value`.
    pub open spec fn set(self, key: int, value: Seq<char>) -> ControlPoints {
        if key == 0 {
            ControlPoints { c0x: Some(value), ..self }
        } else if key == 1 {
            ControlPoints { c0y: Some(value), ..self }
        } else if key == 2 {
            ControlPoints { c1x: Some(value), ..self }
        } else {
            ControlPoints { c1y: Some(value), ..self }
        }
    }
}

/// The control points after the keys of `s` from position `at` on have been
/// read into `acc`. A key is followed by the longest run of numeral
/// characters; where that run is a numeral it becomes the key's value, and
/// a later value of a key replaces an earlier one. Anything that is no key
/// is passed over, one character at a time.
pub open spec fn control_points_from(s: Seq<char>, at: int, acc: ControlPoints) -> ControlPoints
    decreases s.len() - at,
{
    if at < 0 || at >= s.len() {
        acc
    } else {
        match key_at(s, at) {
            Some(key) => {
                let end = run_end(s, at + 3, CharClass::Numeric);
                proof {
                    lemma_run_end(s, at + 3, CharClass::Numeric);
                }
                let value = s.subrange(at + 3, end);
                control_points_from(
                    s,
                    end,
                    if is_numeral(value) {
                        acc.set(key, value)
                    } else {
                        acc
                    },
                )
            },
            None => control_points_from(s, at + 1, acc),
        }
    }
}

/// Reading keys into control points whose coordinates are numerals leaves
/// them so.
pub proof fn control_points_are_numeric(s: Seq<char>, at: int, acc: ControlPoints)
    requires
        acc.is_numeric(),
    ensures
        control_points_from(s, at, acc).is_numeric(),
    decreases s.len() - at,
{
    if 0 <= at < s.len() {
        match key_at(s, at) {
            Some(key) => {
                let end = run_end(s, at + 3, CharClass::Numeric);
                lemma_run_end(s, at + 3, CharClass::Numeric);
                let value = s.subrange(at + 3, end);
                control_points_are_numeric(
                    s,
                    end,
                    if is_numeral(value) {
                        acc.set(key, value)
                    } else {
                        acc
                    },
                );
            },
            None => control_points_are_numeric(s, at + 1, acc),
        }
    }
}

/// The control points that the suffix `s` of a vertex writes. A suffix that
/// does not begin with `c` holds none.
pub open spec fn control_points_of(s: Seq<char>) -> ControlPoints {
    if s.len() > 0 && s[0] == 'c' {
        control_points_from(s, 0, no_control_points())
    } else {
        no_control_points()
    }
}

/// The key that stands at position `at`, if one does.
fn read_key(s: &[char], at: usize) -> (key: Option<u8>)
    requires
        at < s.len(),
    ensures
        match key {
            Some(k) => key_at(s@, at as int) == Some(k as int) && at + 3 <= s.len(),
            None => key_at(s@, at as int) is None,
        },
{
    proof {
        reveal_strlit("c0x");
        reveal_strlit("c0y");
        reveal_strlit("c1x");
        reveal_strlit("c1y");
        assert("c0x"@ =~= seq!['c', '0', 'x']);
        assert("c0y"@ =~= seq!['c', '0', 'y']);
        assert("c1x"@ =~= seq!['c', '1', 'x']);
        assert("c1y"@ =~= seq!['c', '1', 'y']);
    }
    if starts_with_at(s, at, "c0x") {
        Some(0)
    } else if starts_with_at(s, at, "c0y") {
        Some(1)
    } else if starts_with_at(s, at, "c1x") {
        Some(2)
    } else if starts_with_at(s, at, "c1y") {
        Some(3)
    } else {
        None
    }
}

/// Parse control point data from a string like "c0x1c1x49c1y48".
pub fn parse_control_point_data(cp_str: &[char]) -> (r: (
    Option<String>,
    Option<String>,
    Option<String>,
    Option<String>,
))
    ensures
        (ControlPoints {
            c0x: r.0.deep_view(),
            c0y: r.1.deep_view(),
            c1x: r.2.deep_view(),
            c1y: r.3.deep_view(),
        }) == control_points_of(cp_str@),
{
    let mut c0x: Option<String> = None;
    let mut c0y: Option<String> = None;
    let mut c1x: Option<String> = None;
    let mut c1y: Option<String> = None;
    if cp_str.len() == 0 || cp_str[0] != 'c' {
        return (c0x, c0y, c1x, c1y);
    }
    let mut i: usize = 0;
    while i < cp_str.len()
        invariant
            i <= cp_str.len(),
            control_points_of(cp_str@) == control_points_from(
                cp_str@,
                i as int,
                ControlPoints {
                    c0x: c0x.deep_view(),
                    c0y: c0y.deep_view(),
                    c1x: c1x.deep_view(),
                    c1y: c1y.deep_view(),
                },
            ),
        decreases cp_str.len() - i,
    {
        match read_key(cp_str, i) {
            Some(key) => {
                let end = scan_run(cp_str, i + 3, CharClass::Numeric);
                let value = copy_range(cp_str, i + 3, end);
                if check_numeral(value.as_slice()) {
                    let text = string_of(value.as_slice());
                    if key == 0 {
                        c0x = Some(text);
                    } else if key == 1 {
                        c0y = Some(text);
                    } else if key == 2 {
                        c1x = Some(text);
                    } else {
                        c1y = Some(text);
                    }
                }
                i = end;
            },
            None => {
                i += 1;
            },
        }
    }
    (c0x, c0y, c1x, c1y)
}

/// The numeral `s`, or `0` where `s` is no numeral.
pub open spec fn numeral_or_zero(s: Seq<char>) -> Seq<char> {
    if is_numeral(s) {
        s
    } else {
        seq!['0']
    }
}

/// Whatever the text, what is taken for its numeral is one.
pub proof fn numeral_or_zero_is_numeral(s: Seq<char>)
    ensures
        is_numeral(numeral_or_zero(s)),
{
    digit_is_numeral('0');
}

/// Copies a numeral; text that is no numeral gives `0`.
pub fn to_numeral(s: &[char]) -> (n: String)
    ensures
        n@ == numeral_or_zero(s@),
{
    if check_numeral(s) {
        string_of(s)
    } else {
        proof {
            reveal_strlit("0");
            assert("0"@ =~= seq!['0']);
        }
        String::from_str("0")
    }
}

/// The vertices that `s` writes from position `at` on.
///
/// A vertex begins with `V`. After it come, each behind optional white
/// space, the longest runs of numeral characters for x and for y, and then,
/// up to the next `V`, the suffix that holds the control points. A vertex
/// whose run for x or for y is no numeral, as an empty one is none, is left
/// out. Characters before a `V` are passed over.
pub open spec fn verts_from(s: Seq<char>, at: int) -> Seq<Vec2View>
    decreases s.len() - at,
{
    let v = run_end(s, at, CharClass::Space);
    if at < 0 || v >= s.len() {
        Seq::empty()
    } else if s[v] != 'V' {
        proof {
            lemma_run_end(s, at, CharClass::Space);
        }
        verts_from(s, v + 1)
    } else {
        let x0 = run_end(s, v + 1, CharClass::Space);
        let x1 = run_end(s, x0, CharClass::Numeric);
        let y0 = run_end(s, x1, CharClass::Space);
        let y1 = run_end(s, y0, CharClass::Numeric);
        let end = run_end(s, y1, CharClass::NotV);
        proof {
            lemma_run_end(s, at, CharClass::Space);
            lemma_run_end(s, v + 1, CharClass::Space);
            lemma_run_end(s, x0, CharClass::Numeric);
            lemma_run_end(s, x1, CharClass::Space);
            lemma_run_end(s, y0, CharClass::Numeric);
            lemma_run_end(s, y1, CharClass::NotV);
        }
        let rest = verts_from(s, end);
        if !is_numeral(s.subrange(x0, x1)) || !is_numeral(s.subrange(y0, y1)) {
            rest
        } else {
            let cp = control_points_of(trimmed(s.subrange(y1, end)));
            seq![
                Vec2View {
                    x: s.subrange(x0, x1),
                    y: s.subrange(y0, y1),
                    c0x: cp.c0x,
                    c0y: cp.c0y,
                    c1x: cp.c1x,
                    c1y: cp.c1y,
                },
            ] + rest
        }
    }
}

/// Whatever the text, every coordinate of every vertex that is read from
/// it is a numeral.
pub proof fn verts_are_numeric(s: Seq<char>, at: int)
    ensures
        all_numeric(verts_from(s, at)),
    decreases s.len() - at,
{
    let v = run_end(s, at, CharClass::Space);
    if at < 0 || v >= s.len() {
    } else if s[v] != 'V' {
        lemma_run_end(s, at, CharClass::Space);
        verts_are_numeric(s, v + 1);
    } else {
        let x0 = run_end(s, v + 1, CharClass::Space);
        let x1 = run_end(s, x0, CharClass::Numeric);
        let y0 = run_end(s, x1, CharClass::Space);
        let y1 = run_end(s, y0, CharClass::Numeric);
        let end = run_end(s, y1, CharClass::NotV);
        lemma_run_end(s, at, CharClass::Space);
        lemma_run_end(s, v + 1, CharClass::Space);
        lemma_run_end(s, x0, CharClass::Numeric);
        lemma_run_end(s, x1, CharClass::Space);
        lemma_run_end(s, y0, CharClass::Numeric);
        lemma_run_end(s, y1, CharClass::NotV);
        verts_are_numeric(s, end);
        control_points_are_numeric(trimmed(s.subrange(y1, end)), 0, no_control_points());
        let rest = verts_from(s, end);
        let all = verts_from(s, at);
        assert forall|i: int| 0 <= i < all.len() implies (#[trigger] all[i]).is_numeric() by {
            if all.len() == rest.len() {
            } else if i > 0 {
                assert(all[i] == rest[i - 1]);
            }
        }
    }
}

/// The warning for a vertex that is left out: what stands for its x and for
/// its y, and the vertex list it stands in.
pub open spec fn bad_vertex_text(x: Seq<char>, y: Seq<char>, whole: Seq<char>) -> Seq<char> {
    "Failed to parse vertex from X: \""@ + x + "\", Y: \""@ + y + "\" in VertList: \""@ + whole
        + "\""@
}

/// The warnings for the vertices that are left out of what `s` writes from
/// position `at` on, in order.
pub open spec fn vertex_warnings_from(s: Seq<char>, at: int) -> Seq<Seq<char>>
    decreases s.len() - at,
{
    let v = run_end(s, at, CharClass::Space);
    if at < 0 || v >= s.len() {
        Seq::empty()
    } else if s[v] != 'V' {
        proof {
            lemma_run_end(s, at, CharClass::Space);
        }
        vertex_warnings_from(s, v + 1)
    } else {
        let x0 = run_end(s, v + 1, CharClass::Space);
        let x1 = run_end(s, x0, CharClass::Numeric);
        let y0 = run_end(s, x1, CharClass::Space);
        let y1 = run_end(s, y0, CharClass::Numeric);
        let end = run_end(s, y1, CharClass::NotV);
        proof {
            lemma_run_end(s, at, CharClass::Space);
            lemma_run_end(s, v + 1, CharClass::Space);
            lemma_run_end(s, x0, CharClass::Numeric);
            lemma_run_end(s, x1, CharClass::Space);
            lemma_run_end(s, y0, CharClass::Numeric);
            lemma_run_end(s, y1, CharClass::NotV);
        }
        let rest = vertex_warnings_from(s, end);
        if !is_numeral(s.subrange(x0, x1)) || !is_numeral(s.subrange(y0, y1)) {
            seq![bad_vertex_text(s.subrange(x0, x1), s.subrange(y0, y1), s)] + rest
        } else {
            rest
        }
    }
}

/// The warnings for the vertices that are left out of a vertex list.
pub open spec fn vertex_warnings(s: Seq<char>) -> Seq<Seq<char>> {
    vertex_warnings_from(s, 0)
}

/// The vertices that a vertex list writes.
pub open spec fn vert_list(s: Seq<char>) -> Seq<Vec2View> {
    verts_from(s, 0)
}

/// Parse VertList string into `Vec<Vec2>`.
pub fn parse_vert_list(vert_list_str: &str) -> (vertices: Vec<Vec2>)
    ensures
        vertices.deep_view() == vert_list(vert_list_str@),
{
    let mut log: Vec<String> = Vec::new();
    parse_vert_list_with_log(vert_list_str, &mut log)
}

/// Writes the warning for a vertex that is left out.
fn bad_vertex_message(x: &[char], y: &[char], whole: &str) -> (m: String)
    ensures
        m@ == bad_vertex_text(x@, y@, whole@),
{
    let mut m = String::from_str("Failed to parse vertex from X: \"");
    m.append(string_of(x).as_str());
    m.append("\", Y: \"");
    m.append(string_of(y).as_str());
    m.append("\" in VertList: \"");
    m.append(whole);
    m.append("\"");
    m
}

/// Parse VertList string into `Vec<Vec2>`, with a warning in the log for
/// each vertex that is left out.
pub fn parse_vert_list_with_log(vert_list_str: &str, log: &mut Vec<String>) -> (vertices: Vec<
    Vec2,
>)
    ensures
        vertices.deep_view() == vert_list(vert_list_str@),
        log_view(final(log)@) == log_view(old(log)@) + vertex_warnings(vert_list_str@),
{
    let s = chars_of(vert_list_str);
    let mut vertices: Vec<Vec2> = Vec::new();
    let mut warnings: Vec<String> = Vec::new();
    assert(log_view(warnings@) =~= Seq::<Seq<char>>::empty());
    let mut i: usize = 0;
    loop
        invariant
            i <= s.len(),
            s@ == vert_list_str@,
            vert_list(s@) == vertices.deep_view() + verts_from(s@, i as int),
            vertex_warnings(s@) == log_view(warnings@) + vertex_warnings_from(s@, i as int),
        ensures
            vert_list(s@) == vertices.deep_view(),
            vertex_warnings(s@) == log_view(warnings@),
        decreases s.len() - i,
    {
        let v = scan_run(s.as_slice(), i, CharClass::Space);
        if v >= s.len() {
            assert(vertices.deep_view() + Seq::<Vec2View>::empty() =~= vertices.deep_view());
            assert(log_view(warnings@) + Seq::<Seq<char>>::empty() =~= log_view(warnings@));
            break ;
        }
        if s[v] != 'V' {
            i = v + 1;
            continue ;
        }
        let x0 = scan_run(s.as_slice(), v + 1, CharClass::Space);
        let x1 = scan_run(s.as_slice(), x0, CharClass::Numeric);
        let y0 = scan_run(s.as_slice(), x1, CharClass::Space);
        let y1 = scan_run(s.as_slice(), y0, CharClass::Numeric);
        let end = scan_run(s.as_slice(), y1, CharClass::NotV);
        let x = copy_range(s.as_slice(), x0, x1);
        let y = copy_range(s.as_slice(), y0, y1);
        if check_numeral(x.as_slice()) && check_numeral(y.as_slice()) {
            let suffix = copy_range(s.as_slice(), y1, end);
            let cp_str = trim(suffix.as_slice());
            let (c0x, c0y, c1x, c1y) = parse_control_point_data(cp_str.as_slice());
            let vertex = Vec2::with_control_points(
                string_of(x.as_slice()),
                string_of(y.as_slice()),
                c0x,
                c0y,
                c1x,
                c1y,
            );
            let ghost before = vertices.deep_view();
            let ghost value = vertex.deep_view();
            vertices.push(vertex);
            assert(vertices.deep_view() =~= before.push(value));
            assert(before + (seq![value] + verts_from(s@, end as int)) =~= before.push(value)
                + verts_from(s@, end as int));
        } else {
            let ghost before = log_view(warnings@);
            let warning = bad_vertex_message(x.as_slice(), y.as_slice(), vert_list_str);
            let ghost value = warning@;
            push_log(&mut warnings, warning);
            assert(before + (seq![value] + vertex_warnings_from(s@, end as int)) =~= before.push(
                value,
            ) + vertex_warnings_from(s@, end as int));
        }
        i = end;
    }
    append_log(log, warnings);
    vertices
}

/// Where the reading of an index that starts at `at` stops: behind the
/// white space and the digits that follow it.
pub open spec fn index_end(s: Seq<char>, at: int) -> int {
    run_end(s, run_end(s, at, CharClass::Space), CharClass::Digit)
}

/// The index written at `at`, behind optional white space: a run of digits
/// whose value a `usize` can hold.
pub open spec fn index_at(s: Seq<char>, at: int) -> Option<usize> {
    let start = run_end(s, at, CharClass::Space);
    match magnitude(s.subrange(start, index_end(s, at)), 10, usize::MAX as nat) {
        Some(v) => Some(v as usize),
        None => None,
    }
}

/// Up to `count` indices read one after the other from `at` on, and the
/// position where the reading stopped. It stops for good at the first index
/// that cannot be read.
pub open spec fn indices_from(s: Seq<char>, at: int, count: nat) -> (Seq<usize>, int)
    decreases count,
{
    if count == 0 {
        (Seq::empty(), at)
    } else {
        match index_at(s, at) {
            None => (Seq::empty(), index_end(s, at)),
            Some(v) => {
                let (rest, end) = indices_from(s, index_end(s, at), (count - 1) as nat);
                (seq![v] + rest, end)
            },
        }
    }
}

/// Reading indices stops within the text, behind white space and digits
/// only, with no more indices than were asked for.
pub proof fn lemma_indices_from(s: Seq<char>, at: int, count: nat)
    requires
        0 <= at <= s.len(),
    ensures
        at <= indices_from(s, at, count).1 <= s.len(),
        indices_from(s, at, count).0.len() <= count,
        forall|j: int|
            at <= j < indices_from(s, at, count).1 ==> is_space(#[trigger] s[j]) || is_digit(s[j]),
    decreases count,
{
    let start = run_end(s, at, CharClass::Space);
    lemma_run_end(s, at, CharClass::Space);
    lemma_run_end(s, start, CharClass::Digit);
    assert forall|j: int| at <= j < index_end(s, at) implies is_space(#[trigger] s[j]) || is_digit(
        s[j],
    ) by {
        if j < start {
            assert(CharClass::Space.holds(s[j]));
        } else {
            assert(CharClass::Digit.holds(s[j]));
        }
    }
    if count > 0 && index_at(s, at) is Some {
        lemma_indices_from(s, index_end(s, at), (count - 1) as nat);
    }
}

/// The primitives that `s` writes from position `at` on.
///
/// A primitive is one of the letters `L` and `B` followed by up to four
/// indices. `L` with two indices or more is a line between the first two,
/// `B` likewise a Bezier segment; with fewer than two indices the letter
/// gives nothing. Any other character is passed over.
pub open spec fn prims_from(s: Seq<char>, at: int) -> Seq<PathPrimitive>
    decreases s.len() - at,
{
    let op = run_end(s, at, CharClass::Space);
    if at < 0 || op >= s.len() {
        Seq::empty()
    } else {
        proof {
            lemma_run_end(s, at, CharClass::Space);
            lemma_indices_from(s, op + 1, 4);
        }
        if s[op] != 'L' && s[op] != 'B' {
            prims_from(s, op + 1)
        } else {
            let (args, end) = indices_from(s, op + 1, 4);
            let rest = prims_from(s, end);
            if args.len() < 2 {
                rest
            } else if s[op] == 'L' {
                seq![PathPrimitive::Line { start_idx: args[0], end_idx: args[1] }] + rest
            } else {
                seq![PathPrimitive::Bezier { start_idx: args[0], end_idx: args[1] }] + rest
            }
        }
    }
}

/// White space and digits before a primitive write nothing: the reading
/// from `at` on gives what the reading from `to` on gives.
pub proof fn lemma_passed_over(s: Seq<char>, at: int, to: int)
    requires
        0 <= at <= to <= s.len(),
        forall|j: int| at <= j < to ==> is_space(#[trigger] s[j]) || is_digit(s[j]),
    ensures
        prims_from(s, at) == prims_from(s, to),
    decreases to - at,
{
    if at < to {
        lemma_passed_over(s, at + 1, to);
        assert(is_space(s[at]) || is_digit(s[at]));
        if is_space(s[at]) {
            assert(run_end(s, at, CharClass::Space) == run_end(s, at + 1, CharClass::Space));
        } else {
            assert(run_end(s, at, CharClass::Space) == at);
        }
    }
}

/// The primitives that a primitive list writes.
pub open spec fn prim_list(s: Seq<char>) -> Seq<PathPrimitive> {
    prims_from(s, 0)
}

/// Reads the index written at `i`, behind optional white space, and moves
/// `i` behind the white space and the digits, whether they gave an index or
/// not.
fn parse_next_int(chars: &[char], i: &mut usize) -> (r: Option<usize>)
    requires
        *old(i) <= chars.len(),
    ensures
        r == index_at(chars@, *old(i) as int),
        *final(i) == index_end(chars@, *old(i) as int),
        *old(i) <= *final(i) <= chars.len(),
{
    let start = scan_run(chars, *i, CharClass::Space);
    let end = scan_run(chars, start, CharClass::Digit);
    *i = end;
    let digits = copy_range(chars, start, end);
    match parse_magnitude(digits.as_slice(), 10, usize::MAX as u64) {
        Some(v) => Some(v as usize),
        None => None,
    }
}

/// Reads up to four indices one after the other and moves `i` to where the
/// reading stopped.
fn parse_args(chars: &[char], i: &mut usize) -> (args: Vec<usize>)
    requires
        *old(i) <= chars.len(),
    ensures
        args@ == indices_from(chars@, *old(i) as int, 4).0,
        *final(i) == indices_from(chars@, *old(i) as int, 4).1,
        *old(i) <= *final(i) <= chars.len(),
{
    let mut args: Vec<usize> = Vec::new();
    let ghost start = *i as int;
    let mut n: usize = 0;
    while n < 4
        invariant
            n <= 4,
            start == *old(i),
            start <= *i <= chars.len(),
            indices_from(chars@, start, 4).0 == args@ + indices_from(
                chars@,
                *i as int,
                (4 - n) as nat,
            ).0,
            indices_from(chars@, start, 4).1 == indices_from(chars@, *i as int, (4 - n) as nat).1,
        decreases 4 - n,
    {
        let ghost at = *i as int;
        let ghost before = args@;
        match parse_next_int(chars, i) {
            Some(v) => {
                args.push(v);
                proof {
                    let rest = indices_from(chars@, *i as int, (4 - n - 1) as nat).0;
                    assert(before + (seq![v] + rest) =~= before.push(v) + rest);
                }
                n += 1;
            },
            None => {
                assert(indices_from(chars@, at, (4 - n) as nat).0 =~= Seq::<usize>::empty());
                assert(indices_from(chars@, start, 4).0 =~= args@);
                return args;
            },
        }
    }
    assert(indices_from(chars@, start, 4).0 =~= args@);
    args
}

/// Parse PrimList string into `Vec<PathPrimitive>`.
pub fn parse_prim_list(prim_list_str: &str) -> (primitives: Vec<PathPrimitive>)
    ensures
        primitives@ == prim_list(prim_list_str@),
{
    let chars = chars_of(prim_list_str);
    let mut primitives: Vec<PathPrimitive> = Vec::new();
    let mut i: usize = 0;
    loop
        invariant
            i <= chars.len(),
            chars@ == prim_list_str@,
            prim_list(chars@) == primitives@ + prims_from(chars@, i as int),
        ensures
            prim_list(chars@) == primitives@,
        decreases chars.len() - i,
    {
        let op = scan_run(chars.as_slice(), i, CharClass::Space);
        if op >= chars.len() {
            assert(primitives@ + Seq::<PathPrimitive>::empty() =~= primitives@);
            break ;
        }
        let prim_type = chars[op];
        i = op + 1;
        if !is_letter(prim_type) {
            continue ;
        }
        let args = parse_args(chars.as_slice(), &mut i);
        let ghost before = primitives@;
        let ghost rest = prims_from(chars@, i as int);
        proof {
            lemma_indices_from(chars@, op + 1, 4);
            if prim_type != 'L' && prim_type != 'B' {
                lemma_passed_over(chars@, op + 1, i as int);
            }
        }
        if prim_type == 'L' && args.len() >= 2 {
            let p = PathPrimitive::Line { start_idx: args[0], end_idx: args[1] };
            primitives.push(p);
            assert(before + (seq![p] + rest) =~= before.push(p) + rest);
        } else if prim_type == 'B' && args.len() >= 2 {
            let p = PathPrimitive::Bezier { start_idx: args[0], end_idx: args[1] };
            primitives.push(p);
            assert(before + (seq![p] + rest) =~= before.push(p) + rest);
        }
    }
    primitives
}

} // verus!
