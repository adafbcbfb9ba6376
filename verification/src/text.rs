//! Characters and runs of characters: the classes that the decoders scan
//! by, searching for a word, and trimming.

use vstd::prelude::*;

verus! {

/// Whether `c` carries the Unicode White_Space property.
pub open spec fn is_space(c: char) -> bool {
    let n = c as u32;
    ||| 0x09 <= n <= 0x0D
    ||| n == 0x20
    ||| n == 0x85
    ||| n == 0xA0
    ||| n == 0x1680
    ||| 0x2000 <= n <= 0x200A
    ||| n == 0x2028
    ||| n == 0x2029
    ||| n == 0x202F
    ||| n == 0x205F
    ||| n == 0x3000
}

/// Whether `c` is one of the ASCII digits `0` to `9`.
pub open spec fn is_digit(c: char) -> bool {
    '0' <= c <= '9'
}

/// Whether `c` carries the Unicode Alphabetic property.
pub uninterp spec fn alphabetic(c: char) -> bool;

/// Whether `c` is one of the ASCII letters.
pub open spec fn is_ascii_letter(c: char) -> bool {
    'a' <= c <= 'z' || 'A' <= c <= 'Z'
}

/// `char::is_alphabetic` tells whether a character carries the Unicode
/// Alphabetic property. Of the ASCII characters the letters carry it and no
/// other does.
pub assume_specification[ char::is_alphabetic ](c: char) -> (b: bool)
    ensures
        b == alphabetic(c),
        (c as u32) < 128 ==> b == is_ascii_letter(c),
;

/// Whether `c` carries the Unicode Alphabetic property.
pub fn is_letter(c: char) -> (b: bool)
    ensures
        b == alphabetic(c),
        (c as u32) < 128 ==> b == is_ascii_letter(c),
{
    c.is_alphabetic()
}

/// Whether `c` carries the Unicode White_Space property.
pub fn is_whitespace(c: char) -> (b: bool)
    ensures
        b == is_space(c),
{
    let n: u32 = c as u32;
    (0x09 <= n && n <= 0x0D) || n == 0x20 || n == 0x85 || n == 0xA0 || n == 0x1680 || (0x2000 <= n
        && n <= 0x200A) || n == 0x2028 || n == 0x2029 || n == 0x202F || n == 0x205F || n == 0x3000
}

/// Whether `c` is one of the ASCII digits `0` to `9`.
pub fn is_ascii_digit(c: char) -> (b: bool)
    ensures
        b == is_digit(c),
{
    '0' <= c && c <= '9'
}

/// `String::push` appends one character to the end of a string.
pub assume_specification[ String::push ](s: &mut String, ch: char)
    ensures
        final(s)@ == old(s)@.push(ch),
;

/// The characters of `s`, in order.
pub fn chars_of(s: &str) -> (v: Vec<char>)
    ensures
        v@ == s@,
{
    let mut v: Vec<char> = Vec::new();
    for c in it: s.chars()
        invariant
            v@ == it.seq().take(it.index() as int),
            it.seq() == s@,
    {
        v.push(c);
    }
    v
}

/// The string made of the characters of `v`, in order.
pub fn string_of(v: &[char]) -> (s: String)
    ensures
        s@ == v@,
{
    let mut s = String::new();
    let mut i: usize = 0;
    while i < v.len()
        invariant
            i <= v.len(),
            s@ == v@.take(i as int),
        decreases v.len() - i,
    {
        s.push(v[i]);
        i += 1;
    }
    s
}

/// The character at position `i`.
pub fn char_at(s: &[char], i: usize) -> (c: char)
    requires
        i < s.len(),
    ensures
        c == s[i as int],
{
    s[i]
}

/// The characters of `s` from position `from` up to, not including, `to`.
pub fn copy_range(s: &[char], from: usize, to: usize) -> (v: Vec<char>)
    requires
        from <= to <= s.len(),
    ensures
        v@ == s@.subrange(from as int, to as int),
{
    let mut v: Vec<char> = Vec::new();
    let mut i: usize = from;
    while i < to
        invariant
            from <= i <= to <= s.len(),
            v@ == s@.subrange(from as int, i as int),
        decreases to - i,
    {
        v.push(s[i]);
        i += 1;
    }
    v
}

/// Whether two character sequences are the same.
pub fn same_chars(a: &[char], b: &[char]) -> (r: bool)
    ensures
        r == (a@ == b@),
{
    if a.len() != b.len() {
        return false;
    }
    let mut i: usize = 0;
    while i < a.len()
        invariant
            i <= a.len(),
            a.len() == b.len(),
            a@.take(i as int) == b@.take(i as int),
        decreases a.len() - i,
    {
        if a[i] != b[i] {
            return false;
        }
        assert(a@.take(i + 1) =~= a@.take(i as int).push(a@[i as int]));
        assert(b@.take(i + 1) =~= b@.take(i as int).push(b@[i as int]));
        i += 1;
    }
    assert(a@ =~= a@.take(a.len() as int));
    assert(b@ =~= b@.take(b.len() as int));
    true
}

/// Whether two texts are the same.
pub fn text_eq(a: &str, b: &str) -> (same: bool)
    ensures
        same == (a@ == b@),
{
    let x = chars_of(a);
    let y = chars_of(b);
    same_chars(x.as_slice(), y.as_slice())
}

/// Whether `s` holds the word `word` at position `at`.
pub open spec fn has_word_at(s: Seq<char>, at: int, word: Seq<char>) -> bool {
    0 <= at && at + word.len() <= s.len() && s.subrange(at, at + word.len()) == word
}

/// Whether `s` holds the characters of `word` at position `at`.
pub fn starts_with_at(s: &[char], at: usize, word: &str) -> (r: bool)
    requires
        at <= s.len(),
    ensures
        r == has_word_at(s@, at as int, word@),
{
    let w = chars_of(word);
    if w.len() > s.len() - at {
        return false;
    }
    let mut i: usize = 0;
    while i < w.len()
        invariant
            i <= w.len(),
            at + w.len() <= s.len(),
            w@ == word@,
            forall|k: int| 0 <= k < i ==> s@[at + k] == w@[k],
        decreases w.len() - i,
    {
        if s[at + i] != w[i] {
            assert(s@.subrange(at as int, at + w.len())[i as int] != w@[i as int]);
            return false;
        }
        i += 1;
    }
    assert(s@.subrange(at as int, at + w.len()) =~= w@);
    true
}

/// The first position at or after `at` where `s` holds `word`, if there is one.
pub open spec fn find_from(s: Seq<char>, at: int, word: Seq<char>) -> Option<int>
    decreases s.len() - at + 1,
{
    if at < 0 || at + word.len() > s.len() {
        None
    } else if has_word_at(s, at, word) {
        Some(at)
    } else {
        find_from(s, at + 1, word)
    }
}

/// What `find_from` returns is the first place where the word stands.
pub proof fn lemma_find_from(s: Seq<char>, at: int, word: Seq<char>)
    requires
        0 <= at,
    ensures
        match find_from(s, at, word) {
            Some(p) => at <= p && has_word_at(s, p, word) && forall|q: int|
                at <= q < p ==> !has_word_at(s, q, word),
            None => forall|q: int| at <= q ==> !has_word_at(s, q, word),
        },
    decreases s.len() - at + 1,
{
    if at + word.len() > s.len() {
    } else if has_word_at(s, at, word) {
    } else {
        lemma_find_from(s, at + 1, word);
    }
}

/// The first position at or after `at` where `s` holds `word`.
pub fn find_word(s: &[char], at: usize, word: &str) -> (r: Option<usize>)
    requires
        at <= s.len(),
    ensures
        match r {
            Some(p) => find_from(s@, at as int, word@) == Some(p as int) && p + word@.len()
                <= s@.len() <= usize::MAX,
            None => find_from(s@, at as int, word@) is None,
        },
{
    let n = word.unicode_len();
    if n > s.len() - at {
        return None;
    }
    let last: usize = s.len() - n;
    let mut i: usize = at;
    loop
        invariant
            at <= i <= last,
            last + n == s.len(),
            n == word@.len(),
            find_from(s@, at as int, word@) == find_from(s@, i as int, word@),
        decreases last - i,
    {
        if starts_with_at(s, i, word) {
            return Some(i);
        }
        if i == last {
            assert(find_from(s@, i + 1, word@) is None);
            return None;
        }
        i += 1;
    }
}

/// A class of characters that a scanner runs over.
#[derive(Clone, Copy, PartialEq, Eq, Structural)]
pub enum CharClass {
    /// Characters with the White_Space property.
    Space,
    /// Characters without the White_Space property.
    NonSpace,
    /// The ASCII digits.
    Digit,
    /// What a numeral may be written with: digits, `.`, `e`, `E`, `-`, `+`.
    Numeric,
    /// Every character but `V`.
    NotV,
    /// Every character but the line feed.
    NotNewline,
    /// Every character but the double quote.
    NotQuote,
    /// Every character but the closing round bracket.
    NotBracket,
    /// Every character but the comma.
    NotComma,
    /// Every character but the comma and the space.
    NotCommaOrSpace,
}

/// Whether `c` may stand in a numeral.
pub open spec fn is_numeric(c: char) -> bool {
    is_digit(c) || c == '.' || c == 'e' || c == 'E' || c == '-' || c == '+'
}

impl CharClass {
    /// Whether `c` belongs to the class.
    pub open spec fn holds(self, c: char) -> bool {
        match self {
            CharClass::Space => is_space(c),
            CharClass::NonSpace => !is_space(c),
            CharClass::Digit => is_digit(c),
            CharClass::Numeric => is_numeric(c),
            CharClass::NotV => c != 'V',
            CharClass::NotNewline => c != '\n',
            CharClass::NotQuote => c != '"',
            CharClass::NotBracket => c != ')',
            CharClass::NotComma => c != ',',
            CharClass::NotCommaOrSpace => c != ',' && c != ' ',
        }
    }

    /// Whether `c` belongs to the class.
    pub fn has(self, c: char) -> (b: bool)
        ensures
            b == self.holds(c),
    {
        match self {
            CharClass::Space => is_whitespace(c),
            CharClass::NonSpace => !is_whitespace(c),
            CharClass::Digit => is_ascii_digit(c),
            CharClass::Numeric => is_ascii_digit(c) || c == '.' || c == 'e' || c == 'E' || c == '-'
                || c == '+',
            CharClass::NotV => c != 'V',
            CharClass::NotNewline => c != '\n',
            CharClass::NotQuote => c != '"',
            CharClass::NotBracket => c != ')',
            CharClass::NotComma => c != ',',
            CharClass::NotCommaOrSpace => c != ',' && c != ' ',
        }
    }
}

/// The end of the longest run of characters of class `k` that starts at `at`:
/// the first position at or after `at` whose character is not of the class,
/// or the length of `s`.
pub open spec fn run_end(s: Seq<char>, at: int, k: CharClass) -> int
    decreases s.len() - at,
{
    if 0 <= at < s.len() && k.holds(s[at]) {
        run_end(s, at + 1, k)
    } else {
        at
    }
}

/// A run ends at or after its start, within the text, on a character that is
/// not of the class, and holds only characters of the class.
pub proof fn lemma_run_end(s: Seq<char>, at: int, k: CharClass)
    requires
        0 <= at <= s.len(),
    ensures
        at <= run_end(s, at, k) <= s.len(),
        run_end(s, at, k) < s.len() ==> !k.holds(s[run_end(s, at, k)]),
        forall|j: int| at <= j < run_end(s, at, k) ==> k.holds(#[trigger] s[j]),
    decreases s.len() - at,
{
    if at < s.len() && k.holds(s[at]) {
        lemma_run_end(s, at + 1, k);
    }
}

/// A stretch of characters of the class that ends at the end of the text or
/// before a character outside the class is a run.
pub proof fn lemma_run_to(s: Seq<char>, from: int, to: int, k: CharClass)
    requires
        0 <= from <= to <= s.len(),
        forall|j: int| from <= j < to ==> k.holds(#[trigger] s[j]),
        to == s.len() || !k.holds(s[to]),
    ensures
        run_end(s, from, k) == to,
    decreases to - from,
{
    if from < to {
        lemma_run_to(s, from + 1, to, k);
    }
}

/// Runs over the characters of class `k` from `at` on.
pub fn scan_run(s: &[char], at: usize, k: CharClass) -> (end: usize)
    requires
        at <= s.len(),
    ensures
        end == run_end(s@, at as int, k),
        at <= end <= s.len(),
{
    let mut i: usize = at;
    while i < s.len() && k.has(s[i])
        invariant
            at <= i <= s.len(),
            run_end(s@, at as int, k) == run_end(s@, i as int, k),
        decreases s.len() - i,
    {
        i += 1;
    }
    i
}

/// The text without the white space at its two ends.
pub open spec fn trimmed(s: Seq<char>) -> Seq<char> {
    let from = run_end(s, 0, CharClass::Space);
    s.subrange(from, trim_end(s, from, s.len() as int))
}

/// The end of `s` once the white space before `to` is taken off, never
/// going below `from`.
pub open spec fn trim_end(s: Seq<char>, from: int, to: int) -> int
    decreases to,
{
    if 0 <= from < to <= s.len() && is_space(s[to - 1]) {
        trim_end(s, from, to - 1)
    } else {
        to
    }
}

/// Copies the text without the white space at its two ends.
pub fn trim(s: &[char]) -> (t: Vec<char>)
    ensures
        t@ == trimmed(s@),
{
    let from = scan_run(s, 0, CharClass::Space);
    let mut to: usize = s.len();
    while from < to && is_whitespace(s[to - 1])
        invariant
            from <= to <= s.len(),
            trim_end(s@, from as int, s.len() as int) == trim_end(s@, from as int, to as int),
        decreases to,
    {
        to -= 1;
    }
    copy_range(s, from, to)
}

} // verus!
