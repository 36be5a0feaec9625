//! Character classes and scans over a line's characters.

use vstd::prelude::*;

verus! {

/// The classes of characters that the rules look for.
#[derive(Clone, Copy, PartialEq, Eq, Structural, Debug)]
pub enum CharClass {
    /// A blank, a tab, a line feed or a carriage return.
    Space,
    /// Anything that is not a `Space`.
    Visible,
    /// An ASCII letter.
    Letter,
    /// An ASCII letter, an ASCII digit or an underscore.
    Name,
    /// Anything that is not a `Name`.
    Other,
    /// An ASCII lower-case letter.
    Lower,
    /// A single or a double quote.
    Quote,
    /// The equal sign.
    Equals,
    /// The comma.
    Comma,
    /// An opening curly bracket.
    Open,
    /// A closing curly bracket.
    Close,
}

pub open spec fn is_space(c: char) -> bool {
    c == ' ' || c == '\t' || c == '\n' || c == '\r'
}

pub open spec fn is_lower(c: char) -> bool {
    'a' as u32 <= c as u32 <= 'z' as u32
}

pub open spec fn is_letter(c: char) -> bool {
    is_lower(c) || 'A' as u32 <= c as u32 <= 'Z' as u32
}

pub open spec fn is_name_char(c: char) -> bool {
    is_letter(c) || '0' as u32 <= c as u32 <= '9' as u32 || c == '_'
}

pub open spec fn is_quote(c: char) -> bool {
    c == '\'' || c == '"'
}

/// Whether `c` belongs to `class`.
pub open spec fn in_class(c: char, class: CharClass) -> bool {
    match class {
        CharClass::Space => is_space(c),
        CharClass::Visible => !is_space(c),
        CharClass::Letter => is_letter(c),
        CharClass::Name => is_name_char(c),
        CharClass::Other => !is_name_char(c),
        CharClass::Lower => is_lower(c),
        CharClass::Quote => is_quote(c),
        CharClass::Equals => c == '=',
        CharClass::Comma => c == ',',
        CharClass::Open => c == '{',
        CharClass::Close => c == '}',
    }
}

/// The first index at or after `from` whose character belongs to `class`,
/// or the length of `s` where there is none.
pub open spec fn scan(s: Seq<char>, class: CharClass, from: int) -> int
    decreases s.len() - from,
{
    if from < 0 || from >= s.len() {
        s.len() as int
    } else if in_class(s[from], class) {
        from
    } else {
        scan(s, class, from + 1)
    }
}

/// The length of `s.take(n)` without the spaces at its end.
pub open spec fn trimmed_len(s: Seq<char>, n: int) -> int
    decreases n,
{
    if n <= 0 || n > s.len() {
        0
    } else if is_space(s[n - 1]) {
        trimmed_len(s, n - 1)
    } else {
        n
    }
}

/// `s` without the spaces at its end.
pub open spec fn trim_end(s: Seq<char>) -> Seq<char> {
    s.take(trimmed_len(s, s.len() as int))
}

/// Whether `s` has at least two characters, the first and the last being the
/// same quote.
pub open spec fn is_quoted(s: Seq<char>) -> bool {
    s.len() >= 2 && is_quote(s[0]) && s[s.len() - 1] == s[0]
}

/// Tells whether `c` belongs to `class`.
pub fn char_in_class(c: char, class: CharClass) -> (b: bool)
    ensures
        b == in_class(c, class),
{
    let n: u32 = c as u32;
    let lower = 'a' as u32 <= n && n <= 'z' as u32;
    let letter = lower || ('A' as u32 <= n && n <= 'Z' as u32);
    let name = letter || ('0' as u32 <= n && n <= '9' as u32) || c == '_';
    let space = c == ' ' || c == '\t' || c == '\n' || c == '\r';
    match class {
        CharClass::Space => space,
        CharClass::Visible => !space,
        CharClass::Letter => letter,
        CharClass::Name => name,
        CharClass::Other => !name,
        CharClass::Lower => lower,
        CharClass::Quote => c == '\'' || c == '"',
        CharClass::Equals => c == '=',
        CharClass::Comma => c == ',',
        CharClass::Open => c == '{',
        CharClass::Close => c == '}',
    }
}

/// Finds the first character of `class` at or after `from`.
pub fn find(v: &Vec<char>, class: CharClass, from: usize) -> (at: usize)
    requires
        from <= v.len(),
    ensures
        at == scan(v@, class, from as int),
        from <= at <= v.len(),
        at < v.len() ==> in_class(v@[at as int], class),
{
    let mut i: usize = from;
    while i < v.len() && !char_in_class(v[i], class)
        invariant
            from <= i <= v.len(),
            scan(v@, class, from as int) == scan(v@, class, i as int),
        decreases v.len() - i,
    {
        i += 1;
    }
    i
}

/// The characters of `v` from `from` up to, not including, `to`.
pub fn slice(v: &Vec<char>, from: usize, to: usize) -> (r: Vec<char>)
    requires
        from <= to <= v.len(),
    ensures
        r@ == v@.subrange(from as int, to as int),
{
    let mut r: Vec<char> = Vec::new();
    let mut i: usize = from;
    while i < to
        invariant
            from <= i <= to <= v.len(),
            r@ == v@.subrange(from as int, i as int),
        decreases to - i,
    {
        r.push(v[i]);
        i += 1;
        assert(r@ =~= v@.subrange(from as int, i as int));
    }
    r
}

/// The characters of `v` from `from` up to `to`, without the spaces at their end.
pub fn slice_trimmed(v: &Vec<char>, from: usize, to: usize) -> (r: Vec<char>)
    requires
        from <= to <= v.len(),
    ensures
        r@ == trim_end(v@.subrange(from as int, to as int)),
{
    let part = slice(v, from, to);
    let mut n: usize = part.len();
    while n > 0 && char_in_class(part[n - 1], CharClass::Space)
        invariant
            n <= part.len(),
            trimmed_len(part@, part@.len() as int) == trimmed_len(part@, n as int),
        decreases n,
    {
        n -= 1;
    }
    slice(&part, 0, n)
}

/// The characters of a string slice.
pub fn chars_of(s: &str) -> (r: Vec<char>)
    ensures
        r@ == s@,
{
    let n: usize = s.unicode_len();
    let mut r: Vec<char> = Vec::new();
    let mut i: usize = 0;
    while i < n
        invariant
            i <= n,
            n == s@.len(),
            r@ == s@.take(i as int),
        decreases n - i,
    {
        r.push(s.get_char(i));
        i += 1;
        assert(r@ =~= s@.take(i as int));
    }
    assert(s@.take(n as int) =~= s@);
    r
}

/// Whether two sequences of characters are the same.
pub fn same_chars(a: &Vec<char>, b: &Vec<char>) -> (r: bool)
    ensures
        r == (a@ == b@),
{
    if a.len() != b.len() {
        return false;
    }
    let mut i: usize = 0;
    while i < a.len()
        invariant
            i <= a.len(),
            a.len() == b.len(),
            a@.take(i as int) == b@.take(i as int),
        decreases a.len() - i,
    {
        if a[i] != b[i] {
            return false;
        }
        i += 1;
        assert(a@.take(i as int) =~= a@.take(i - 1).push(a@[i - 1]));
        assert(b@.take(i as int) =~= b@.take(i - 1).push(b@[i - 1]));
    }
    assert(a@.take(a.len() as int) =~= a@);
    assert(b@.take(b.len() as int) =~= b@);
    true
}

/// Whether the characters `v` spell the string `s`.
pub fn spells(v: &Vec<char>, s: &str) -> (r: bool)
    ensures
        r == (v@ == s@),
{
    let w = chars_of(s);
    same_chars(v, &w)
}

/// Appends the characters of `tail` to `v`.
pub fn append(v: &mut Vec<char>, tail: &Vec<char>)
    ensures
        final(v)@ == old(v)@ + tail@,
{
    let mut i: usize = 0;
    while i < tail.len()
        invariant
            i <= tail.len(),
            v@ == old(v)@ + tail@.take(i as int),
        decreases tail.len() - i,
    {
        v.push(tail[i]);
        i += 1;
        assert(v@ =~= old(v)@ + tail@.take(i as int));
    }
    assert(tail@.take(tail.len() as int) =~= tail@);
}

} // verus!
