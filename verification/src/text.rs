//! Character-level text handling: Unicode white space, trimming, ASCII
//! lower-casing and decimal rendering, each with its specification.

use vstd::prelude::*;

verus! {

/// Unicode `White_Space`: the characters for which `char::is_whitespace` holds.
pub open spec fn is_white_space(c: char) -> bool {
    ||| c == '\t'
    ||| c == '\n'
    ||| c == '\u{0B}'
    ||| c == '\u{0C}'
    ||| c == '\r'
    ||| c == ' '
    ||| c == '\u{85}'
    ||| c == '\u{A0}'
    ||| c == '\u{1680}'
    ||| ('\u{2000}' <= c && c <= '\u{200A}')
    ||| c == '\u{2028}'
    ||| c == '\u{2029}'
    ||| c == '\u{202F}'
    ||| c == '\u{205F}'
    ||| c == '\u{3000}'
}

/// `s` without its leading white space.
pub open spec fn trim_start(s: Seq<char>) -> Seq<char>
    decreases s.len(),
{
    if s.len() > 0 && is_white_space(s[0]) {
        trim_start(s.drop_first())
    } else {
        s
    }
}

/// `s` without its trailing white space.
pub open spec fn trim_end(s: Seq<char>) -> Seq<char>
    decreases s.len(),
{
    if s.len() > 0 && is_white_space(s.last()) {
        trim_end(s.drop_last())
    } else {
        s
    }
}

/// `s` without leading and trailing white space (`str::trim`).
pub open spec fn trim(s: Seq<char>) -> Seq<char> {
    trim_end(trim_start(s))
}

/// Whether `s` holds nothing but white space.
pub open spec fn is_blank(s: Seq<char>) -> bool {
    trim(s).len() == 0
}

/// The ASCII lower-case form of one character: `A`..`Z` become `a`..`z`,
/// every other character stays.
pub open spec fn ascii_lower(c: char) -> char {
    if 'A' <= c && c <= 'Z' {
        ((c as u8) + 32) as char
    } else {
        c
    }
}

/// The ASCII lower-case form of a text (`str::to_ascii_lowercase`).
pub open spec fn to_ascii_lower(s: Seq<char>) -> Seq<char> {
    s.map_values(|c: char| ascii_lower(c))
}

/// The decimal digit for `d < 10`.
pub open spec fn digit_char(d: nat) -> char {
    (('0' as u8) + d) as char
}

/// The decimal rendering of `n`, without sign or leading zeros.
pub open spec fn decimal(n: nat) -> Seq<char>
    decreases n,
{
    if n < 10 {
        seq![digit_char(n)]
    } else {
        decimal(n / 10).push(digit_char(n % 10))
    }
}

/// Appends one character to a string.
///
/// Trusted wrapper of `String::push`, whose documentation states that it
/// appends the given `char` to the end of the string.
#[verifier::external_body]
pub(crate) fn push_char(s: &mut String, c: char)
    ensures
        final(s)@ == old(s)@.push(c),
{
    s.push(c);
}

/// Whether `c` is Unicode white space.
pub fn is_white_space_char(c: char) -> (b: bool)
    ensures
        b == is_white_space(c),
{
    c == '\t' || c == '\n' || c == '\u{0B}' || c == '\u{0C}' || c == '\r' || c == ' '
        || c == '\u{85}' || c == '\u{A0}' || c == '\u{1680}' || ('\u{2000}' <= c && c
        <= '\u{200A}') || c == '\u{2028}' || c == '\u{2029}' || c == '\u{202F}' || c
        == '\u{205F}' || c == '\u{3000}'
}

/// The ASCII lower-case form of one character.
pub fn ascii_lower_char(c: char) -> (r: char)
    ensures
        r == ascii_lower(c),
{
    if 'A' <= c && c <= 'Z' {
        ((c as u8) + 32) as char
    } else {
        c
    }
}

/// The characters of a string slice, in order.
pub fn chars_of(s: &str) -> (v: Vec<char>)
    ensures
        v@ == s@,
{
    let mut v: Vec<char> = Vec::new();
    for c in it: s.chars()
        invariant
            v@ == it.seq().take(it.index() as int),
            it.seq() == s@,
    {
        v.push(c);
    }
    v
}

/// The string made of `v[from..to]`.
pub fn string_from_range(v: &Vec<char>, from: usize, to: usize) -> (s: String)
    requires
        from <= to <= v@.len(),
    ensures
        s@ == v@.subrange(from as int, to as int),
{
    let mut s = String::new();
    let mut i = from;
    while i < to
        invariant
            from <= i <= to <= v@.len(),
            s@ == v@.subrange(from as int, i as int),
        decreases to - i,
    {
        push_char(&mut s, v[i]);
        assert(v@.subrange(from as int, i + 1) == v@.subrange(from as int, i as int).push(v@[i as int]));
        i += 1;
    }
    s
}

proof fn lemma_trim_start_skip(s: Seq<char>, i: int)
    requires
        0 <= i < s.len(),
        is_white_space(s[i]),
    ensures
        trim_start(s.skip(i)) == trim_start(s.skip(i + 1)),
{
    assert(s.skip(i).drop_first() == s.skip(i + 1));
}

proof fn lemma_trim_end_take(s: Seq<char>, j: int)
    requires
        0 < j <= s.len(),
        is_white_space(s[j - 1]),
    ensures
        trim_end(s.take(j)) == trim_end(s.take(j - 1)),
{
    assert(s.take(j).drop_last() == s.take(j - 1));
}

/// The bounds of `trim(v)` inside `v`.
pub fn trim_bounds(v: &Vec<char>) -> (r: (usize, usize))
    ensures
        r.0 <= r.1 <= v@.len(),
        v@.subrange(r.0 as int, r.1 as int) == trim(v@),
{
    let n = v.len();
    let mut a: usize = 0;
    assert(v@.skip(0) == v@);
    while a < n && is_white_space_char(v[a])
        invariant
            a <= n == v@.len(),
            trim_start(v@) == trim_start(v@.skip(a as int)),
        decreases n - a,
    {
        proof {
            lemma_trim_start_skip(v@, a as int);
        }
        a += 1;
    }
    let ghost t = v@.skip(a as int);
    assert(trim_start(v@) == t);
    let mut b: usize = n;
    assert(t.take(t.len() as int) == t);
    while b > a && is_white_space_char(v[b - 1])
        invariant
            a <= b <= n == v@.len(),
            t == v@.skip(a as int),
            trim_end(t) == trim_end(t.take(b - a)),
        decreases b,
    {
        proof {
            lemma_trim_end_take(t, (b - a) as int);
        }
        b -= 1;
    }
    assert(trim_end(t.take(b - a)) == t.take(b - a));
    assert(v@.subrange(a as int, b as int) == t.take(b - a));
    (a, b)
}

/// `s` without leading and trailing white space.
pub fn trim_str(s: &str) -> (r: String)
    ensures
        r@ == trim(s@),
{
    let v = chars_of(s);
    let (a, b) = trim_bounds(&v);
    string_from_range(&v, a, b)
}

/// The ASCII lower-case form of `s`.
pub fn to_ascii_lowercase(s: &str) -> (r: String)
    ensures
        r@ == to_ascii_lower(s@),
{
    let v = chars_of(s);
    let mut r = String::new();
    let mut i: usize = 0;
    while i < v.len()
        invariant
            i <= v@.len(),
            v@ == s@,
            r@ == to_ascii_lower(v@.take(i as int)),
        decreases v@.len() - i,
    {
        push_char(&mut r, ascii_lower_char(v[i]));
        assert(to_ascii_lower(v@.take(i + 1)) == to_ascii_lower(v@.take(i as int)).push(
            ascii_lower(v@[i as int]),
        ));
        i += 1;
    }
    assert(v@.take(v@.len() as int) == v@);
    r
}

/// Appends the decimal rendering of `n` to `s`.
pub fn push_decimal(s: &mut String, n: u32)
    ensures
        final(s)@ == old(s)@ + decimal(n as nat),
    decreases n,
{
    if n >= 10 {
        push_decimal(s, n / 10);
    }
    let d = (n % 10) as u8;
    push_char(s, (('0' as u8) + d) as char);
    proof {
        if n >= 10 {
            assert(old(s)@ + decimal(n as nat) == (old(s)@ + decimal((n / 10) as nat)).push(
                digit_char((n % 10) as nat),
            ));
        }
    }
}

/// Whether the text of `s` is exactly `lit`.
pub fn equals_str(s: &String, lit: &str) -> (b: bool)
    ensures
        b == (s@ == lit@),
{
    let t = String::from_str(lit);
    *s == t
}

/// A fresh string holding the text of `s`.
pub fn string_of(s: &str) -> (r: String)
    ensures
        r@ == s@,
{
    String::from_str(s)
}

/// `trim_start(s)` is a suffix of `s` that is empty or starts with a
/// character that is not white space.
pub proof fn lemma_trim_start_shape(s: Seq<char>)
    ensures
        trim_start(s).len() <= s.len(),
        trim_start(s) == s.skip(s.len() - trim_start(s).len()),
        trim_start(s).len() > 0 ==> !is_white_space(trim_start(s)[0]),
    decreases s.len(),
{
    if s.len() > 0 && is_white_space(s[0]) {
        lemma_trim_start_shape(s.drop_first());
        assert(s.drop_first().skip(s.drop_first().len() - trim_start(s).len()) == s.skip(
            s.len() - trim_start(s).len(),
        ));
    } else {
        assert(s.skip(0) == s);
    }
}

/// `trim_end(s)` is a prefix of `s` that is empty or ends with a character
/// that is not white space.
pub proof fn lemma_trim_end_shape(s: Seq<char>)
    ensures
        trim_end(s).len() <= s.len(),
        trim_end(s) == s.take(trim_end(s).len() as int),
        trim_end(s).len() > 0 ==> !is_white_space(trim_end(s).last()),
    decreases s.len(),
{
    if s.len() > 0 && is_white_space(s.last()) {
        lemma_trim_end_shape(s.drop_last());
        assert(s.drop_last().take(trim_end(s).len() as int) == s.take(trim_end(s).len() as int));
    } else {
        assert(s.take(s.len() as int) == s);
    }
}

/// A text that neither starts nor ends with white space is its own trim.
pub proof fn lemma_trim_fixed(s: Seq<char>)
    requires
        s.len() > 0 ==> !is_white_space(s[0]) && !is_white_space(s.last()),
    ensures
        trim(s) == s,
{
}

/// Trimming twice is trimming once.
pub proof fn lemma_trim_idempotent(s: Seq<char>)
    ensures
        trim(trim(s)) == trim(s),
{
    let t = trim_start(s);
    let u = trim_end(t);
    lemma_trim_start_shape(s);
    lemma_trim_end_shape(t);
    if u.len() > 0 {
        assert(u[0] == t[0]);
    }
    lemma_trim_fixed(u);
}

/// Lower-casing keeps exactly the white space characters white space.
pub proof fn lemma_ascii_lower_white_space(c: char)
    ensures
        is_white_space(ascii_lower(c)) == is_white_space(c),
        ascii_lower(ascii_lower(c)) == ascii_lower(c),
{
}

/// Lower-casing commutes with dropping leading white space.
proof fn lemma_trim_start_lower(s: Seq<char>)
    ensures
        trim_start(to_ascii_lower(s)) == to_ascii_lower(trim_start(s)),
    decreases s.len(),
{
    if s.len() > 0 {
        lemma_ascii_lower_white_space(s[0]);
        assert(to_ascii_lower(s).drop_first() == to_ascii_lower(s.drop_first()));
        lemma_trim_start_lower(s.drop_first());
    }
}

/// Lower-casing commutes with dropping trailing white space.
proof fn lemma_trim_end_lower(s: Seq<char>)
    ensures
        trim_end(to_ascii_lower(s)) == to_ascii_lower(trim_end(s)),
    decreases s.len(),
{
    if s.len() > 0 {
        lemma_ascii_lower_white_space(s.last());
        assert(to_ascii_lower(s).drop_last() == to_ascii_lower(s.drop_last()));
        lemma_trim_end_lower(s.drop_last());
    }
}

/// Lower-casing commutes with trimming.
pub proof fn lemma_trim_lower(s: Seq<char>)
    ensures
        trim(to_ascii_lower(s)) == to_ascii_lower(trim(s)),
{
    lemma_trim_start_lower(s);
    lemma_trim_end_lower(trim_start(s));
}

/// Lower-casing twice is lower-casing once.
pub proof fn lemma_lower_idempotent(s: Seq<char>)
    ensures
        to_ascii_lower(to_ascii_lower(s)) == to_ascii_lower(s),
{
    assert forall|i: int| 0 <= i < s.len() implies to_ascii_lower(to_ascii_lower(s))[i]
        == to_ascii_lower(s)[i] by {
        lemma_ascii_lower_white_space(s[i]);
    }
    assert(to_ascii_lower(to_ascii_lower(s)) == to_ascii_lower(s));
}

/// The first line of `s` as `BufRead::read_line` reads it: up to and
/// including the first line feed, or all of `s` when it holds none.
pub open spec fn first_line(s: Seq<char>) -> Seq<char>
    decreases s.len(),
{
    if s.len() == 0 {
        seq![]
    } else if s[0] == '\n' {
        seq!['\n']
    } else {
        seq![s[0]] + first_line(s.drop_first())
    }
}

/// The first line of a non-empty text is non-empty and a prefix of it.
pub proof fn lemma_first_line_shape(s: Seq<char>)
    ensures
        first_line(s).len() <= s.len(),
        s.len() > 0 ==> first_line(s).len() > 0,
        first_line(s) == s.take(first_line(s).len() as int),
    decreases s.len(),
{
    if s.len() > 0 && s[0] != '\n' {
        lemma_first_line_shape(s.drop_first());
        assert(s.take(first_line(s).len() as int) == seq![s[0]] + s.drop_first().take(
            first_line(s.drop_first()).len() as int,
        ));
    } else if s.len() > 0 {
        assert(s.take(1) == seq!['\n']);
    }
}

/// Reads the line that starts at `pos` in `v`: the line, and the position
/// after it.
pub fn read_line(v: &Vec<char>, pos: usize) -> (r: (String, usize))
    requires
        pos <= v@.len(),
    ensures
        r.0@ == first_line(v@.skip(pos as int)),
        r.1 == pos + r.0@.len(),
        r.1 <= v@.len(),
{
    let n = v.len();
    let mut line = String::new();
    let mut j = pos;
    assert(v@.subrange(pos as int, pos as int) == Seq::<char>::empty());
    while j < n && v[j] != '\n'
        invariant
            pos <= j <= n == v@.len(),
            line@ == v@.subrange(pos as int, j as int),
            first_line(v@.skip(pos as int)) == line@ + first_line(v@.skip(j as int)),
        decreases n - j,
    {
        assert(v@.skip(j as int).drop_first() == v@.skip(j + 1));
        assert(v@.subrange(pos as int, j + 1) == v@.subrange(pos as int, j as int).push(v@[j as int]));
        push_char(&mut line, v[j]);
        j += 1;
    }
    if j < n {
        push_char(&mut line, '\n');
        j += 1;
    }
    (line, j)
}

/// Whether `s` holds nothing but white space.
pub fn is_blank_str(s: &str) -> (b: bool)
    ensures
        b == is_blank(s@),
{
    let v = chars_of(s);
    let (a, b) = trim_bounds(&v);
    a == b
}

/// Lower-casing turns each letter `A`..`Z` into the letter 32 code points
/// later (`a`..`z`) and leaves every other character as it is.
pub proof fn lemma_ascii_lower_letters(c: char)
    ensures
        'A' <= c && c <= 'Z' ==> ascii_lower(c) as u32 == c as u32 + 32,
        'A' <= c && c <= 'Z' ==> 'a' <= ascii_lower(c) && ascii_lower(c) <= 'z',
        !('A' <= c && c <= 'Z') ==> ascii_lower(c) == c,
{
}

/// Two texts that differ only in the ASCII case of their letters have the
/// same lower-case form, character by character.
pub proof fn lemma_to_ascii_lower_letters(s: Seq<char>)
    ensures
        to_ascii_lower(s).len() == s.len(),
        forall|i: int|
            0 <= i < s.len() && 'A' <= s[i] && s[i] <= 'Z' ==> #[trigger] to_ascii_lower(s)[i]
                as u32 == s[i] as u32 + 32,
        forall|i: int|
            0 <= i < s.len() && !('A' <= s[i] && s[i] <= 'Z') ==> #[trigger] to_ascii_lower(s)[i]
                == s[i],
{
    assert forall|i: int| 0 <= i < s.len() implies #[trigger] to_ascii_lower(s)[i] == ascii_lower(
        s[i],
    ) by {}
    assert forall|i: int| 0 <= i < s.len() && 'A' <= s[i] && s[i] <= 'Z' implies
        #[trigger] to_ascii_lower(s)[i] as u32 == s[i] as u32 + 32 by {
        lemma_ascii_lower_letters(s[i]);
    }
}

} // verus!
