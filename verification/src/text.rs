//! Text as vectors of characters: copying literals, joining, numbers in
//! decimal, upper-casing a word's first letter.
use vstd::prelude::*;
use vstd::string::StrSliceExecFns;

verus! {

/// Copies the characters of a string slice into a vector.
pub fn chars_of(s: &str) -> (v: Vec<char>)
    ensures
        v@ == s@,
{
    let n = s.unicode_len();
    let mut v: Vec<char> = Vec::new();
    let mut i: usize = 0;
    while i < n
        invariant
            n == s@.len(),
            i <= n,
            v@ == s@.take(i as int),
        decreases n - i,
    {
        let c = s.get_char(i);
        v.push(c);
        i += 1;
        assert(v@ =~= s@.take(i as int));
    }
    assert(s@.take(n as int) =~= s@);
    v
}

/// Appends the characters of `w` to `v`.
pub fn append(v: &mut Vec<char>, w: &Vec<char>)
    ensures
        final(v)@ == old(v)@ + w@,
{
    let mut i: usize = 0;
    while i < w.len()
        invariant
            i <= w.len(),
            v@ == old(v)@ + w@.take(i as int),
        decreases w.len() - i,
    {
        v.push(w[i]);
        i += 1;
        assert(v@ =~= old(v)@ + w@.take(i as int));
    }
    assert(w@.take(w.len() as int) =~= w@);
}

/// A copy of a vector of characters.
pub fn copy_of(v: &Vec<char>) -> (r: Vec<char>)
    ensures
        r@ == v@,
{
    let mut r = Vec::new();
    append(&mut r, v);
    assert(r@ =~= v@);
    r
}

/// Appends the characters of a string slice to `v`.
pub fn append_str(v: &mut Vec<char>, s: &str)
    ensures
        final(v)@ == old(v)@ + s@,
{
    let w = chars_of(s);
    append(v, &w);
}

/// A run of `n` spaces.
pub open spec fn spaces(n: nat) -> Seq<char> {
    Seq::new(n, |i: int| ' ')
}

/// Appends `n` spaces to `v`.
pub fn push_spaces(v: &mut Vec<char>, n: usize)
    ensures
        final(v)@ == old(v)@ + spaces(n as nat),
{
    let mut i: usize = 0;
    while i < n
        invariant
            i <= n,
            v@ == old(v)@ + spaces(i as nat),
        decreases n - i,
    {
        v.push(' ');
        i += 1;
        assert(v@ =~= old(v)@ + spaces(i as nat));
    }
}

/// The decimal digit for a value below ten.
pub open spec fn digit(d: nat) -> char {
    seq!['0', '1', '2', '3', '4', '5', '6', '7', '8', '9'][d as int]
}

/// The decimal representation of a natural number, without leading zeros.
pub open spec fn decimal(n: nat) -> Seq<char>
    decreases n,
{
    if n < 10 {
        seq![digit(n)]
    } else {
        decimal(n / 10) + seq![digit(n % 10)]
    }
}

fn digit_char(d: usize) -> (c: char)
    requires
        d < 10,
    ensures
        c == digit(d as nat),
{
    match d {
        0 => '0',
        1 => '1',
        2 => '2',
        3 => '3',
        4 => '4',
        5 => '5',
        6 => '6',
        7 => '7',
        8 => '8',
        _ => '9',
    }
}

/// Writes a number in decimal.
pub fn decimal_of(n: usize) -> (v: Vec<char>)
    ensures
        v@ == decimal(n as nat),
    decreases n,
{
    if n < 10 {
        let mut v = Vec::new();
        v.push(digit_char(n));
        assert(v@ =~= decimal(n as nat));
        v
    } else {
        let mut v = decimal_of(n / 10);
        v.push(digit_char(n % 10));
        assert(v@ =~= decimal(n as nat));
        v
    }
}

/// Calls `String::push`.
/// Trusted: std documents that it appends the character to the end.
#[verifier::external_body]
fn push_char(s: &mut String, c: char)
    ensures
        final(s)@ == old(s)@.push(c),
{
    s.push(c)
}

/// Turns a vector of characters into a `String`.
pub fn string_of(v: &Vec<char>) -> (s: String)
    ensures
        s@ == v@,
{
    let mut s = String::new();
    let mut i: usize = 0;
    while i < v.len()
        invariant
            i <= v.len(),
            s@ == v@.take(i as int),
        decreases v.len() - i,
    {
        push_char(&mut s, v[i]);
        i += 1;
        assert(s@ =~= v@.take(i as int));
    }
    assert(v@.take(v.len() as int) =~= v@);
    s
}

/// The characters that `char::to_uppercase` yields for `c`.
pub uninterp spec fn char_uppercase(c: char) -> Seq<char>;

/// The ASCII upper-case form of a character: `a`-`z` become `A`-`Z`, any
/// other character stays.
pub open spec fn ascii_upper(c: char) -> char {
    if 'a' <= c <= 'z' {
        ((c as u32) - 32) as char
    } else {
        c
    }
}

/// Calls `char::to_uppercase` and collects what it yields.
/// Trusted: the result is the name above applied to `c`; for an ASCII
/// character it is that character's ASCII upper-case form (an ASCII
/// lower-case letter gives the matching upper-case letter, any other ASCII
/// character has no upper-case mapping and gives itself), as std documents.
#[verifier::external_body]
pub fn uppercase(c: char) -> (r: Vec<char>)
    ensures
        r@ == char_uppercase(c),
        (c as u32) < 128 ==> r@ == seq![ascii_upper(c)],
{
    c.to_uppercase().collect()
}

/// A word with its first character upper-cased.
pub open spec fn titled(c: Seq<char>) -> Seq<char> {
    if c.len() == 0 {
        Seq::empty()
    } else {
        char_uppercase(c[0]) + c.drop_first()
    }
}

/// A word whose first character is ASCII, with that character in ASCII
/// upper case.
pub open spec fn ascii_titled(c: Seq<char>) -> Seq<char> {
    if c.len() == 0 {
        Seq::empty()
    } else {
        seq![ascii_upper(c[0])] + c.drop_first()
    }
}

/// Titling a word whose first character is ASCII keeps its length and its
/// first character ASCII, and titling it again changes nothing.
pub proof fn law_title_twice(c: Seq<char>)
    requires
        c.len() > 0 ==> (c[0] as u32) < 128,
    ensures
        ascii_titled(c).len() == c.len(),
        c.len() > 0 ==> (ascii_titled(c)[0] as u32) < 128,
        ascii_titled(ascii_titled(c)) == ascii_titled(c),
{
    if c.len() > 0 {
        let t = ascii_titled(c);
        assert(t[0] == ascii_upper(c[0]));
        assert(t.drop_first() =~= c.drop_first());
        assert(ascii_titled(t) =~= t);
    }
}

/// Upper-cases the first character of a word and keeps the rest.
/// The rest is taken from the second byte on, so the first character must be
/// a one-byte (ASCII) character.
pub fn title(c: &Vec<char>) -> (r: Vec<char>)
    requires
        c.len() > 0 ==> (c[0] as u32) < 128,
    ensures
        r@ == titled(c@),
        r@ == ascii_titled(c@),
{
    if c.len() == 0 {
        Vec::new()
    } else {
        let mut r = uppercase(c[0]);
        let mut i: usize = 1;
        while i < c.len()
            invariant
                1 <= i <= c.len(),
                r@ == char_uppercase(c@[0]) + c@.subrange(1, i as int),
            decreases c.len() - i,
        {
            r.push(c[i]);
            i += 1;
            assert(r@ =~= char_uppercase(c@[0]) + c@.subrange(1, i as int));
        }
        assert(c@.subrange(1, c.len() as int) =~= c@.drop_first());
        r
    }
}

} // verus!
