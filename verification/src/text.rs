use vstd::prelude::*;

verus! {

/// How often a character occurs in a line from `pos` on.
pub open spec fn count_from(line: Seq<char>, pos: int, c: char) -> nat
    decreases line.len() - pos,
{
    if 0 <= pos < line.len() {
        count_from(line, pos + 1, c) + if line[pos] == c {
            1nat
        } else {
            0nat
        }
    } else {
        0
    }
}

/// How often a character occurs in a text.
pub open spec fn occurrences(text: Seq<char>, c: char) -> nat {
    count_from(text, 0, c)
}

/// The end of the token that starts at `pos`: the index of the first
/// separator at or after `pos`, or the length of the line where none follows.
pub open spec fn token_end(line: Seq<char>, pos: int, sep: char) -> int
    decreases line.len() - pos,
{
    if 0 <= pos < line.len() && line[pos] != sep {
        token_end(line, pos + 1, sep)
    } else {
        pos
    }
}

/// `token_end` lies at or behind `pos` and within the line, no separator
/// stands before it, and one stands at it unless the line ends there.
pub proof fn lemma_token_end(line: Seq<char>, pos: int, sep: char)
    ensures
        pos <= token_end(line, pos, sep),
        pos <= line.len() ==> token_end(line, pos, sep) <= line.len(),
        forall|i: int| 0 <= pos <= i < token_end(line, pos, sep) ==> line[i] != sep,
        0 <= pos && token_end(line, pos, sep) < line.len() ==> line[token_end(line, pos, sep)]
            == sep,
    decreases line.len() - pos,
{
    if 0 <= pos < line.len() && line[pos] != sep {
        lemma_token_end(line, pos + 1, sep);
    }
}

/// Appends one character to a string: `String::push` of the standard
/// library, which adds `c` behind the last character and changes nothing else.
#[verifier::external_body]
pub(crate) fn push_char(s: &mut String, c: char)
    ensures
        final(s)@ == old(s)@.push(c),
{
    s.push(c)
}

/// The characters of a string.
pub(crate) fn chars_of(s: &str) -> (r: Vec<char>)
    ensures
        r@ == s@,
{
    let mut v: Vec<char> = Vec::new();
    for c in it: s.chars()
        invariant
            v@ == it.seq().take(it.index() as int),
            it.seq() == s@,
    {
        v.push(c);
    }
    v
}

/// The string made of the characters `from..to` of `chars`.
pub(crate) fn text_of(chars: &Vec<char>, from: usize, to: usize) -> (r: String)
    requires
        from <= to <= chars.len(),
    ensures
        r@ == chars@.subrange(from as int, to as int),
{
    let mut s = String::new();
    let mut i: usize = from;
    while i < to
        invariant
            from <= i <= to <= chars.len(),
            s@ == chars@.subrange(from as int, i as int),
        decreases to - i,
    {
        push_char(&mut s, chars[i]);
        i += 1;
    }
    s
}

/// Whether a string is the given text.
pub(crate) fn is_text(s: &String, text: &str) -> (b: bool)
    ensures
        b == (s@ == text@),
{
    let t = text.to_owned();
    *s == t
}

/// The index of the first separator at or after `from`, or the length of the
/// line.
pub(crate) fn find_token_end(line: &Vec<char>, from: usize, sep: char) -> (end: usize)
    requires
        from <= line.len(),
    ensures
        end == token_end(line@, from as int, sep),
        from <= end <= line.len(),
{
    let mut i: usize = from;
    while i < line.len() && line[i] != sep
        invariant
            from <= i <= line.len(),
            token_end(line@, from as int, sep) == token_end(line@, i as int, sep),
        decreases line.len() - i,
    {
        i += 1;
    }
    i
}

/// The character of a decimal digit.
pub open spec fn digit_char(d: nat) -> char {
    if d == 0 {
        '0'
    } else if d == 1 {
        '1'
    } else if d == 2 {
        '2'
    } else if d == 3 {
        '3'
    } else if d == 4 {
        '4'
    } else if d == 5 {
        '5'
    } else if d == 6 {
        '6'
    } else if d == 7 {
        '7'
    } else if d == 8 {
        '8'
    } else {
        '9'
    }
}

/// A number in decimal digits, without leading zeros.
pub open spec fn decimal_text(n: nat) -> Seq<char>
    decreases n,
{
    if n < 10 {
        seq![digit_char(n)]
    } else {
        decimal_text(n / 10).push(digit_char(n % 10))
    }
}

/// The character of a decimal digit.
fn digit(d: u64) -> (c: char)
    requires
        d < 10,
    ensures
        c == digit_char(d as nat),
{
    if d == 0 {
        '0'
    } else if d == 1 {
        '1'
    } else if d == 2 {
        '2'
    } else if d == 3 {
        '3'
    } else if d == 4 {
        '4'
    } else if d == 5 {
        '5'
    } else if d == 6 {
        '6'
    } else if d == 7 {
        '7'
    } else if d == 8 {
        '8'
    } else {
        '9'
    }
}

/// Writes a number in decimal digits.
pub(crate) fn decimal_string(n: u64) -> (r: String)
    ensures
        r@ == decimal_text(n as nat),
    decreases n,
{
    if n < 10 {
        let mut s = String::new();
        push_char(&mut s, digit(n));
        assert(s@ =~= seq![digit_char(n as nat)]);
        s
    } else {
        let mut s = decimal_string(n / 10);
        push_char(&mut s, digit(n % 10));
        s
    }
}

} // verus!
