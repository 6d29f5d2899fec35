//! The quoted, escaped form of a text, and what decoding it gives back.
use vstd::prelude::*;
use crate::text::{chars_of, string_of};

verus! {

/// How often `c` occurs in `s`.
pub open spec fn count_of(s: Seq<char>, c: char) -> nat
    decreases s.len(),
{
    if s.len() == 0 {
        0
    } else {
        count_of(s.drop_last(), c) + if s.last() == c { 1nat } else { 0nat }
    }
}

/// The delimiter: a double quote when single quotes outnumber double quotes,
/// a single quote otherwise.
pub open spec fn quote_for(s: Seq<char>) -> char {
    if count_of(s, '\'') > count_of(s, '"') { '"' } else { '\'' }
}

/// The escaped form of one character inside delimiter `q`.
pub open spec fn escape_char(c: char, q: char) -> Seq<char> {
    if c == q || c == '\\' {
        seq!['\\', c]
    } else if c == '\n' {
        seq!['\\', 'n']
    } else if c == '\t' {
        seq!['\\', 't']
    } else if c == '\r' {
        seq!['\\', 'r']
    } else {
        seq![c]
    }
}

/// The escaped form of a text inside delimiter `q`.
pub open spec fn escape(s: Seq<char>, q: char) -> Seq<char>
    decreases s.len(),
{
    if s.len() == 0 {
        Seq::empty()
    } else {
        escape_char(s[0], q) + escape(s.drop_first(), q)
    }
}

/// The representation: delimiter, escaped content, delimiter.
pub open spec fn repr_of(s: Seq<char>) -> Seq<char> {
    seq![quote_for(s)] + escape(s, quote_for(s)) + seq![quote_for(s)]
}

/// The character that a backslash followed by `c` stands for.
pub open spec fn unescape_char(c: char) -> char {
    if c == 'n' {
        '\n'
    } else if c == 't' {
        '\t'
    } else if c == 'r' {
        '\r'
    } else {
        c
    }
}

/// Decodes the escapes of an escaped text.
pub open spec fn unescape(t: Seq<char>) -> Seq<char>
    decreases t.len(),
{
    if t.len() == 0 {
        Seq::empty()
    } else if t[0] == '\\' && t.len() >= 2 {
        seq![unescape_char(t[1])] + unescape(t.subrange(2, t.len() as int))
    } else {
        seq![t[0]] + unescape(t.drop_first())
    }
}

/// Decodes a representation: drops the delimiters and decodes the escapes.
pub open spec fn decode_repr(t: Seq<char>) -> Seq<char> {
    unescape(t.subrange(1, t.len() - 1))
}

proof fn lemma_escape_push(s: Seq<char>, c: char, q: char)
    ensures
        escape(s.push(c), q) == escape(s, q) + escape_char(c, q),
    decreases s.len(),
{
    if s.len() == 0 {
        assert(s.push(c).drop_first() =~= Seq::<char>::empty());
        assert(escape(s.push(c).drop_first(), q) == Seq::<char>::empty());
        assert(s.push(c)[0] == c);
        assert(escape(s.push(c), q) =~= escape_char(c, q));
    } else {
        assert(s.push(c).drop_first() =~= s.drop_first().push(c));
        lemma_escape_push(s.drop_first(), c, q);
        assert(escape(s.push(c), q) =~= escape(s, q) + escape_char(c, q));
    }
}

proof fn lemma_count_push(s: Seq<char>, c: char, x: char)
    ensures
        count_of(s.push(x), c) == count_of(s, c) + if x == c { 1nat } else { 0nat },
{
    assert(s.push(x).drop_last() =~= s);
}

proof fn lemma_unescape_escape(s: Seq<char>, q: char)
    requires
        q == '\'' || q == '"',
    ensures
        unescape(escape(s, q)) == s,
    decreases s.len(),
{
    if s.len() > 0 {
        let c = s[0];
        let rest = escape(s.drop_first(), q);
        lemma_unescape_escape(s.drop_first(), q);
        let t = escape_char(c, q) + rest;
        if escape_char(c, q).len() == 2 {
            assert(t.subrange(2, t.len() as int) =~= rest);
        } else {
            assert(t.drop_first() =~= rest);
        }
        assert(unescape(t) =~= s);
    }
}

/// Decoding the representation of a text gives the text back, whatever
/// quotes, backslashes and control characters it holds.
pub proof fn lemma_repr_round_trip(s: Seq<char>)
    ensures
        decode_repr(repr_of(s)) == s,
{
    let q = quote_for(s);
    let t = repr_of(s);
    assert(t.subrange(1, t.len() - 1) =~= escape(s, q));
    lemma_unescape_escape(s, q);
}

/// How often `c` occurs in `s`.
pub fn count_char(s: &Vec<char>, c: char) -> (r: usize)
    ensures
        r == count_of(s@, c),
{
    let mut n: usize = 0;
    let mut i: usize = 0;
    while i < s.len()
        invariant
            i <= s@.len(),
            n == count_of(s@.subrange(0, i as int), c),
            n <= i,
        decreases s@.len() - i,
    {
        proof {
            assert(s@.subrange(0, i + 1) =~= s@.subrange(0, i as int).push(s@[i as int]));
            lemma_count_push(s@.subrange(0, i as int), c, s@[i as int]);
        }
        if s[i] == c {
            n = n + 1;
        }
        i = i + 1;
    }
    assert(s@.subrange(0, i as int) =~= s@);
    n
}

/// The quoted, escaped representation of a text.
pub fn str_repr(value: &str) -> (r: String)
    ensures
        r@ == repr_of(value@),
{
    let chars = chars_of(value);
    let quote: char = if count_char(&chars, '\'') > count_char(&chars, '"') { '"' } else { '\'' };
    let mut out: Vec<char> = Vec::new();
    out.push(quote);
    let mut i: usize = 0;
    assert(chars@.subrange(0, 0) =~= Seq::<char>::empty());
    while i < chars.len()
        invariant
            i <= chars@.len(),
            chars@ == value@,
            quote == quote_for(value@),
            out@ == seq![quote] + escape(chars@.subrange(0, i as int), quote),
        decreases chars@.len() - i,
    {
        let c = chars[i];
        proof {
            assert(chars@.subrange(0, i + 1) =~= chars@.subrange(0, i as int).push(c));
            lemma_escape_push(chars@.subrange(0, i as int), c, quote);
        }
        if c == quote || c == '\\' {
            out.push('\\');
            out.push(c);
        } else if c == '\n' {
            out.push('\\');
            out.push('n');
        } else if c == '\t' {
            out.push('\\');
            out.push('t');
        } else if c == '\r' {
            out.push('\\');
            out.push('r');
        } else {
            out.push(c);
        }
        i = i + 1;
        assert(out@ =~= seq![quote] + escape(chars@.subrange(0, i as int), quote));
    }
    out.push(quote);
    assert(chars@.subrange(0, i as int) =~= value@);
    assert(out@ =~= repr_of(value@));
    string_of(&out)
}

} // verus!
