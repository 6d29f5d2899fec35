//! The operations bound for the text type.
use vstd::prelude::*;
use crate::sequence::{
    do_slice, do_stepped_slice, index_target, resolve_index, resolve_slice, slice_start,
    slice_step, slice_stop, step_valid, stepped,
};
use crate::text::{
    alnum_char, alpha_char, char_lower_of, char_to_lower, char_to_upper,
    char_upper_of, chars_of, contains, contents, joined, default_hash, ends_with, hash_of, is_alnum, is_alpha,
    is_lower, is_prefix, is_suffix, is_upper, lower_char, lower_of, occurs_in, split, split_of,
    starts_with, string_of, to_lower, to_upper, trim, trim_end, trim_end_of, trim_of,
    trim_start, trim_start_of, upper_char, upper_of,
};
use crate::value::{Method, StrError, Value};

verus! {

/// The content of a text value; empty for any other kind.
pub open spec fn text_of(v: &Value) -> Seq<char> {
    match v {
        Value::Str(s) => s@,
        _ => Seq::empty(),
    }
}

/// `e` reports operand `v` refused by operation `m` on receiver `a`.
pub open spec fn is_mismatch(e: &StrError, m: Method, a: Seq<char>, v: Value) -> bool {
    match e {
        StrError::TypeMismatch { operation, receiver, operand } => *operation == m && receiver@
            == a && *operand == v,
        _ => false,
    }
}

/// The content of a text value.
pub fn get_value(obj: &Value) -> (r: String)
    requires
        obj is Str,
    ensures
        r@ == text_of(obj),
{
    match obj {
        Value::Str(s) => s.clone(),
        _ => String::new(),
    }
}

/// Equality with any value: true exactly for a text of the same content.
pub fn str_eq(a: &String, b: &Value) -> (r: bool)
    ensures
        r == (b is Str && text_of(b) == a@),
{
    match b {
        Value::Str(s) => *a == *s,
        _ => false,
    }
}

/// Lexicographic "greater than" over characters.
pub open spec fn lex_gt(a: Seq<char>, b: Seq<char>) -> bool
    decreases a.len(),
{
    if a.len() == 0 {
        false
    } else if b.len() == 0 {
        true
    } else if a[0] != b[0] {
        (a[0] as u32) > (b[0] as u32)
    } else {
        lex_gt(a.drop_first(), b.drop_first())
    }
}

/// Whether `a` orders after `b`.
pub fn str_gt(a: &String, b: &String) -> (r: bool)
    ensures
        r == lex_gt(a@, b@),
{
    let x = chars_of(a.as_str());
    let y = chars_of(b.as_str());
    let mut i: usize = 0;
    assert(x@.skip(0) =~= x@);
    assert(y@.skip(0) =~= y@);
    while i < x.len() && i < y.len()
        invariant
            i <= x@.len(),
            i <= y@.len(),
            x@ == a@,
            y@ == b@,
            lex_gt(a@, b@) == lex_gt(x@.skip(i as int), y@.skip(i as int)),
        decreases x@.len() - i,
    {
        if x[i] != y[i] {
            return (x[i] as u32) > (y[i] as u32);
        }
        assert(x@.skip(i as int).drop_first() =~= x@.skip(i + 1));
        assert(y@.skip(i as int).drop_first() =~= y@.skip(i + 1));
        i = i + 1;
    }
    x.len() > i
}

/// The receiver itself.
pub fn str_str(s: &String) -> (r: String)
    ensures
        r == *s,
{
    s.clone()
}

/// Concatenation with another text; any other operand is a type mismatch.
pub fn str_add(a: &String, b: Value) -> (r: Result<String, StrError>)
    ensures
        match r {
            Ok(t) => b is Str && t@ == a@ + text_of(&b),
            Err(e) => !(b is Str) && is_mismatch(&e, Method::Add, a@, b),
        },
{
    match b {
        Value::Str(s) => {
            let mut t = a.clone();
            t.append(s.as_str());
            Ok(t)
        },
        other => Err(StrError::TypeMismatch { operation: Method::Add, receiver: a.clone(), operand: other }),
    }
}

/// The hash of the content, widened to the runtime's integer width.
pub fn str_hash(a: &String) -> (r: i128)
    ensures
        r == hash_of(a@) as int,
{
    default_hash(a) as i128
}

/// The number of characters. Length is counted in decoded characters, the
/// same unit in which indexing, slicing and the predicates go.
pub fn str_len(a: &String) -> (r: usize)
    ensures
        r == a@.len(),
{
    a.as_str().unicode_len()
}

/// `s` written `n` times in a row.
pub open spec fn repeat(s: Seq<char>, n: nat) -> Seq<char>
    decreases n,
{
    if n == 0 {
        Seq::empty()
    } else {
        repeat(s, (n - 1) as nat) + s
    }
}

/// How many copies a multiplication by an integer asks for: none for a
/// count that is not positive.
pub open spec fn copies(n: i128) -> nat {
    if n > 0 { n as nat } else { 0 }
}

/// Repetition by an integer count; a count that is not positive (negative
/// ones included) gives the empty text, and an operand that is not an
/// integer is a type mismatch.
pub fn str_mul(a: &String, b: Value) -> (r: Result<String, StrError>)
    requires
        b is Int ==> a@.len() * copies(b->Int_0) <= usize::MAX,
    ensures
        match r {
            Ok(t) => b is Int && t@ == repeat(a@, copies(b->Int_0)),
            Err(e) => !(b is Int) && is_mismatch(&e, Method::Mul, a@, b),
        },
{
    match b {
        Value::Int(n) => {
            let mut out = String::new();
            if a.as_str().unicode_len() == 0 || n <= 0 {
                proof { lemma_repeat_len(a@, copies(n)); }
                assert(out@ =~= repeat(a@, copies(n)));
                return Ok(out);
            }
            let mut k: i128 = 0;
            while k < n
                invariant
                    0 <= k <= n,
                    a@.len() * (n as int) <= usize::MAX,
                    out@ == repeat(a@, k as nat),
                decreases n - k,
            {
                out.append(a.as_str());
                k = k + 1;
                assert(out@ == repeat(a@, k as nat));
            }
            Ok(out)
        },
        other => Err(StrError::TypeMismatch { operation: Method::Mul, receiver: a.clone(), operand: other }),
    }
}

/// Repeating a text `n` times multiplies its length by `n`; repeating it
/// no times gives the empty text.
pub proof fn lemma_repeat_len(s: Seq<char>, n: nat)
    ensures
        repeat(s, n).len() == s.len() * n,
        repeat(s, 0) == Seq::<char>::empty(),
    decreases n,
{
    if n > 0 {
        lemma_repeat_len(s, (n - 1) as nat);
        assert(s.len() * (n - 1) + s.len() == s.len() * n) by (nonlinear_arith);
    }
}

/// Multiplying a text by a count that is not negative gives a text whose
/// length is the text's length times the count; by zero, the empty text.
pub proof fn lemma_mul_length(s: Seq<char>, n: i128)
    requires
        n >= 0,
    ensures
        repeat(s, copies(n)).len() == s.len() * n,
        repeat(s, copies(0)) == Seq::<char>::empty(),
{
    lemma_repeat_len(s, copies(n));
    lemma_repeat_len(s, 0);
}

/// The text in upper case.
pub fn str_upper(s: &String) -> (r: String)
    ensures
        r@ == upper_of(s@),
{
    to_upper(s.as_str())
}

/// The text in lower case.
pub fn str_lower(s: &String) -> (r: String)
    ensures
        r@ == lower_of(s@),
{
    to_lower(s.as_str())
}

/// The first character upper-cased, the rest unchanged.
pub open spec fn capitalized(s: Seq<char>) -> Seq<char> {
    if s.len() == 0 {
        Seq::empty()
    } else {
        char_upper_of(s[0]) + s.drop_first()
    }
}

/// The text with its first character upper-cased and the rest unchanged.
pub fn str_capitalize(s: &String) -> (r: String)
    ensures
        r@ == capitalized(s@),
{
    let chars = chars_of(s.as_str());
    if chars.len() == 0 {
        return String::new();
    }
    let mut out = char_to_upper(chars[0]);
    let mut i: usize = 1;
    while i < chars.len()
        invariant
            1 <= i <= chars@.len(),
            chars@ == s@,
            out@ == char_upper_of(s@[0]) + s@.subrange(1, i as int),
        decreases chars@.len() - i,
    {
        out.push(chars[i]);
        i = i + 1;
        assert(out@ =~= char_upper_of(s@[0]) + s@.subrange(1, i as int));
    }
    assert(s@.subrange(1, i as int) =~= s@.drop_first());
    string_of(&out)
}

/// `v` is a list of texts whose contents are `p`, in order.
pub open spec fn is_text_list(v: &Value, p: Seq<Seq<char>>) -> bool {
    match v {
        Value::List(items) => items@.len() == p.len() && forall|i: int|
            0 <= i < p.len() ==> #[trigger] items@[i] is Str && text_of(&items@[i]) == p[i],
        _ => false,
    }
}

/// The pieces of the text between occurrences of a separator, as a list.
pub fn str_split(s: &String, pat: &String) -> (r: Value)
    ensures
        is_text_list(&r, split_of(s@, pat@)),
        split_of(s@, pat@).len() >= 1,
        pat@.len() > 0 ==> joined(split_of(s@, pat@), pat@) == s@,
        pat@.len() > 0 ==> forall|i: int|
            0 <= i < split_of(s@, pat@).len() ==> !occurs_in(pat@, #[trigger] split_of(s@, pat@)[i]),
{
    let pieces = split(s.as_str(), pat.as_str());
    let mut items: Vec<Value> = Vec::new();
    let mut i: usize = 0;
    while i < pieces.len()
        invariant
            i <= pieces@.len(),
            contents(pieces@) == split_of(s@, pat@),
            items@.len() == i,
            forall|j: int| 0 <= j < i ==> #[trigger] items@[j] is Str && text_of(&items@[j])
                == split_of(s@, pat@)[j],
        decreases pieces@.len() - i,
    {
        assert(pieces@[i as int]@ == split_of(s@, pat@)[i as int]);
        items.push(Value::Str(pieces[i].clone()));
        i = i + 1;
    }
    assert forall|i: int| 0 <= i < split_of(s@, pat@).len() implies split_of(s@, pat@)[i]
        == #[trigger] pieces@[i]@ by {
        assert(contents(pieces@)[i] == pieces@[i]@);
    }
    Value::List(items)
}

/// The text without leading and trailing white space.
pub fn str_strip(s: &String) -> (r: String)
    ensures
        r@ == trim_of(s@),
{
    trim(s.as_str())
}

/// The text without leading white space.
pub fn str_lstrip(s: &String) -> (r: String)
    ensures
        r@ == trim_start_of(s@),
{
    trim_start(s.as_str())
}

/// The text without trailing white space.
pub fn str_rstrip(s: &String) -> (r: String)
    ensures
        r@ == trim_end_of(s@),
{
    trim_end(s.as_str())
}

/// Whether the text ends with `pat`.
pub fn str_endswith(s: &String, pat: &String) -> (r: bool)
    ensures
        r == is_suffix(pat@, s@),
{
    ends_with(s.as_str(), pat.as_str())
}

/// Whether the text starts with `pat`.
pub fn str_startswith(s: &String, pat: &String) -> (r: bool)
    ensures
        r == is_prefix(pat@, s@),
{
    starts_with(s.as_str(), pat.as_str())
}

/// Whether `needle` occurs in the text.
pub fn str_contains(s: &String, needle: &String) -> (r: bool)
    ensures
        r == occurs_in(needle@, s@),
{
    contains(s.as_str(), needle.as_str())
}

/// Texts of equal content hash alike: the hash is a function of the content.
pub proof fn lemma_hash_follows_content(a: &String, b: &String)
    requires
        a@ == b@,
    ensures
        hash_of(a@) as int == hash_of(b@) as int,
{
}

/// One character with its case swapped: a lower-case character is
/// upper-cased, an upper-case one lower-cased, any other stays.
pub open spec fn swap_piece(c: char) -> Seq<char> {
    if lower_char(c) {
        char_upper_of(c)
    } else if upper_char(c) {
        char_lower_of(c)
    } else {
        seq![c]
    }
}

/// The text with the case of each character swapped.
pub open spec fn swapped(s: Seq<char>) -> Seq<char>
    decreases s.len(),
{
    if s.len() == 0 {
        Seq::empty()
    } else {
        swapped(s.drop_last()) + swap_piece(s.last())
    }
}

/// The text with the case of each character swapped.
pub fn str_swapcase(s: &String) -> (r: String)
    ensures
        r@ == swapped(s@),
{
    let chars = chars_of(s.as_str());
    let mut out: Vec<char> = Vec::new();
    let mut i: usize = 0;
    assert(s@.subrange(0, 0) =~= Seq::<char>::empty());
    while i < chars.len()
        invariant
            i <= chars@.len(),
            chars@ == s@,
            out@ == swapped(s@.subrange(0, i as int)),
        decreases chars@.len() - i,
    {
        let c = chars[i];
        assert(s@.subrange(0, i + 1).drop_last() =~= s@.subrange(0, i as int));
        if is_lower(c) {
            let mut piece = char_to_upper(c);
            out.append(&mut piece);
        } else if is_upper(c) {
            let mut piece = char_to_lower(c);
            out.append(&mut piece);
        } else {
            out.push(c);
        }
        i = i + 1;
        assert(out@ =~= swapped(s@.subrange(0, i as int)));
    }
    assert(s@.subrange(0, i as int) =~= s@);
    string_of(&out)
}

/// What title casing makes of the character at `i`: a space stays, the first
/// character of a space-separated word is upper-cased, the others lower-cased.
pub open spec fn title_piece(s: Seq<char>, i: int) -> Seq<char> {
    if s[i] == ' ' {
        seq![' ']
    } else if i == 0 || s[i - 1] == ' ' {
        char_upper_of(s[i])
    } else {
        char_lower_of(s[i])
    }
}

/// The title-cased text.
pub open spec fn titled(s: Seq<char>) -> Seq<char>
    decreases s.len(),
{
    if s.len() == 0 {
        Seq::empty()
    } else {
        titled(s.drop_last()) + title_piece(s, s.len() - 1)
    }
}

/// The text with each space-separated word upper-cased at its first
/// character and lower-cased after it; the spaces stay as they are.
pub fn str_title(s: &String) -> (r: String)
    ensures
        r@ == titled(s@),
{
    let chars = chars_of(s.as_str());
    let mut out: Vec<char> = Vec::new();
    let mut i: usize = 0;
    let mut word_start = true;
    assert(s@.subrange(0, 0) =~= Seq::<char>::empty());
    while i < chars.len()
        invariant
            i <= chars@.len(),
            chars@ == s@,
            out@ == titled(s@.subrange(0, i as int)),
            word_start == (i == 0 || s@[i - 1] == ' '),
        decreases chars@.len() - i,
    {
        let c = chars[i];
        let ghost pre = s@.subrange(0, i + 1);
        assert(pre.drop_last() =~= s@.subrange(0, i as int));
        assert(title_piece(pre, i as int) == title_piece(s@, i as int));
        if c == ' ' {
            out.push(' ');
            word_start = true;
        } else {
            let mut piece = if word_start { char_to_upper(c) } else { char_to_lower(c) };
            out.append(&mut piece);
            word_start = false;
        }
        i = i + 1;
        assert(out@ =~= titled(s@.subrange(0, i as int)));
    }
    assert(s@.subrange(0, i as int) =~= s@);
    string_of(&out)
}

/// Whether every character is alphanumeric; true of the empty text.
pub fn str_isalnum(s: &String) -> (r: bool)
    ensures
        r == forall|i: int| 0 <= i < s@.len() ==> alnum_char(#[trigger] s@[i]),
{
    let chars = chars_of(s.as_str());
    let mut i: usize = 0;
    while i < chars.len()
        invariant
            i <= chars@.len(),
            chars@ == s@,
            forall|j: int| 0 <= j < i ==> alnum_char(#[trigger] s@[j]),
        decreases chars@.len() - i,
    {
        if !is_alnum(chars[i]) {
            return false;
        }
        i = i + 1;
    }
    true
}

/// Whether every character is alphabetic; true of the empty text.
pub fn str_isalpha(s: &String) -> (r: bool)
    ensures
        r == forall|i: int| 0 <= i < s@.len() ==> alpha_char(#[trigger] s@[i]),
{
    let chars = chars_of(s.as_str());
    let mut i: usize = 0;
    while i < chars.len()
        invariant
            i <= chars@.len(),
            chars@ == s@,
            forall|j: int| 0 <= j < i ==> alpha_char(#[trigger] s@[j]),
        decreases chars@.len() - i,
    {
        if !is_alpha(chars[i]) {
            return false;
        }
        i = i + 1;
    }
    true
}

/// A superscript digit, from superscript zero to superscript nine.
pub open spec fn superscript_digit(c: char) -> bool {
    c == '\u{2070}' || c == '\u{b9}' || c == '\u{b2}' || c == '\u{b3}' || c == '\u{2074}'
        || c == '\u{2075}' || c == '\u{2076}' || c == '\u{2077}' || c == '\u{2078}'
        || c == '\u{2079}'
}

/// An ASCII decimal digit or a superscript digit.
pub open spec fn digit_char(c: char) -> bool {
    ('0' <= c <= '9') || superscript_digit(c)
}

/// Whether every character is a decimal or superscript digit; true of the
/// empty text.
pub fn str_isdigit(s: &String) -> (r: bool)
    ensures
        r == forall|i: int| 0 <= i < s@.len() ==> digit_char(#[trigger] s@[i]),
{
    let chars = chars_of(s.as_str());
    let mut i: usize = 0;
    while i < chars.len()
        invariant
            i <= chars@.len(),
            chars@ == s@,
            forall|j: int| 0 <= j < i ==> digit_char(#[trigger] s@[j]),
        decreases chars@.len() - i,
    {
        let c = chars[i];
        let is_digit = ('0' <= c && c <= '9') || c == '\u{2070}' || c == '\u{b9}' || c == '\u{b2}'
            || c == '\u{b3}' || c == '\u{2074}' || c == '\u{2075}' || c == '\u{2076}'
            || c == '\u{2077}' || c == '\u{2078}' || c == '\u{2079}';
        if !is_digit {
            assert(!digit_char(s@[i as int]));
            return false;
        }
        i = i + 1;
    }
    true
}

/// What indexing text `s` by `b` gives: one character for an integer index
/// inside the text, the stepped part for a slice with a positive step, and
/// the matching error otherwise.
pub open spec fn subscript_result(s: Seq<char>, b: &Value, r: &Result<String, StrError>) -> bool {
    match b {
        Value::Int(i) => match index_target(s.len() as int, *i as int) {
            Some(k) => r is Ok && r->Ok_0@ == seq![s[k]],
            None => r is Err && r->Err_0 is IndexOutOfRange,
        },
        Value::Slice { start, stop, step } => if step_valid(*step) {
            r is Ok && r->Ok_0@ == stepped(
                s,
                slice_start(s.len() as int, *start),
                slice_stop(s.len() as int, *start, *stop),
                slice_step(*step),
            )
        } else {
            r is Err && r->Err_0 is InvalidStep
        },
        _ => r is Err && is_mismatch(&r->Err_0, Method::GetItem, s, *b),
    }
}

/// Indexes a text by an integer (negative counts from the end) or by a slice,
/// both in characters. Any other kind of index is a catchable type mismatch.
pub fn subscript(value: &String, b: Value) -> (r: Result<String, StrError>)
    ensures
        subscript_result(value@, &b, &r),
{
    let chars = chars_of(value.as_str());
    match b {
        Value::Int(i) => {
            let k = resolve_index(chars.len(), i)?;
            let one: Vec<char> = vec![chars[k]];
            assert(one@ =~= seq![value@[k as int]]);
            Ok(string_of(&one))
        },
        Value::Slice { start, stop, step } => {
            let (a, z, k) = resolve_slice(chars.len(), start, stop, step)?;
            let part = if k == 1 {
                let part = do_slice(&chars, a, z);
                assert(part@ =~= stepped(chars@, a as int, z as int, 1));
                part
            } else {
                do_stepped_slice(&chars, a, z, k)
            };
            Ok(string_of(&part))
        },
        other => Err(StrError::TypeMismatch { operation: Method::GetItem, receiver: value.clone(), operand: other }),
    }
}

/// Indexes the receiver by an integer or a slice.
pub fn str_getitem(s: &String, needle: Value) -> (r: Result<String, StrError>)
    ensures
        subscript_result(s@, &needle, &r),
{
    subscript(s, needle)
}

/// Constructs a text from the arguments after the type, each already turned
/// into text by the runtime: none gives the empty text, one gives its text,
/// more are refused.
pub fn str_new(args: &Vec<String>) -> (r: Result<String, StrError>)
    ensures
        args@.len() == 0 ==> r is Ok && r->Ok_0@ == Seq::<char>::empty(),
        args@.len() == 1 ==> r is Ok && r->Ok_0@ == args@[0]@,
        args@.len() > 1 ==> (r matches Err(StrError::Arity { operation: Method::New, given })
            && given == args@.len()),
{
    if args.len() == 0 {
        Ok(String::new())
    } else if args.len() == 1 {
        Ok(args[0].clone())
    } else {
        Err(StrError::Arity { operation: Method::New, given: args.len() })
    }
}

} // verus!
