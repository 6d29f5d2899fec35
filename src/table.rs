//! The table from canonical operation names to the text type's operations,
//! and dispatch through it.
use vstd::prelude::*;
use crate::ops::{
    capitalized, copies, is_mismatch, is_text_list, lex_gt, repeat, str_add, str_capitalize,
    str_contains, str_endswith, str_eq, str_getitem, str_gt, str_hash, str_isalnum, str_isalpha,
    str_isdigit, str_len, str_lower, str_lstrip, str_mul, str_rstrip, str_split, str_startswith,
    str_strip, str_swapcase, str_title, str_upper, subscript_result, swapped, text_of, titled,
    digit_char,
};
use crate::repr::{repr_of, str_repr};
use crate::text::{
    alnum_char, alpha_char, hash_of, is_prefix, is_suffix, lower_of, occurs_in, split_of,
    trim_end_of, trim_of, trim_start_of, upper_of,
};
use crate::value::{Method, StrError, Value};

verus! {

/// The canonical name under which an operation is bound.
pub open spec fn method_name(m: Method) -> Seq<char> {
    match m {
        Method::Add => "__add__"@,
        Method::Eq => "__eq__"@,
        Method::Contains => "__contains__"@,
        Method::GetItem => "__getitem__"@,
        Method::Gt => "__gt__"@,
        Method::Hash => "__hash__"@,
        Method::Len => "__len__"@,
        Method::Mul => "__mul__"@,
        Method::New => "__new__"@,
        Method::Str => "__str__"@,
        Method::Repr => "__repr__"@,
        Method::Lower => "lower"@,
        Method::Upper => "upper"@,
        Method::Capitalize => "capitalize"@,
        Method::Split => "split"@,
        Method::Strip => "strip"@,
        Method::LStrip => "lstrip"@,
        Method::RStrip => "rstrip"@,
        Method::EndsWith => "endswith"@,
        Method::StartsWith => "startswith"@,
        Method::Title => "title"@,
        Method::SwapCase => "swapcase"@,
        Method::IsAlnum => "isalnum"@,
        Method::IsAlpha => "isalpha"@,
        Method::IsDigit => "isdigit"@,
    }
}

/// Every operation, in the order in which the table binds them.
pub open spec fn all_methods() -> Seq<Method> {
    seq![
        Method::Add, Method::Eq, Method::Contains, Method::GetItem, Method::Gt, Method::Hash,
        Method::Len, Method::Mul, Method::New, Method::Str, Method::Repr, Method::Lower,
        Method::Upper, Method::Capitalize, Method::Split, Method::Strip, Method::LStrip,
        Method::RStrip, Method::EndsWith, Method::StartsWith, Method::Title, Method::SwapCase,
        Method::IsAlnum, Method::IsAlpha, Method::IsDigit,
    ]
}

/// A table that binds each operation, in order, under its canonical name.
pub open spec fn is_method_table(t: Seq<(String, Method)>) -> bool {
    t.len() == all_methods().len() && forall|i: int|
        0 <= i < t.len() ==> (#[trigger] t[i]).1 == all_methods()[i] && t[i].0@ == method_name(
            t[i].1,
        )
}

fn bind(t: &mut Vec<(String, Method)>, name: &str, m: Method)
    requires
        name@ == method_name(m),
    ensures
        final(t)@ == old(t)@.push((final(t)@.last().0, m)),
        final(t)@.last().0@ == method_name(m),
{
    t.push((String::from_str(name), m));
}

/// Builds the text type's table of operations, once, at start-up.
pub fn init() -> (r: Vec<(String, Method)>)
    ensures
        is_method_table(r@),
{
    let mut t: Vec<(String, Method)> = Vec::new();
    bind(&mut t, "__add__", Method::Add);
    bind(&mut t, "__eq__", Method::Eq);
    bind(&mut t, "__contains__", Method::Contains);
    bind(&mut t, "__getitem__", Method::GetItem);
    bind(&mut t, "__gt__", Method::Gt);
    bind(&mut t, "__hash__", Method::Hash);
    bind(&mut t, "__len__", Method::Len);
    bind(&mut t, "__mul__", Method::Mul);
    bind(&mut t, "__new__", Method::New);
    bind(&mut t, "__str__", Method::Str);
    bind(&mut t, "__repr__", Method::Repr);
    bind(&mut t, "lower", Method::Lower);
    bind(&mut t, "upper", Method::Upper);
    bind(&mut t, "capitalize", Method::Capitalize);
    bind(&mut t, "split", Method::Split);
    bind(&mut t, "strip", Method::Strip);
    bind(&mut t, "lstrip", Method::LStrip);
    bind(&mut t, "rstrip", Method::RStrip);
    bind(&mut t, "endswith", Method::EndsWith);
    bind(&mut t, "startswith", Method::StartsWith);
    bind(&mut t, "title", Method::Title);
    bind(&mut t, "swapcase", Method::SwapCase);
    bind(&mut t, "isalnum", Method::IsAlnum);
    bind(&mut t, "isalpha", Method::IsAlpha);
    bind(&mut t, "isdigit", Method::IsDigit);
    assert(t@.len() == all_methods().len());
    t
}

/// The first operation bound under `name`, if any.
pub fn lookup(table: &Vec<(String, Method)>, name: &String) -> (r: Option<Method>)
    ensures
        match r {
            Some(m) => exists|i: int|
                0 <= i < table@.len() && #[trigger] table@[i].1 == m && table@[i].0@ == name@
                    && forall|j: int| 0 <= j < i ==> (#[trigger] table@[j]).0@ != name@,
            None => forall|i: int| 0 <= i < table@.len() ==> (#[trigger] table@[i]).0@ != name@,
        },
{
    let mut i: usize = 0;
    while i < table.len()
        invariant
            i <= table@.len(),
            forall|j: int| 0 <= j < i ==> (#[trigger] table@[j]).0@ != name@,
        decreases table@.len() - i,
    {
        if table[i].0 == *name {
            return Some(table[i].1);
        }
        i = i + 1;
    }
    None
}

/// How many arguments besides the receiver an operation takes.
pub open spec fn arity(m: Method) -> nat {
    match m {
        Method::Add | Method::Eq | Method::Contains | Method::GetItem | Method::Gt | Method::Mul
        | Method::Split | Method::EndsWith | Method::StartsWith => 1,
        _ => 0,
    }
}

/// Whether an operation wants its one argument to be a text.
pub open spec fn wants_text(m: Method) -> bool {
    m == Method::Contains || m == Method::Gt || m == Method::Split || m == Method::EndsWith
        || m == Method::StartsWith
}

/// The value that `r` holds is the text `t`.
pub open spec fn gives_text(r: &Result<Value, StrError>, t: Seq<char>) -> bool {
    r is Ok && r->Ok_0 is Str && text_of(&r->Ok_0) == t
}

/// The value that `r` holds is the boolean `b`.
pub open spec fn gives_bool(r: &Result<Value, StrError>, b: bool) -> bool {
    r matches Ok(Value::Bool(x)) && x == b
}

/// What an operation that takes no argument returns on receiver `s`.
pub open spec fn plain_result(m: Method, s: Seq<char>, r: &Result<Value, StrError>) -> bool {
    match m {
        Method::Hash => r matches Ok(Value::Int(h)) && h == hash_of(s) as int,
        Method::Len => r matches Ok(Value::Int(n)) && n == s.len(),
        Method::New => gives_text(r, Seq::empty()),
        Method::Str => gives_text(r, s),
        Method::Repr => gives_text(r, repr_of(s)),
        Method::Lower => gives_text(r, lower_of(s)),
        Method::Upper => gives_text(r, upper_of(s)),
        Method::Capitalize => gives_text(r, capitalized(s)),
        Method::Strip => gives_text(r, trim_of(s)),
        Method::LStrip => gives_text(r, trim_start_of(s)),
        Method::RStrip => gives_text(r, trim_end_of(s)),
        Method::Title => gives_text(r, titled(s)),
        Method::SwapCase => gives_text(r, swapped(s)),
        Method::IsAlnum => gives_bool(r, forall|i: int| 0 <= i < s.len() ==> alnum_char(#[trigger] s[i])),
        Method::IsAlpha => gives_bool(r, forall|i: int| 0 <= i < s.len() ==> alpha_char(#[trigger] s[i])),
        Method::IsDigit => gives_bool(r, forall|i: int| 0 <= i < s.len() ==> digit_char(#[trigger] s[i])),
        _ => false,
    }
}

/// What an operation that takes one argument returns on receiver `s` and
/// argument `b`, once a text argument is a text where one is wanted.
pub open spec fn binary_result(m: Method, s: Seq<char>, b: Value, r: &Result<Value, StrError>) -> bool {
    match m {
        Method::Add => if b is Str {
            gives_text(r, s + text_of(&b))
        } else {
            r is Err && is_mismatch(&r->Err_0, Method::Add, s, b)
        },
        Method::Eq => gives_bool(r, b is Str && text_of(&b) == s),
        Method::Contains => gives_bool(r, occurs_in(text_of(&b), s)),
        Method::GetItem => match *r {
            Ok(Value::Str(t)) => subscript_result(s, &b, &Ok(t)),
            Ok(_) => false,
            Err(e) => subscript_result(s, &b, &Err(e)),
        },
        Method::Gt => gives_bool(r, lex_gt(s, text_of(&b))),
        Method::Mul => if b is Int {
            gives_text(r, repeat(s, copies(b->Int_0)))
        } else {
            r is Err && is_mismatch(&r->Err_0, Method::Mul, s, b)
        },
        Method::Split => r is Ok && is_text_list(&r->Ok_0, split_of(s, text_of(&b))),
        Method::EndsWith => gives_bool(r, is_suffix(text_of(&b), s)),
        Method::StartsWith => gives_bool(r, is_prefix(text_of(&b), s)),
        _ => false,
    }
}

/// Calls operation `m` on a text receiver with the arguments that follow it.
/// A wrong number of arguments is an arity error; an operation that wants a
/// text argument and gets another kind reports a type mismatch that holds
/// the refused argument. Construction takes no receiver and is not called
/// through here with arguments.
pub fn call(m: Method, zelf: &String, args: Vec<Value>) -> (r: Result<Value, StrError>)
    requires
        m == Method::Mul && args@.len() == 1 && args@[0] is Int ==> zelf@.len() * copies(
            args@[0]->Int_0,
        ) <= usize::MAX,
    ensures
        args@.len() != arity(m) ==> (r matches Err(StrError::Arity { operation, given })
            && operation == m && given == args@.len()),
        args@.len() == arity(m) && arity(m) == 0 ==> plain_result(m, zelf@, &r),
        args@.len() == arity(m) && arity(m) == 1 && wants_text(m) && !(args@[0] is Str) ==> r is Err
            && is_mismatch(&r->Err_0, m, zelf@, args@[0]),
        args@.len() == arity(m) && arity(m) == 1 && !(wants_text(m) && !(args@[0] is Str))
            ==> binary_result(m, zelf@, args@[0], &r),
{
    if args.len() != arg_count(m) {
        return Err(StrError::Arity { operation: m, given: args.len() });
    }
    if args.len() == 0 {
        return Ok(call_plain(m, zelf));
    }
    let mut rest = args;
    let b = rest.remove(0);
    match m {
        Method::Add => match str_add(zelf, b) {
            Ok(t) => Ok(Value::Str(t)),
            Err(e) => Err(e),
        },
        Method::Eq => Ok(Value::Bool(str_eq(zelf, &b))),
        Method::GetItem => match str_getitem(zelf, b) {
            Ok(t) => Ok(Value::Str(t)),
            Err(e) => Err(e),
        },
        Method::Mul => match str_mul(zelf, b) {
            Ok(t) => Ok(Value::Str(t)),
            Err(e) => Err(e),
        },
        // The rest of the operations with one argument want a text.
        _ => match b {
            Value::Str(p) => Ok(call_with_text(m, zelf, &p)),
            other => Err(StrError::TypeMismatch { operation: m, receiver: zelf.clone(), operand: other }),
        },
    }
}

fn call_plain(m: Method, zelf: &String) -> (r: Value)
    requires
        arity(m) == 0,
    ensures
        plain_result(m, zelf@, &Ok(r)),
{
    match m {
        Method::Hash => Value::Int(str_hash(zelf)),
        Method::Len => Value::Int(str_len(zelf) as i128),
        Method::New => Value::Str(String::new()),
        Method::Repr => Value::Str(str_repr(zelf.as_str())),
        Method::Lower => Value::Str(str_lower(zelf)),
        Method::Upper => Value::Str(str_upper(zelf)),
        Method::Capitalize => Value::Str(str_capitalize(zelf)),
        Method::Strip => Value::Str(str_strip(zelf)),
        Method::LStrip => Value::Str(str_lstrip(zelf)),
        Method::RStrip => Value::Str(str_rstrip(zelf)),
        Method::Title => Value::Str(str_title(zelf)),
        Method::SwapCase => Value::Str(str_swapcase(zelf)),
        Method::IsAlnum => Value::Bool(str_isalnum(zelf)),
        Method::IsAlpha => Value::Bool(str_isalpha(zelf)),
        Method::IsDigit => Value::Bool(str_isdigit(zelf)),
        // What is left with no argument is `__str__`.
        _ => Value::Str(zelf.clone()),
    }
}

fn arg_count(m: Method) -> (r: usize)
    ensures
        r == arity(m),
{
    match m {
        Method::Add | Method::Eq | Method::Contains | Method::GetItem | Method::Gt | Method::Mul
        | Method::Split | Method::EndsWith | Method::StartsWith => 1,
        _ => 0,
    }
}

fn wants_text_arg(m: Method) -> (r: bool)
    ensures
        r == wants_text(m),
{
    match m {
        Method::Contains | Method::Gt | Method::Split | Method::EndsWith | Method::StartsWith => true,
        _ => false,
    }
}

fn call_with_text(m: Method, zelf: &String, pat: &String) -> (r: Value)
    requires
        wants_text(m),
    ensures
        binary_result(m, zelf@, Value::Str(*pat), &Ok(r)),
{
    match m {
        Method::Contains => Value::Bool(str_contains(zelf, pat)),
        Method::Gt => Value::Bool(str_gt(zelf, pat)),
        Method::Split => str_split(zelf, pat),
        Method::EndsWith => Value::Bool(str_endswith(zelf, pat)),
        _ => Value::Bool(str_startswith(zelf, pat)),
    }
}

} // verus!
