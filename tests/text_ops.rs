use objstr::ops::{
    get_value, str_add, str_capitalize, str_contains, str_endswith, str_eq, str_getitem, str_gt,
    str_hash, str_isalnum, str_isalpha, str_isdigit, str_len, str_lower, str_lstrip, str_mul,
    str_new, str_rstrip, str_split, str_startswith, str_str, str_strip, str_swapcase, str_title,
    str_upper, subscript,
};
use objstr::repr::{count_char, str_repr};
use objstr::sequence::{do_slice, do_stepped_slice, resolve_index, resolve_slice};
use objstr::table::{call, init, lookup};
use objstr::value::{Method, StrError, Value};

fn s(t: &str) -> String {
    t.to_string()
}

fn text(v: &Value) -> String {
    match v {
        Value::Str(t) => t.clone(),
        _ => panic!("not a text"),
    }
}

/// Decodes the escapes of a representation, delimiters dropped.
fn decode(r: &str) -> String {
    let inner: Vec<char> = r.chars().collect();
    let inner = &inner[1..inner.len() - 1];
    let mut out = String::new();
    let mut i = 0;
    while i < inner.len() {
        if inner[i] == '\\' && i + 1 < inner.len() {
            out.push(match inner[i + 1] {
                'n' => '\n',
                't' => '\t',
                'r' => '\r',
                c => c,
            });
            i += 2;
        } else {
            out.push(inner[i]);
            i += 1;
        }
    }
    out
}

#[test]
fn equal_compares_content() {
    assert!(str_eq(&s("abc"), &Value::Str(s("abc"))));
    assert!(!str_eq(&s("abc"), &Value::Str(s("abd"))));
    assert!(!str_eq(&s("5"), &Value::Int(5)));
    assert!(!str_eq(&s(""), &Value::Bool(false)));
}

#[test]
fn hash_follows_content() {
    let a = s("hello");
    let b = format!("hel{}", "lo");
    assert_eq!(str_hash(&a), str_hash(&b));
    assert_eq!(str_hash(&a), str_hash(&a));
    assert!(str_hash(&a) >= 0);
}

#[test]
fn repr_round_trips() {
    for t in ["", "plain", "it's", "He said \"hi\"", "both ' and \" and \\", "a\nb\tc\rd", "\u{e9}\u{4e2d}"] {
        let r = str_repr(t);
        assert_eq!(decode(&r), t);
    }
}

#[test]
fn repr_picks_delimiter() {
    assert_eq!(str_repr("it's"), "\"it's\"");
    assert_eq!(str_repr("He said \"hi\""), "'He said \"hi\"'");
    assert_eq!(str_repr("ab"), "'ab'");
    assert_eq!(str_repr("'\""), "'\\'\"'");
    assert_eq!(str_repr("a\\b\n"), "'a\\\\b\\n'");
    assert_eq!(count_char(&vec!['a', '\'', '\''], '\''), 2);
}

#[test]
fn multiply_repeats() {
    let r = str_mul(&s("ab"), Value::Int(3)).ok().unwrap();
    assert_eq!(r, "ababab");
    assert_eq!(r.len(), 2 * 3);
    assert_eq!(str_mul(&s("ab"), Value::Int(0)).ok().unwrap(), "");
    assert_eq!(str_mul(&s("ab"), Value::Int(-2)).ok().unwrap(), "");
    match str_mul(&s("ab"), Value::Str(s("x"))) {
        Err(StrError::TypeMismatch { operation, receiver, operand }) => {
            assert_eq!(operation, Method::Mul);
            assert_eq!(receiver, "ab");
            assert!(matches!(operand, Value::Str(ref t) if t == "x"));
        }
        _ => panic!("expected a type mismatch"),
    }
}

#[test]
fn resolve_index_normalizes() {
    assert_eq!(resolve_index(5, 0).ok(), Some(0));
    assert_eq!(resolve_index(5, 4).ok(), Some(4));
    assert_eq!(resolve_index(5, -1).ok(), Some(4));
    assert_eq!(resolve_index(5, -5).ok(), Some(0));
    assert!(matches!(resolve_index(5, 5), Err(StrError::IndexOutOfRange)));
    assert!(matches!(resolve_index(5, -6), Err(StrError::IndexOutOfRange)));
    assert!(matches!(resolve_index(0, 0), Err(StrError::IndexOutOfRange)));
}

#[test]
fn resolve_slice_clamps() {
    assert_eq!(resolve_slice(5, None, None, None).ok(), Some((0, 5, 1)));
    assert_eq!(resolve_slice(5, Some(-2), Some(100), Some(2)).ok(), Some((3, 5, 2)));
    assert_eq!(resolve_slice(5, Some(-100), Some(-1), None).ok(), Some((0, 4, 1)));
    assert_eq!(resolve_slice(5, Some(4), Some(1), None).ok(), Some((4, 4, 1)));
    assert!(matches!(resolve_slice(5, None, None, Some(0)), Err(StrError::InvalidStep)));
    assert!(matches!(resolve_slice(5, None, None, Some(-1)), Err(StrError::InvalidStep)));
}

#[test]
fn stepped_takes_every_other() {
    let v = vec!['a', 'b', 'c', 'd', 'e'];
    assert_eq!(do_stepped_slice(&v, 0, 5, 2), vec!['a', 'c', 'e']);
    let w = vec!['a', 'b', 'c', 'd'];
    assert_eq!(do_stepped_slice(&w, 0, 4, 2), vec!['a', 'c']);
    assert_eq!(do_stepped_slice(&w, 1, 4, 5), vec!['b']);
    assert_eq!(do_slice(&w, 1, 3), vec!['b', 'c']);
    let r = subscript(&s("hello"), Value::Slice { start: None, stop: None, step: Some(2) });
    assert_eq!(r.ok().unwrap(), "hlo");
}

#[test]
fn isdigit_cases() {
    assert!(str_isdigit(&s("")));
    assert!(str_isdigit(&s("5\u{00B9}")));
    assert!(!str_isdigit(&s("5a")));
    assert!(str_isdigit(&s("0123456789\u{2070}\u{b2}\u{b3}\u{2074}\u{2079}")));
    assert!(!str_isdigit(&s("\u{2080}")));
}

#[test]
fn alnum_alpha_cases() {
    assert!(str_isalnum(&s("")));
    assert!(str_isalnum(&s("abc123")));
    assert!(!str_isalnum(&s("abc 123")));
    assert!(str_isalpha(&s("")));
    assert!(str_isalpha(&s("abc\u{e9}")));
    assert!(!str_isalpha(&s("abc1")));
}

#[test]
fn add_cases() {
    assert_eq!(str_add(&s("foo"), Value::Str(s("bar"))).ok().unwrap(), "foobar");
    match str_add(&s("foo"), Value::Int(5)) {
        Err(StrError::TypeMismatch { operation, receiver, operand }) => {
            assert_eq!(operation, Method::Add);
            assert_eq!(receiver, "foo");
            assert!(matches!(operand, Value::Int(5)));
        }
        _ => panic!("expected a type mismatch"),
    }
}

#[test]
fn title_and_capitalize() {
    assert_eq!(str_title(&s("hello world")), "Hello World");
    assert_eq!(str_title(&s("hELLO  wORLD")), "Hello  World");
    assert_eq!(str_title(&s("")), "");
    assert_eq!(str_capitalize(&s("hello")), "Hello");
    assert_eq!(str_capitalize(&s("hELLO")), "HELLO");
    assert_eq!(str_capitalize(&s("")), "");
    assert_eq!(str_capitalize(&s("\u{df}x")), "SSx");
}

#[test]
fn prefix_contains_getitem() {
    assert!(str_startswith(&s("hello"), &s("he")));
    assert!(!str_startswith(&s("hello"), &s("lo")));
    assert!(str_endswith(&s("hello"), &s("lo")));
    assert!(!str_endswith(&s("hello"), &s("he")));
    assert!(str_contains(&s("hello"), &s("ell")));
    assert!(!str_contains(&s("hello"), &s("elo")));
    assert_eq!(str_getitem(&s("hello"), Value::Int(-1)).ok().unwrap(), "o");
    assert_eq!(str_getitem(&s("hello"), Value::Int(0)).ok().unwrap(), "h");
    assert!(matches!(str_getitem(&s("hello"), Value::Int(5)), Err(StrError::IndexOutOfRange)));
    assert!(matches!(
        str_getitem(&s("hello"), Value::Bool(true)),
        Err(StrError::TypeMismatch { operation: Method::GetItem, operand: Value::Bool(true), .. })
    ));
    let r = str_getitem(&s("hello"), Value::Slice { start: Some(1), stop: Some(-1), step: None });
    assert_eq!(r.ok().unwrap(), "ell");
}

#[test]
fn case_transforms() {
    assert_eq!(str_upper(&s("Hello")), "HELLO");
    assert_eq!(str_lower(&s("Hello")), "hello");
    assert_eq!(str_swapcase(&s("Hello, World")), "hELLO, wORLD");
    assert_eq!(str_swapcase(&s("a\u{c9}")), "A\u{e9}");
    assert_eq!(str_swapcase(&s("\u{e9}")), "\u{c9}");
    assert_eq!(str_swapcase(&s("\u{df}")), "SS");
    assert_eq!(str_swapcase(&s("1 _")), "1 _");
}

#[test]
fn strip_and_split() {
    assert_eq!(str_strip(&s("  a b \n")), "a b");
    assert_eq!(str_lstrip(&s("  a b \n")), "a b \n");
    assert_eq!(str_rstrip(&s("  a b \n")), "  a b");
    assert_eq!(str_strip(&s(" \t ")), "");
    match str_split(&s("a,b,,c"), &s(",")) {
        Value::List(items) => {
            let parts: Vec<String> = items.iter().map(text).collect();
            assert_eq!(parts, vec!["a", "b", "", "c"]);
        }
        _ => panic!("expected a list"),
    }
    match str_split(&s("aaa"), &s("aa")) {
        Value::List(items) => {
            let parts: Vec<String> = items.iter().map(text).collect();
            assert_eq!(parts, vec!["", "a"]);
        }
        _ => panic!("expected a list"),
    }
}

#[test]
fn compare_and_length() {
    assert!(str_gt(&s("b"), &s("a")));
    assert!(str_gt(&s("ab"), &s("a")));
    assert!(!str_gt(&s("a"), &s("a")));
    assert!(!str_gt(&s("a"), &s("b")));
    assert_eq!(str_len(&s("hello")), 5);
    assert_eq!(str_len(&s("")), 0);
    assert_eq!(str_len(&s("\u{e9}t\u{e9}")), 3);
    assert_eq!(str_str(&s("x")), "x");
    assert_eq!(get_value(&Value::Str(s("v"))), "v");
}

#[test]
fn construct_cases() {
    assert_eq!(str_new(&vec![]).ok().unwrap(), "");
    assert_eq!(str_new(&vec![s("5")]).ok().unwrap(), "5");
    assert!(matches!(
        str_new(&vec![s("a"), s("b")]),
        Err(StrError::Arity { operation: Method::New, given: 2 })
    ));
}

#[test]
fn table_binds_names() {
    let t = init();
    assert_eq!(t.len(), 25);
    assert_eq!(lookup(&t, &s("__add__")), Some(Method::Add));
    assert_eq!(lookup(&t, &s("isdigit")), Some(Method::IsDigit));
    assert_eq!(lookup(&t, &s("center")), None);
}

#[test]
fn dispatch_checks_arguments() {
    let r = call(Method::Add, &s("foo"), vec![Value::Str(s("bar"))]);
    assert_eq!(text(&r.ok().unwrap()), "foobar");
    assert!(matches!(
        call(Method::Upper, &s("x"), vec![Value::Int(1)]),
        Err(StrError::Arity { operation: Method::Upper, given: 1 })
    ));
    assert!(matches!(
        call(Method::Gt, &s("x"), vec![Value::Int(1)]),
        Err(StrError::TypeMismatch { operation: Method::Gt, operand: Value::Int(1), .. })
    ));
    assert!(matches!(call(Method::Gt, &s("b"), vec![Value::Str(s("a"))]), Ok(Value::Bool(true))));
    assert!(matches!(call(Method::Eq, &s("b"), vec![Value::Int(3)]), Ok(Value::Bool(false))));
    assert!(matches!(call(Method::Len, &s("abc"), vec![]), Ok(Value::Int(3))));
    let r = call(Method::Repr, &s("it's"), vec![]);
    assert_eq!(text(&r.ok().unwrap()), "\"it's\"");
}
