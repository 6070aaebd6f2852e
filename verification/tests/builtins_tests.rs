use monkey::builtins::{
    builtin_cons, builtin_get, builtin_hd, builtin_len, builtin_push, builtin_puts, builtin_tl,
    builtin_type, get_builtin, Builtin,
};
use monkey::error::{ErrorKind, RuntimeError};
use monkey::object::{HashObject, HashableObject, Object, ObjectType};

fn ints(values: &[i64]) -> Object {
    Object::Array(values.iter().map(|i| Object::Integer(*i)).collect())
}

fn text(s: &str) -> Object {
    Object::Str(s.to_string())
}

fn sample_hash() -> Object {
    let mut h = HashObject::new();
    h.insert(HashableObject::Str("a".to_string()), Object::Integer(1));
    h.insert(HashableObject::Integer(2), text("two"));
    h.insert(HashableObject::Boolean(true), Object::Nil);
    Object::Hash(h)
}

fn fails_with(kind: ErrorKind) -> Result<Object, RuntimeError> {
    Err(RuntimeError(kind))
}

fn wrong_count(expected: usize, given: usize) -> Result<Object, RuntimeError> {
    fails_with(ErrorKind::WrongArgumentCount { expected, given })
}

#[test]
fn the_catalogue_binds_eight_names() {
    assert_eq!(get_builtin("type"), Some(Object::Builtin(Builtin::Type)));
    assert_eq!(get_builtin("puts"), Some(Object::Builtin(Builtin::Puts)));
    assert_eq!(get_builtin("len"), Some(Object::Builtin(Builtin::Len)));
    assert_eq!(get_builtin("get"), Some(Object::Builtin(Builtin::Get)));
    assert_eq!(get_builtin("push"), Some(Object::Builtin(Builtin::Push)));
    assert_eq!(get_builtin("cons"), Some(Object::Builtin(Builtin::Cons)));
    assert_eq!(get_builtin("hd"), Some(Object::Builtin(Builtin::Hd)));
    assert_eq!(get_builtin("tl"), Some(Object::Builtin(Builtin::Tl)));
}

#[test]
fn unknown_names_are_absent() {
    assert_eq!(get_builtin(""), None);
    assert_eq!(get_builtin("Len"), None);
    assert_eq!(get_builtin("len "), None);
    assert_eq!(get_builtin("le"), None);
    assert_eq!(get_builtin("first"), None);
    assert_eq!(get_builtin("tlx"), None);
}

#[test]
fn every_builtin_is_found_under_its_name() {
    let all = [
        Builtin::Type,
        Builtin::Puts,
        Builtin::Len,
        Builtin::Get,
        Builtin::Push,
        Builtin::Cons,
        Builtin::Hd,
        Builtin::Tl,
    ];
    for b in all {
        assert_eq!(get_builtin(b.name()), Some(Object::Builtin(b)));
    }
}

#[test]
fn type_names_every_kind() {
    assert_eq!(builtin_type(vec![Object::Nil]), Ok(text("nil")));
    assert_eq!(builtin_type(vec![Object::Boolean(false)]), Ok(text("boolean")));
    assert_eq!(builtin_type(vec![Object::Integer(3)]), Ok(text("integer")));
    assert_eq!(builtin_type(vec![text("x")]), Ok(text("string")));
    assert_eq!(builtin_type(vec![ints(&[])]), Ok(text("array")));
    assert_eq!(builtin_type(vec![sample_hash()]), Ok(text("hash")));
    assert_eq!(builtin_type(vec![Object::Builtin(Builtin::Len)]), Ok(text("builtin")));
}

#[test]
fn wrong_argument_counts() {
    assert_eq!(builtin_type(vec![]), wrong_count(1, 0));
    assert_eq!(builtin_type(vec![Object::Nil, Object::Nil]), wrong_count(1, 2));
    assert_eq!(builtin_len(vec![]), wrong_count(1, 0));
    assert_eq!(builtin_len(vec![text("a"), text("b")]), wrong_count(1, 2));
    assert_eq!(builtin_get(vec![ints(&[1])]), wrong_count(2, 1));
    assert_eq!(
        builtin_get(vec![ints(&[1]), Object::Integer(0), Object::Integer(0)]),
        wrong_count(2, 3)
    );
    assert_eq!(builtin_push(vec![ints(&[1])]), wrong_count(2, 1));
    assert_eq!(builtin_cons(vec![]), wrong_count(2, 0));
    assert_eq!(builtin_hd(vec![]), wrong_count(1, 0));
    assert_eq!(builtin_tl(vec![ints(&[1]), ints(&[2])]), wrong_count(1, 2));
    // The count is checked before the kinds.
    assert_eq!(builtin_push(vec![Object::Nil]), wrong_count(2, 1));
}

#[test]
fn len_counts_scalar_values_not_bytes() {
    assert_eq!(builtin_len(vec![text("")]), Ok(Object::Integer(0)));
    assert_eq!(builtin_len(vec![text("hello")]), Ok(Object::Integer(5)));
    let multibyte = "héllo wörld ✓ 日本語";
    assert_eq!(multibyte.len(), 27);
    assert_eq!(builtin_len(vec![text(multibyte)]), Ok(Object::Integer(17)));
    assert_eq!(builtin_len(vec![text("🦀")]), Ok(Object::Integer(1)));
}

#[test]
fn len_counts_elements() {
    assert_eq!(builtin_len(vec![ints(&[])]), Ok(Object::Integer(0)));
    assert_eq!(builtin_len(vec![ints(&[4, 5, 6])]), Ok(Object::Integer(3)));
}

#[test]
fn len_of_something_without_length() {
    assert_eq!(
        builtin_len(vec![Object::Integer(5)]),
        fails_with(ErrorKind::NoLength { found: ObjectType::Integer })
    );
    assert_eq!(
        builtin_len(vec![sample_hash()]),
        fails_with(ErrorKind::NoLength { found: ObjectType::Hash })
    );
    assert_eq!(
        builtin_len(vec![Object::Nil]),
        fails_with(ErrorKind::NoLength { found: ObjectType::Nil })
    );
}

#[test]
fn get_on_an_array() {
    let a = || ints(&[10, 20, 30]);
    assert_eq!(builtin_get(vec![a(), Object::Integer(0)]), Ok(Object::Integer(10)));
    assert_eq!(builtin_get(vec![a(), Object::Integer(2)]), Ok(Object::Integer(30)));
    assert_eq!(builtin_get(vec![a(), Object::Integer(3)]), Ok(Object::Nil));
    assert_eq!(builtin_get(vec![a(), Object::Integer(-1)]), Ok(Object::Nil));
    assert_eq!(builtin_get(vec![a(), Object::Integer(i64::MAX)]), Ok(Object::Nil));
    assert_eq!(builtin_get(vec![a(), Object::Integer(i64::MIN)]), Ok(Object::Nil));
    assert_eq!(builtin_get(vec![ints(&[]), Object::Integer(0)]), Ok(Object::Nil));
}

#[test]
fn get_on_an_array_needs_an_integer() {
    assert_eq!(
        builtin_get(vec![ints(&[1]), text("0")]),
        fails_with(ErrorKind::IndexNotInteger { found: ObjectType::Str })
    );
    assert_eq!(
        builtin_get(vec![ints(&[1]), Object::Boolean(false)]),
        fails_with(ErrorKind::IndexNotInteger { found: ObjectType::Boolean })
    );
}

#[test]
fn get_on_a_hash() {
    assert_eq!(builtin_get(vec![sample_hash(), text("a")]), Ok(Object::Integer(1)));
    assert_eq!(builtin_get(vec![sample_hash(), Object::Integer(2)]), Ok(text("two")));
    assert_eq!(builtin_get(vec![sample_hash(), Object::Boolean(true)]), Ok(Object::Nil));
    assert_eq!(builtin_get(vec![sample_hash(), text("b")]), Ok(Object::Nil));
    assert_eq!(builtin_get(vec![sample_hash(), Object::Integer(1)]), Ok(Object::Nil));
    assert_eq!(builtin_get(vec![sample_hash(), Object::Boolean(false)]), Ok(Object::Nil));
    // Keys of different kinds never meet.
    assert_eq!(builtin_get(vec![sample_hash(), text("2")]), Ok(Object::Nil));
}

#[test]
fn get_on_a_hash_needs_a_hashable_key() {
    assert_eq!(
        builtin_get(vec![sample_hash(), ints(&[1])]),
        fails_with(ErrorKind::UnhashableKey { found: ObjectType::Array })
    );
    assert_eq!(
        builtin_get(vec![sample_hash(), sample_hash()]),
        fails_with(ErrorKind::UnhashableKey { found: ObjectType::Hash })
    );
    assert_eq!(
        builtin_get(vec![sample_hash(), Object::Nil]),
        fails_with(ErrorKind::UnhashableKey { found: ObjectType::Nil })
    );
    assert_eq!(
        builtin_get(vec![sample_hash(), Object::Builtin(Builtin::Get)]),
        fails_with(ErrorKind::UnhashableKey { found: ObjectType::Builtin })
    );
}

#[test]
fn get_on_something_else() {
    assert_eq!(
        builtin_get(vec![text("abc"), Object::Integer(0)]),
        fails_with(ErrorKind::NotIndexable { found: ObjectType::Str })
    );
    assert_eq!(
        builtin_get(vec![Object::Nil, Object::Integer(0)]),
        fails_with(ErrorKind::NotIndexable { found: ObjectType::Nil })
    );
}

#[test]
fn push_appends_and_leaves_its_argument_alone() {
    let a = ints(&[1, 2]);
    let pushed = builtin_push(vec![a.clone(), Object::Integer(3)]);
    assert_eq!(pushed, Ok(ints(&[1, 2, 3])));
    assert_eq!(a, ints(&[1, 2]));
    assert_eq!(builtin_len(vec![a]), Ok(Object::Integer(2)));
    assert_eq!(builtin_len(vec![pushed.unwrap()]), Ok(Object::Integer(3)));
    assert_eq!(
        builtin_push(vec![ints(&[]), ints(&[])]),
        Ok(Object::Array(vec![ints(&[])]))
    );
}

#[test]
fn push_needs_an_array_first() {
    assert_eq!(
        builtin_push(vec![Object::Integer(1), ints(&[])]),
        fails_with(ErrorKind::ArrayExpected { builtin: Builtin::Push, found: ObjectType::Integer })
    );
}

#[test]
fn cons_prepends_and_leaves_its_argument_alone() {
    let a = ints(&[2, 3]);
    assert_eq!(builtin_cons(vec![Object::Integer(1), a.clone()]), Ok(ints(&[1, 2, 3])));
    assert_eq!(a, ints(&[2, 3]));
    assert_eq!(builtin_cons(vec![text("x"), ints(&[])]), Ok(Object::Array(vec![text("x")])));
}

#[test]
fn cons_needs_an_array_second() {
    assert_eq!(
        builtin_cons(vec![ints(&[]), Object::Integer(1)]),
        fails_with(ErrorKind::ArrayExpected { builtin: Builtin::Cons, found: ObjectType::Integer })
    );
}

#[test]
fn hd_and_tl() {
    assert_eq!(builtin_hd(vec![ints(&[])]), Ok(Object::Nil));
    assert_eq!(builtin_tl(vec![ints(&[])]), Ok(Object::Nil));
    assert_eq!(builtin_hd(vec![ints(&[7])]), Ok(Object::Integer(7)));
    assert_eq!(builtin_tl(vec![ints(&[7])]), Ok(ints(&[])));
    assert_eq!(builtin_hd(vec![ints(&[7, 8, 9])]), Ok(Object::Integer(7)));
    assert_eq!(builtin_tl(vec![ints(&[7, 8, 9])]), Ok(ints(&[8, 9])));
    assert_eq!(
        builtin_hd(vec![text("abc")]),
        fails_with(ErrorKind::ArrayExpected { builtin: Builtin::Hd, found: ObjectType::Str })
    );
    assert_eq!(
        builtin_tl(vec![Object::Nil]),
        fails_with(ErrorKind::ArrayExpected { builtin: Builtin::Tl, found: ObjectType::Nil })
    );
}

#[test]
fn cons_round_trip() {
    let x = sample_hash();
    let a = ints(&[5, 6]);
    let consed = builtin_cons(vec![x.clone(), a.clone()]).unwrap();
    assert_eq!(builtin_hd(vec![consed.clone()]), Ok(x));
    assert_eq!(builtin_tl(vec![consed]), Ok(a));
    let on_empty = builtin_cons(vec![Object::Nil, ints(&[])]).unwrap();
    assert_eq!(builtin_hd(vec![on_empty.clone()]), Ok(Object::Nil));
    assert_eq!(builtin_tl(vec![on_empty]), Ok(ints(&[])));
}

#[test]
fn puts_writes_its_arguments_and_a_newline() {
    let mut out = String::new();
    assert_eq!(builtin_puts(vec![Object::Integer(1)], &mut out), Ok(Object::Nil));
    assert_eq!(out, "1\n");
    let res = builtin_puts(vec![text("a b"), Object::Boolean(true), ints(&[1, 2])], &mut out);
    assert_eq!(res, Ok(Object::Nil));
    assert_eq!(out, "1\na b true [1, 2]\n");
}

#[test]
fn puts_needs_an_argument() {
    let mut out = String::from("kept");
    assert_eq!(
        builtin_puts(vec![], &mut out),
        fails_with(ErrorKind::TooFewArguments { minimum: 1, given: 0 })
    );
    assert_eq!(out, "kept");
}

#[test]
fn calls_go_through_the_catalogue() {
    let mut out = String::new();
    let len = Builtin::Len;
    assert_eq!(len.call(vec![text("abc")], &mut out), Ok(Object::Integer(3)));
    assert_eq!(Builtin::Type.call(vec![Object::Nil], &mut out), Ok(text("nil")));
    assert_eq!(
        Builtin::Get.call(vec![ints(&[1]), Object::Integer(0)], &mut out),
        Ok(Object::Integer(1))
    );
    assert_eq!(
        Builtin::Push.call(vec![ints(&[]), Object::Integer(0)], &mut out),
        Ok(ints(&[0]))
    );
    assert_eq!(
        Builtin::Cons.call(vec![Object::Integer(0), ints(&[])], &mut out),
        Ok(ints(&[0]))
    );
    assert_eq!(Builtin::Hd.call(vec![ints(&[4])], &mut out), Ok(Object::Integer(4)));
    assert_eq!(Builtin::Tl.call(vec![ints(&[4])], &mut out), Ok(ints(&[])));
    assert_eq!(out, "");
    assert_eq!(Builtin::Puts.call(vec![text("hi")], &mut out), Ok(Object::Nil));
    assert_eq!(out, "hi\n");
    assert_eq!(Builtin::Hd.call(vec![], &mut out), wrong_count(1, 0));
}

#[test]
fn end_to_end_through_the_catalogue() {
    let mut out = String::new();
    let push = match get_builtin("push") {
        Some(Object::Builtin(b)) => b,
        _ => panic!("push is not bound"),
    };
    let len = match get_builtin("len") {
        Some(Object::Builtin(b)) => b,
        _ => panic!("len is not bound"),
    };
    let get = match get_builtin("get") {
        Some(Object::Builtin(b)) => b,
        _ => panic!("get is not bound"),
    };
    // len(push([1, 2], 3))
    let pushed = push.call(vec![ints(&[1, 2]), Object::Integer(3)], &mut out).unwrap();
    assert_eq!(len.call(vec![pushed], &mut out), Ok(Object::Integer(3)));
    // get({"a": 1}, "a")
    let mut h = HashObject::new();
    h.insert(HashableObject::Str("a".to_string()), Object::Integer(1));
    assert_eq!(get.call(vec![Object::Hash(h), text("a")], &mut out), Ok(Object::Integer(1)));
    assert_eq!(out, "");
}
