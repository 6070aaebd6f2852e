//! The builtin catalogue: a fixed, read-only mapping from names to native
//! operations over objects.

use crate::error::{result_view, ErrorKind, EvalResult, RuntimeError};
use crate::object::{
    clone_items, key_of, kind_name, lemma_values_of, lemma_wrap_in_range, type_of, values_of,
    wrap_i64,
    HashableObject, Key, Object, Value,
};
use crate::text::str_equal;
use vstd::prelude::*;
use vstd::string::{StrSliceExecFns, StringExecFns};

verus! {

/// A native operation that programs can call by name.
#[derive(Clone, Copy, Debug, PartialEq, Eq, Structural)]
pub enum Builtin {
    Type,
    Puts,
    Len,
    Get,
    Push,
    Cons,
    Hd,
    Tl,
}

/// The name under which a builtin is bound.
pub open spec fn builtin_name(b: Builtin) -> Seq<char> {
    match b {
        Builtin::Type => "type"@,
        Builtin::Puts => "puts"@,
        Builtin::Len => "len"@,
        Builtin::Get => "get"@,
        Builtin::Push => "push"@,
        Builtin::Cons => "cons"@,
        Builtin::Hd => "hd"@,
        Builtin::Tl => "tl"@,
    }
}

impl Builtin {
    /// The name under which this builtin is bound.
    pub fn name(&self) -> (name: &'static str)
        ensures
            name@ == builtin_name(*self),
    {
        match self {
            Builtin::Type => "type",
            Builtin::Puts => "puts",
            Builtin::Len => "len",
            Builtin::Get => "get",
            Builtin::Push => "push",
            Builtin::Cons => "cons",
            Builtin::Hd => "hd",
            Builtin::Tl => "tl",
        }
    }
}

/// The builtin that a name is bound to, if any.
pub open spec fn lookup_builtin(name: Seq<char>) -> Option<Builtin> {
    if name == "type"@ {
        Some(Builtin::Type)
    } else if name == "puts"@ {
        Some(Builtin::Puts)
    } else if name == "len"@ {
        Some(Builtin::Len)
    } else if name == "get"@ {
        Some(Builtin::Get)
    } else if name == "push"@ {
        Some(Builtin::Push)
    } else if name == "cons"@ {
        Some(Builtin::Cons)
    } else if name == "hd"@ {
        Some(Builtin::Hd)
    } else if name == "tl"@ {
        Some(Builtin::Tl)
    } else {
        None
    }
}

/// Looks a name up in the catalogue: the builtin bound to it, as an
/// object, or `None` for a name that is bound to nothing.
pub fn get_builtin(name: &str) -> (found: Option<Object>)
    ensures
        found is Some <==> lookup_builtin(name@) is Some,
        found is Some ==> found->0 == Object::Builtin(lookup_builtin(name@)->0),
{
    if str_equal(name, "type") {
        Some(Object::Builtin(Builtin::Type))
    } else if str_equal(name, "puts") {
        Some(Object::Builtin(Builtin::Puts))
    } else if str_equal(name, "len") {
        Some(Object::Builtin(Builtin::Len))
    } else if str_equal(name, "get") {
        Some(Object::Builtin(Builtin::Get))
    } else if str_equal(name, "push") {
        Some(Object::Builtin(Builtin::Push))
    } else if str_equal(name, "cons") {
        Some(Object::Builtin(Builtin::Cons))
    } else if str_equal(name, "hd") {
        Some(Object::Builtin(Builtin::Hd))
    } else if str_equal(name, "tl") {
        Some(Object::Builtin(Builtin::Tl))
    } else {
        None
    }
}

/// The failure of a call with `given` arguments where `expected` are due.
pub open spec fn wrong_count(expected: usize, given: nat) -> RuntimeError {
    RuntimeError(ErrorKind::WrongArgumentCount { expected, given: given as usize })
}

/// The failure of an array builtin whose array argument is `found`.
pub open spec fn array_expected(builtin: Builtin, found: Value) -> RuntimeError {
    RuntimeError(ErrorKind::ArrayExpected { builtin, found: type_of(found) })
}

/// `type(x)`: the name of the kind of `x`, as text.
pub open spec fn type_spec(args: Seq<Value>) -> Result<Value, RuntimeError> {
    if args.len() != 1 {
        Err(wrong_count(1, args.len()))
    } else {
        Ok(Value::Text(kind_name(type_of(args[0]))))
    }
}

/// `len(x)`: the number of scalar values of a text, the number of elements
/// of an array.
pub open spec fn len_spec(args: Seq<Value>) -> Result<Value, RuntimeError> {
    if args.len() != 1 {
        Err(wrong_count(1, args.len()))
    } else {
        match args[0] {
            Value::Text(s) => Ok(Value::Integer(wrap_i64(s.len() as int))),
            Value::Array(a) => Ok(Value::Integer(wrap_i64(a.len() as int))),
            other => Err(RuntimeError(ErrorKind::NoLength { found: type_of(other) })),
        }
    }
}

/// `get(container, key)`: the element of an array at an integer index, the
/// value of a hash under a hashable key, and nil where there is none.
pub open spec fn get_spec(args: Seq<Value>) -> Result<Value, RuntimeError> {
    if args.len() != 2 {
        Err(wrong_count(2, args.len()))
    } else {
        match args[0] {
            Value::Array(a) => match args[1] {
                Value::Integer(i) => if 0 <= i < a.len() {
                    Ok(a[i])
                } else {
                    Ok(Value::Nil)
                },
                other => Err(RuntimeError(ErrorKind::IndexNotInteger { found: type_of(other) })),
            },
            Value::Hash(m) => match key_of(args[1]) {
                Some(k) => if m.dom().contains(k) {
                    Ok(m[k])
                } else {
                    Ok(Value::Nil)
                },
                None => Err(RuntimeError(ErrorKind::UnhashableKey { found: type_of(args[1]) })),
            },
            other => Err(RuntimeError(ErrorKind::NotIndexable { found: type_of(other) })),
        }
    }
}

/// `push(array, x)`: a new array, `array` followed by `x`.
pub open spec fn push_spec(args: Seq<Value>) -> Result<Value, RuntimeError> {
    if args.len() != 2 {
        Err(wrong_count(2, args.len()))
    } else {
        match args[0] {
            Value::Array(a) => Ok(Value::Array(a.push(args[1]))),
            other => Err(array_expected(Builtin::Push, other)),
        }
    }
}

/// `cons(x, array)`: a new array, `x` followed by `array`.
pub open spec fn cons_spec(args: Seq<Value>) -> Result<Value, RuntimeError> {
    if args.len() != 2 {
        Err(wrong_count(2, args.len()))
    } else {
        match args[1] {
            Value::Array(a) => Ok(Value::Array(seq![args[0]] + a)),
            other => Err(array_expected(Builtin::Cons, other)),
        }
    }
}

/// `hd(array)`: the first element, nil for the empty array.
pub open spec fn hd_spec(args: Seq<Value>) -> Result<Value, RuntimeError> {
    if args.len() != 1 {
        Err(wrong_count(1, args.len()))
    } else {
        match args[0] {
            Value::Array(a) => if a.len() > 0 {
                Ok(a[0])
            } else {
                Ok(Value::Nil)
            },
            other => Err(array_expected(Builtin::Hd, other)),
        }
    }
}

/// `tl(array)`: all elements but the first, nil for the empty array.
pub open spec fn tl_spec(args: Seq<Value>) -> Result<Value, RuntimeError> {
    if args.len() != 1 {
        Err(wrong_count(1, args.len()))
    } else {
        match args[0] {
            Value::Array(a) => if a.len() > 0 {
                Ok(Value::Array(a.drop_first()))
            } else {
                Ok(Value::Nil)
            },
            other => Err(array_expected(Builtin::Tl, other)),
        }
    }
}

/// `puts(x, ...)`: nil, once at least one argument is given.
pub open spec fn puts_spec(args: Seq<Value>) -> Result<Value, RuntimeError> {
    if args.len() == 0 {
        Err(RuntimeError(ErrorKind::TooFewArguments { minimum: 1, given: 0 }))
    } else {
        Ok(Value::Nil)
    }
}

/// Human-readable text of a sequence of objects: the text of each,
/// separated by a space.
pub open spec fn spaced_items(items: Seq<Object>) -> Seq<char>
    decreases items.len(),
{
    if items.len() == 0 {
        Seq::empty()
    } else if items.len() == 1 {
        items[0].rendered()
    } else {
        spaced_items(items.drop_last()) + " "@ + items.last().rendered()
    }
}

/// What `puts` writes: nothing without arguments, else the text of the
/// arguments, separated by spaces, and a newline.
pub open spec fn puts_output(args: Seq<Object>) -> Seq<char> {
    if args.len() == 0 {
        Seq::empty()
    } else {
        spaced_items(args) + "\n"@
    }
}

fn assert_num_arguments(args: &Vec<Object>, expected: usize) -> (res: Result<(), RuntimeError>)
    ensures
        args@.len() == expected ==> res is Ok,
        args@.len() != expected ==> res == Err::<(), RuntimeError>(
            wrong_count(expected, args@.len()),
        ),
{
    if args.len() != expected {
        Err(RuntimeError(ErrorKind::WrongArgumentCount { expected, given: args.len() }))
    } else {
        Ok(())
    }
}

fn length_to_integer(n: usize) -> (i: i64)
    ensures
        i == wrap_i64(n as int),
{
    let wide: u64 = n as u64;
    if wide <= 0x7fff_ffff_ffff_ffffu64 {
        wide as i64
    } else {
        // Only a 64-bit length can get here; it wraps into the negatives.
        let high: u64 = wide - 0x8000_0000_0000_0000u64;
        (high as i64) + i64::MIN
    }
}

/// The `type` builtin.
pub fn builtin_type(args: Vec<Object>) -> (res: EvalResult)
    ensures
        result_view(res) == type_spec(values_of(args@)),
{
    match assert_num_arguments(&args, 1) {
        Err(e) => Err(e),
        Ok(_) => Ok(Object::Str(String::from_str(args[0].type_str()))),
    }
}

/// The `puts` builtin.  The text that it prints is appended to `out`; to
/// bring it to the console is left to the caller.
pub fn builtin_puts(args: Vec<Object>, out: &mut String) -> (res: EvalResult)
    ensures
        result_view(res) == puts_spec(values_of(args@)),
        final(out)@ == old(out)@ + puts_output(args@),
{
    if args.len() == 0 {
        assert(old(out)@ + puts_output(args@) =~= old(out)@);
        return Err(RuntimeError(ErrorKind::TooFewArguments { minimum: 1, given: 0 }));
    }
    let mut i: usize = 0;
    assert(old(out)@ + spaced_items(args@.take(0)) =~= old(out)@);
    while i < args.len()
        invariant
            i <= args@.len(),
            out@ == old(out)@ + spaced_items(args@.take(i as int)),
        decreases args@.len() - i,
    {
        let ghost prefix = args@.take(i as int);
        let ghost longer = args@.take(i + 1);
        if i > 0 {
            out.append(" ");
        }
        args[i].write_text(out);
        proof {
            assert(longer.drop_last() =~= prefix);
            assert(longer.last() == args@[i as int]);
            assert(out@ =~= old(out)@ + spaced_items(longer));
        }
        i += 1;
    }
    assert(args@.take(i as int) =~= args@);
    out.append("\n");
    assert(out@ =~= old(out)@ + puts_output(args@));
    Ok(Object::Nil)
}

/// The `len` builtin.
pub fn builtin_len(args: Vec<Object>) -> (res: EvalResult)
    ensures
        result_view(res) == len_spec(values_of(args@)),
{
    proof {
        lemma_values_of(args@);
    }
    match assert_num_arguments(&args, 1) {
        Err(e) => Err(e),
        Ok(_) => match &args[0] {
            Object::Str(s) => Ok(Object::Integer(length_to_integer(s.as_str().unicode_len()))),
            Object::Array(a) => {
                proof {
                    lemma_values_of(a@);
                }
                Ok(Object::Integer(length_to_integer(a.len())))
            },
            other => Err(RuntimeError(ErrorKind::NoLength { found: other.object_type() })),
        },
    }
}

/// The `get` builtin.
pub fn builtin_get(args: Vec<Object>) -> (res: EvalResult)
    ensures
        result_view(res) == get_spec(values_of(args@)),
{
    proof {
        lemma_values_of(args@);
    }
    match assert_num_arguments(&args, 2) {
        Err(e) => Err(e),
        Ok(_) => match &args[0] {
            Object::Array(a) => match &args[1] {
                Object::Integer(i) => {
                    proof {
                        lemma_values_of(a@);
                    }
                    if *i < 0 {
                        Ok(Object::Nil)
                    } else if (*i as u64) >= (a.len() as u64) {
                        Ok(Object::Nil)
                    } else {
                        Ok(a[*i as usize].clone())
                    }
                },
                other => Err(
                    RuntimeError(ErrorKind::IndexNotInteger { found: other.object_type() }),
                ),
            },
            Object::Hash(h) => {
                let key_type = args[1].object_type();
                match HashableObject::from_object(args[1].clone()) {
                    Some(k) => match h.get(&k) {
                        Some(value) => Ok(value.clone()),
                        None => Ok(Object::Nil),
                    },
                    None => Err(RuntimeError(ErrorKind::UnhashableKey { found: key_type })),
                }
            },
            other => Err(RuntimeError(ErrorKind::NotIndexable { found: other.object_type() })),
        },
    }
}

/// The `push` builtin.
pub fn builtin_push(args: Vec<Object>) -> (res: EvalResult)
    ensures
        result_view(res) == push_spec(values_of(args@)),
{
    match assert_num_arguments(&args, 2) {
        Err(e) => Err(e),
        Ok(_) => match &args[0] {
            Object::Array(a) => {
                let mut new = clone_items(a);
                let ghost copied = new@;
                let x = args[1].clone();
                new.push(x);
                assert(values_of(new@) =~= values_of(copied).push(x@));
                Ok(Object::Array(new))
            },
            other => Err(
                RuntimeError(
                    ErrorKind::ArrayExpected { builtin: Builtin::Push, found: other.object_type() },
                ),
            ),
        },
    }
}

/// The `cons` builtin.
pub fn builtin_cons(args: Vec<Object>) -> (res: EvalResult)
    ensures
        result_view(res) == cons_spec(values_of(args@)),
{
    match assert_num_arguments(&args, 2) {
        Err(e) => Err(e),
        Ok(_) => match &args[1] {
            Object::Array(a) => {
                let mut new: Vec<Object> = Vec::new();
                let x = args[0].clone();
                new.push(x);
                let mut i: usize = 0;
                while i < a.len()
                    invariant
                        i <= a@.len(),
                        new@.len() == i + 1,
                        new@[0]@ == x@,
                        forall|j: int| 1 <= j <= i ==> (#[trigger] new@[j])@ == a@[j - 1]@,
                    decreases a@.len() - i,
                {
                    let item = a[i].clone();
                    new.push(item);
                    i += 1;
                }
                proof {
                    lemma_values_of(new@);
                    lemma_values_of(a@);
                    lemma_values_of(args@);
                }
                assert(values_of(new@) =~= seq![x@] + values_of(a@));
                Ok(Object::Array(new))
            },
            other => Err(
                RuntimeError(
                    ErrorKind::ArrayExpected { builtin: Builtin::Cons, found: other.object_type() },
                ),
            ),
        },
    }
}

/// The `hd` builtin.
pub fn builtin_hd(args: Vec<Object>) -> (res: EvalResult)
    ensures
        result_view(res) == hd_spec(values_of(args@)),
{
    proof {
        lemma_values_of(args@);
    }
    match assert_num_arguments(&args, 1) {
        Err(e) => Err(e),
        Ok(_) => match &args[0] {
            Object::Array(a) => {
                proof {
                    lemma_values_of(a@);
                }
                if a.len() > 0 {
                    Ok(a[0].clone())
                } else {
                    Ok(Object::Nil)
                }
            },
            other => Err(
                RuntimeError(
                    ErrorKind::ArrayExpected { builtin: Builtin::Hd, found: other.object_type() },
                ),
            ),
        },
    }
}

/// The `tl` builtin.
pub fn builtin_tl(args: Vec<Object>) -> (res: EvalResult)
    ensures
        result_view(res) == tl_spec(values_of(args@)),
{
    match assert_num_arguments(&args, 1) {
        Err(e) => Err(e),
        Ok(_) => match &args[0] {
            Object::Array(a) => {
                if a.len() > 0 {
                    let mut tail: Vec<Object> = Vec::new();
                    let mut i: usize = 1;
                    while i < a.len()
                        invariant
                            1 <= i <= a@.len(),
                            tail@.len() == i - 1,
                            forall|j: int| 0 <= j < i - 1 ==> (#[trigger] tail@[j])@ == a@[j + 1]@,
                        decreases a@.len() - i,
                    {
                        let item = a[i].clone();
                        tail.push(item);
                        i += 1;
                    }
                    assert(values_of(tail@) =~= values_of(a@).drop_first());
                    Ok(Object::Array(tail))
                } else {
                    Ok(Object::Nil)
                }
            },
            other => Err(
                RuntimeError(
                    ErrorKind::ArrayExpected { builtin: Builtin::Tl, found: other.object_type() },
                ),
            ),
        },
    }
}

/// What a call of a builtin yields.
pub open spec fn call_spec(b: Builtin, args: Seq<Value>) -> Result<Value, RuntimeError> {
    match b {
        Builtin::Type => type_spec(args),
        Builtin::Puts => puts_spec(args),
        Builtin::Len => len_spec(args),
        Builtin::Get => get_spec(args),
        Builtin::Push => push_spec(args),
        Builtin::Cons => cons_spec(args),
        Builtin::Hd => hd_spec(args),
        Builtin::Tl => tl_spec(args),
    }
}

/// What a call of a builtin writes: only `puts` writes anything.
pub open spec fn call_output(b: Builtin, args: Seq<Object>) -> Seq<char> {
    match b {
        Builtin::Puts => puts_output(args),
        _ => Seq::empty(),
    }
}

impl Builtin {
    /// Calls this builtin on `args`.  What it prints is appended to `out`.
    pub fn call(&self, args: Vec<Object>, out: &mut String) -> (res: EvalResult)
        ensures
            result_view(res) == call_spec(*self, values_of(args@)),
            final(out)@ == old(out)@ + call_output(*self, args@),
    {
        assert(old(out)@ + Seq::<char>::empty() =~= old(out)@);
        match self {
            Builtin::Type => builtin_type(args),
            Builtin::Puts => builtin_puts(args, out),
            Builtin::Len => builtin_len(args),
            Builtin::Get => builtin_get(args),
            Builtin::Push => builtin_push(args),
            Builtin::Cons => builtin_cons(args),
            Builtin::Hd => builtin_hd(args),
            Builtin::Tl => builtin_tl(args),
        }
    }
}

/// Every builtin is found under its own name.
pub proof fn lemma_lookup_by_name(b: Builtin)
    ensures
        lookup_builtin(builtin_name(b)) == Some(b),
{
    reveal_strlit("type");
    reveal_strlit("puts");
    reveal_strlit("len");
    reveal_strlit("get");
    reveal_strlit("push");
    reveal_strlit("cons");
    reveal_strlit("hd");
    reveal_strlit("tl");
    assert("type"@[0] == 't' && "type"@.len() == 4);
    assert("puts"@[0] == 'p' && "puts"@.len() == 4 && "puts"@[2] == 't');
    assert("push"@[0] == 'p' && "push"@.len() == 4 && "push"@[2] == 's');
    assert("cons"@[0] == 'c' && "cons"@.len() == 4);
    assert("len"@[0] == 'l' && "len"@.len() == 3);
    assert("get"@[0] == 'g' && "get"@.len() == 3);
    assert("hd"@[0] == 'h' && "hd"@.len() == 2);
    assert("tl"@[0] == 't' && "tl"@.len() == 2);
}

/// `get(array, i)` is nil for an index below zero or at or beyond the
/// length, and the element at `i` otherwise.
pub proof fn lemma_get_array(a: Seq<Value>, i: int)
    ensures
        !(0 <= i < a.len()) ==> get_spec(seq![Value::Array(a), Value::Integer(i)]) == Ok::<
            Value,
            RuntimeError,
        >(Value::Nil),
        0 <= i < a.len() ==> get_spec(seq![Value::Array(a), Value::Integer(i)]) == Ok::<
            Value,
            RuntimeError,
        >(a[i]),
{
}

/// `get(hash, k)` is nil when the key is absent and the stored value when
/// it is present; it fails with the unhashable-key failure when `k` is of
/// a kind without value equality, such as an array or a hash.
pub proof fn lemma_get_hash(m: Map<Key, Value>, k: Value)
    ensures
        match key_of(k) {
            Some(key) => get_spec(seq![Value::Hash(m), k]) == Ok::<Value, RuntimeError>(
                if m.dom().contains(key) {
                    m[key]
                } else {
                    Value::Nil
                },
            ),
            None => get_spec(seq![Value::Hash(m), k]) == Err::<Value, RuntimeError>(
                RuntimeError(ErrorKind::UnhashableKey { found: type_of(k) }),
            ),
        },
        k is Array || k is Hash || k is Nil || k is Builtin <==> key_of(k) is None,
{
}

/// `push(a, x)` yields an array one longer than `a`, whose elements
/// before the last are those of `a`, unchanged, and whose last is `x`.
pub proof fn lemma_push_extends(a: Seq<Value>, x: Value)
    ensures
        push_spec(seq![Value::Array(a), x]) == Ok::<Value, RuntimeError>(
            Value::Array(a.push(x)),
        ),
        a.push(x).len() == a.len() + 1,
        a.push(x).take(a.len() as int) == a,
        a.push(x).last() == x,
{
    assert(a.push(x).take(a.len() as int) =~= a);
}

/// `hd([])` and `tl([])` are nil.
pub proof fn lemma_hd_tl_of_empty()
    ensures
        hd_spec(seq![Value::Array(Seq::empty())]) == Ok::<Value, RuntimeError>(Value::Nil),
        tl_spec(seq![Value::Array(Seq::empty())]) == Ok::<Value, RuntimeError>(Value::Nil),
{
}

/// The round trip of `cons` with `hd` and `tl`: `hd(cons(x, a))` is `x`
/// and `tl(cons(x, a))` is `a`.
pub proof fn lemma_cons_round_trip(x: Value, a: Seq<Value>)
    ensures
        cons_spec(seq![x, Value::Array(a)]) is Ok,
        hd_spec(seq![cons_spec(seq![x, Value::Array(a)])->Ok_0]) == Ok::<Value, RuntimeError>(x),
        tl_spec(seq![cons_spec(seq![x, Value::Array(a)])->Ok_0]) == Ok::<Value, RuntimeError>(
            Value::Array(a),
        ),
{
    assert((seq![x] + a).drop_first() =~= a);
}

/// `len` of a text is the number of its scalar values, for every text
/// whose length fits in 64 bits.
pub proof fn lemma_len_counts_scalar_values(s: Seq<char>)
    requires
        s.len() <= i64::MAX,
    ensures
        len_spec(seq![Value::Text(s)]) == Ok::<Value, RuntimeError>(
            Value::Integer(s.len() as int),
        ),
{
    lemma_wrap_in_range(s.len() as int);
}

} // verus!
