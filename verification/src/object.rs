//! The object model: the tagged value type that the evaluator, the virtual
//! machine and the builtins all operate on, together with the projection of
//! objects onto dictionary keys.

use crate::builtins::{builtin_name, Builtin};
use crate::text::{decimal_int, push_decimal_i64};
use vstd::prelude::*;
use vstd::string::StringExecFns;

verus! {

/// Mathematical model of a dictionary key.
pub enum Key {
    Integer(int),
    Boolean(bool),
    Text(Seq<char>),
}

/// Mathematical model of a runtime value.  Two objects are observably the
/// same value exactly when their models are equal.
pub enum Value {
    Nil,
    Boolean(bool),
    Integer(int),
    Text(Seq<char>),
    Array(Seq<Value>),
    Hash(Map<Key, Value>),
    Builtin(Builtin),
}

/// The kinds of runtime value.
#[derive(Clone, Copy, Debug, PartialEq, Eq, Structural)]
pub enum ObjectType {
    Nil,
    Boolean,
    Integer,
    Str,
    Array,
    Hash,
    Builtin,
}

/// An object that can serve as a dictionary key: it has value equality.
#[derive(Debug)]
pub enum HashableObject {
    Integer(i64),
    Boolean(bool),
    Str(String),
}

/// A dictionary from hashable objects to objects.  No key occurs twice.
#[derive(Debug)]
pub struct HashObject {
    entries: Vec<(HashableObject, Object)>,
}

/// The universal runtime value.
#[derive(Debug)]
pub enum Object {
    Nil,
    Boolean(bool),
    Integer(i64),
    Str(String),
    Array(Vec<Object>),
    Hash(HashObject),
    Builtin(Builtin),
}

impl View for HashableObject {
    type V = Key;

    open spec fn view(&self) -> Key {
        match self {
            HashableObject::Integer(i) => Key::Integer(*i as int),
            HashableObject::Boolean(b) => Key::Boolean(*b),
            HashableObject::Str(s) => Key::Text(s@),
        }
    }
}

/// The mapping that a sequence of entries stands for: entries are inserted
/// in order, so a later entry with the same key would win.
pub open spec fn entries_view(entries: Seq<(HashableObject, Object)>) -> Map<Key, Value>
    decreases entries, 0nat,
{
    if entries.len() == 0 {
        Map::empty()
    } else {
        entries_view(entries.drop_last()).insert(entries.last().0@, entries.last().1@)
    }
}

/// The models of a sequence of objects, element by element.
pub open spec fn values_of(items: Seq<Object>) -> Seq<Value>
    decreases items, 0nat,
{
    Seq::new(
        items.len(),
        |i: int|
            if 0 <= i < items.len() {
                items[i]@
            } else {
                Value::Nil
            },
    )
}

/// The models of a sequence of objects are as many as the objects, and
/// each is the model of the object at its place.
pub proof fn lemma_values_of(items: Seq<Object>)
    ensures
        values_of(items).len() == items.len(),
        forall|i: int| 0 <= i < items.len() ==> #[trigger] values_of(items)[i] == items[i]@,
{
}

/// No two entries have the same key.
pub open spec fn distinct_keys(entries: Seq<(HashableObject, Object)>) -> bool {
    forall|i: int, j: int|
        #![trigger entries[i], entries[j]]
        0 <= i < entries.len() && 0 <= j < entries.len() && i != j ==> entries[i].0@
            != entries[j].0@
}

impl HashObject {
    /// The entries in the order in which the dictionary holds them.
    pub closed spec fn entries(&self) -> Seq<(HashableObject, Object)> {
        self.entries@
    }

    #[verifier::type_invariant]
    spec fn inv(&self) -> bool {
        distinct_keys(self.entries@)
    }
}

impl View for HashObject {
    type V = Map<Key, Value>;

    open spec fn view(&self) -> Map<Key, Value>
        decreases self, 1nat,
    {
        entries_view(self.entries())
    }
}

impl View for Object {
    type V = Value;

    open spec fn view(&self) -> Value
        decreases self, 2nat,
    {
        match self {
            Object::Nil => Value::Nil,
            Object::Boolean(b) => Value::Boolean(*b),
            Object::Integer(i) => Value::Integer(*i as int),
            Object::Str(s) => Value::Text(s@),
            Object::Array(items) => Value::Array(values_of(items@)),
            Object::Hash(h) => Value::Hash(h@),
            Object::Builtin(b) => Value::Builtin(*b),
        }
    }
}


/// The canonical lowercase name of a kind of value.
pub open spec fn kind_name(t: ObjectType) -> Seq<char> {
    match t {
        ObjectType::Nil => "nil"@,
        ObjectType::Boolean => "boolean"@,
        ObjectType::Integer => "integer"@,
        ObjectType::Str => "string"@,
        ObjectType::Array => "array"@,
        ObjectType::Hash => "hash"@,
        ObjectType::Builtin => "builtin"@,
    }
}

/// The kind of a value.
pub open spec fn type_of(v: Value) -> ObjectType {
    match v {
        Value::Nil => ObjectType::Nil,
        Value::Boolean(_) => ObjectType::Boolean,
        Value::Integer(_) => ObjectType::Integer,
        Value::Text(_) => ObjectType::Str,
        Value::Array(_) => ObjectType::Array,
        Value::Hash(_) => ObjectType::Hash,
        Value::Builtin(_) => ObjectType::Builtin,
    }
}

/// The key that a value projects to, if it is of a hashable kind.
pub open spec fn key_of(v: Value) -> Option<Key> {
    match v {
        Value::Integer(i) => Some(Key::Integer(i)),
        Value::Boolean(b) => Some(Key::Boolean(b)),
        Value::Text(s) => Some(Key::Text(s)),
        _ => None,
    }
}

/// The value that a key stands for.
pub open spec fn value_of_key(k: Key) -> Value {
    match k {
        Key::Integer(i) => Value::Integer(i),
        Key::Boolean(b) => Value::Boolean(b),
        Key::Text(s) => Value::Text(s),
    }
}

/// The value of a mathematical integer in 64-bit two's complement: the
/// runtime's integers wrap on overflow.
pub open spec fn wrap_i64(x: int) -> int {
    let r = x % 0x1_0000_0000_0000_0000;
    if r >= 0x8000_0000_0000_0000 {
        r - 0x1_0000_0000_0000_0000
    } else {
        r
    }
}

/// A value within the 64-bit range is its own wrapped value.
pub proof fn lemma_wrap_in_range(x: int)
    requires
        i64::MIN <= x <= i64::MAX,
    ensures
        wrap_i64(x) == x,
{
}

/// Human-readable text of a sequence of objects: the text of each,
/// separated by a comma and a space.
pub open spec fn rendered_items(items: Seq<Object>) -> Seq<char>
    decreases items, 0nat,
{
    if items.len() == 0 {
        Seq::empty()
    } else if items.len() == 1 {
        items[0].rendered()
    } else {
        rendered_items(items.drop_last()) + ", "@ + items.last().rendered()
    }
}

/// Human-readable text of a sequence of dictionary entries: `key: value`
/// pairs in the order of the entries, separated by a comma and a space.
pub open spec fn rendered_entries(entries: Seq<(HashableObject, Object)>) -> Seq<char>
    decreases entries, 0nat,
{
    if entries.len() == 0 {
        Seq::empty()
    } else if entries.len() == 1 {
        entries[0].0.rendered() + ": "@ + entries[0].1.rendered()
    } else {
        rendered_entries(entries.drop_last()) + ", "@ + entries.last().0.rendered() + ": "@
            + entries.last().1.rendered()
    }
}

impl HashableObject {
    /// Human-readable text of a key: that of the object it stands for.
    pub open spec fn rendered(&self) -> Seq<char> {
        match self {
            HashableObject::Integer(i) => decimal_int(*i as int),
            HashableObject::Boolean(b) => if *b {
                "true"@
            } else {
                "false"@
            },
            HashableObject::Str(s) => s@,
        }
    }
}

impl HashObject {
    /// Human-readable text of a dictionary: its entries between braces, in
    /// the order in which the dictionary holds them.
    pub open spec fn rendered(&self) -> Seq<char>
        decreases self, 1nat,
    {
        "{"@ + rendered_entries(self.entries()) + "}"@
    }
}

impl Object {
    /// Human-readable text of an object.
    pub open spec fn rendered(&self) -> Seq<char>
        decreases self, 2nat,
    {
        match self {
            Object::Nil => "nil"@,
            Object::Boolean(b) => if *b {
                "true"@
            } else {
                "false"@
            },
            Object::Integer(i) => decimal_int(*i as int),
            Object::Str(s) => s@,
            Object::Array(items) => "["@ + rendered_items(items@) + "]"@,
            Object::Hash(h) => h.rendered(),
            Object::Builtin(b) => "<builtin "@ + builtin_name(*b) + ">"@,
        }
    }
}

impl ObjectType {
    /// The canonical lowercase name of this kind, as error messages and the
    /// `type` builtin show it.
    pub fn name(&self) -> (name: &'static str)
        ensures
            name@ == kind_name(*self),
    {
        match self {
            ObjectType::Nil => "nil",
            ObjectType::Boolean => "boolean",
            ObjectType::Integer => "integer",
            ObjectType::Str => "string",
            ObjectType::Array => "array",
            ObjectType::Hash => "hash",
            ObjectType::Builtin => "builtin",
        }
    }
}

impl HashableObject {
    /// Projects an object onto a dictionary key.  Integers, booleans and
    /// text are hashable; every other kind of object is not, and yields
    /// `None`.
    pub fn from_object(obj: Object) -> (key: Option<HashableObject>)
        ensures
            key is Some <==> key_of(obj@) is Some,
            key is Some ==> key->0@ == key_of(obj@)->0,
    {
        match obj {
            Object::Integer(i) => Some(HashableObject::Integer(i)),
            Object::Boolean(b) => Some(HashableObject::Boolean(b)),
            Object::Str(s) => Some(HashableObject::Str(s)),
            _ => None,
        }
    }

    /// The object that this key was projected from.
    pub fn to_object(&self) -> (obj: Object)
        ensures
            obj@ == value_of_key(self@),
    {
        match self {
            HashableObject::Integer(i) => Object::Integer(*i),
            HashableObject::Boolean(b) => Object::Boolean(*b),
            HashableObject::Str(s) => Object::Str(s.clone()),
        }
    }

    /// Value equality of keys.
    pub fn equals(&self, other: &HashableObject) -> (equal: bool)
        ensures
            equal == (self@ == other@),
    {
        match (self, other) {
            (HashableObject::Integer(a), HashableObject::Integer(b)) => *a == *b,
            (HashableObject::Boolean(a), HashableObject::Boolean(b)) => *a == *b,
            (HashableObject::Str(a), HashableObject::Str(b)) => *a == *b,
            _ => false,
        }
    }
}

impl Clone for HashableObject {
    fn clone(&self) -> (copy: HashableObject)
        ensures
            copy@ == self@,
    {
        match self {
            HashableObject::Integer(i) => HashableObject::Integer(*i),
            HashableObject::Boolean(b) => HashableObject::Boolean(*b),
            HashableObject::Str(s) => HashableObject::Str(s.clone()),
        }
    }
}

/// Entries that agree key by key and value by value stand for the same
/// mapping.
pub proof fn lemma_entries_view_congruent(
    a: Seq<(HashableObject, Object)>,
    b: Seq<(HashableObject, Object)>,
)
    requires
        a.len() == b.len(),
        forall|j: int|
            0 <= j < a.len() ==> (#[trigger] a[j]).0@ == b[j].0@ && a[j].1@ == b[j].1@,
    ensures
        entries_view(a) == entries_view(b),
    decreases a.len(),
{
    if a.len() > 0 {
        lemma_entries_view_congruent(a.drop_last(), b.drop_last());
    }
}

/// One step of the definition of the mapping of a non-empty sequence of
/// entries.
pub proof fn lemma_entries_view_step(entries: Seq<(HashableObject, Object)>)
    requires
        entries.len() > 0,
    ensures
        entries_view(entries) == entries_view(entries.drop_last()).insert(
            entries.last().0@,
            entries.last().1@,
        ),
        entries.last() == entries[entries.len() - 1],
        entries.drop_last().len() == entries.len() - 1,
        forall|j: int|
            0 <= j < entries.len() - 1 ==> #[trigger] entries.drop_last()[j] == entries[j],
        distinct_keys(entries) ==> distinct_keys(entries.drop_last()),
{
    let shorter = entries.drop_last();
    assert forall|j: int| 0 <= j < entries.len() - 1 implies #[trigger] shorter[j]
        == entries[j] by {}
    if distinct_keys(entries) {
        assert forall|i: int, j: int|
            #![trigger shorter[i], shorter[j]]
            0 <= i < shorter.len() && 0 <= j < shorter.len() && i != j implies shorter[i].0@
            != shorter[j].0@ by {
            assert(shorter[i] == entries[i]);
            assert(shorter[j] == entries[j]);
        }
    }
}

/// A key that no entry holds is not in the mapping.
pub proof fn lemma_entries_view_absent(entries: Seq<(HashableObject, Object)>, k: Key)
    requires
        forall|j: int| 0 <= j < entries.len() ==> (#[trigger] entries[j]).0@ != k,
    ensures
        !entries_view(entries).dom().contains(k),
    decreases entries.len(),
{
    if entries.len() > 0 {
        lemma_entries_view_step(entries);
        assert forall|j: int| 0 <= j < entries.drop_last().len() implies (
        #[trigger] entries.drop_last()[j]).0@ != k by {
            assert(entries.drop_last()[j] == entries[j]);
        }
        lemma_entries_view_absent(entries.drop_last(), k);
        assert(entries[entries.len() - 1].0@ != k);
    }
}

/// A key of the mapping is the key of some entry.
pub proof fn lemma_entries_view_present(entries: Seq<(HashableObject, Object)>, k: Key)
    requires
        entries_view(entries).dom().contains(k),
    ensures
        exists|j: int| 0 <= j < entries.len() && (#[trigger] entries[j]).0@ == k,
    decreases entries.len(),
{
    if entries.len() > 0 {
        lemma_entries_view_step(entries);
        if entries.last().0@ == k {
            assert(entries[entries.len() - 1].0@ == k);
        } else {
            lemma_entries_view_present(entries.drop_last(), k);
            let j = choose|j: int|
                0 <= j < entries.drop_last().len() && (#[trigger] entries.drop_last()[j]).0@ == k;
            assert(entries.drop_last()[j] == entries[j]);
            assert(entries[j].0@ == k);
        }
    }
}

/// With distinct keys, the mapping sends the key of each entry to the
/// value of that entry.
pub proof fn lemma_entries_view_lookup(entries: Seq<(HashableObject, Object)>, i: int)
    requires
        distinct_keys(entries),
        0 <= i < entries.len(),
    ensures
        entries_view(entries).dom().contains(entries[i].0@),
        entries_view(entries)[entries[i].0@] == entries[i].1@,
    decreases entries.len(),
{
    lemma_entries_view_step(entries);
    if i < entries.len() - 1 {
        lemma_entries_view_lookup(entries.drop_last(), i);
        assert(entries.drop_last()[i] == entries[i]);
        assert(entries[entries.len() - 1].0@ != entries[i].0@);
    }
}

/// Replacing the value of an entry amounts to inserting the new value
/// under that entry's key.
pub proof fn lemma_entries_view_update(
    entries: Seq<(HashableObject, Object)>,
    i: int,
    entry: (HashableObject, Object),
)
    requires
        distinct_keys(entries),
        0 <= i < entries.len(),
        entries[i].0@ == entry.0@,
    ensures
        distinct_keys(entries.update(i, entry)),
        entries_view(entries.update(i, entry)) == entries_view(entries).insert(
            entry.0@,
            entry.1@,
        ),
    decreases entries.len(),
{
    let updated = entries.update(i, entry);
    assert forall|a: int, b: int|
        #![trigger updated[a], updated[b]]
        0 <= a < updated.len() && 0 <= b < updated.len() && a != b implies updated[a].0@
        != updated[b].0@ by {
        assert(updated[a].0@ == entries[a].0@);
        assert(updated[b].0@ == entries[b].0@);
    }
    lemma_entries_view_step(entries);
    lemma_entries_view_step(updated);
    let before = entries_view(entries.drop_last());
    if i == entries.len() - 1 {
        assert(updated.drop_last() =~= entries.drop_last());
        assert(updated.last() == entry);
        assert(before.insert(entry.0@, entry.1@) =~= before.insert(
            entries.last().0@,
            entries.last().1@,
        ).insert(entry.0@, entry.1@));
    } else {
        lemma_entries_view_update(entries.drop_last(), i, entry);
        assert(updated.drop_last() =~= entries.drop_last().update(i, entry));
        assert(updated.last() == entries.last());
        assert(entries[entries.len() - 1].0@ != entries[i].0@);
        assert(before.insert(entry.0@, entry.1@).insert(entries.last().0@, entries.last().1@)
            =~= before.insert(entries.last().0@, entries.last().1@).insert(
            entry.0@,
            entry.1@,
        ));
    }
}

/// Appending an entry amounts to inserting its value under its key.
pub proof fn lemma_entries_view_push(
    entries: Seq<(HashableObject, Object)>,
    entry: (HashableObject, Object),
)
    ensures
        entries_view(entries.push(entry)) == entries_view(entries).insert(entry.0@, entry.1@),
        (distinct_keys(entries) && forall|j: int|
            0 <= j < entries.len() ==> (#[trigger] entries[j]).0@ != entry.0@)
            ==> distinct_keys(entries.push(entry)),
{
    let longer = entries.push(entry);
    lemma_entries_view_step(longer);
    assert(longer.drop_last() =~= entries);
    if distinct_keys(entries) && forall|j: int|
        0 <= j < entries.len() ==> (#[trigger] entries[j]).0@ != entry.0@ {
        assert forall|a: int, b: int|
            #![trigger longer[a], longer[b]]
            0 <= a < longer.len() && 0 <= b < longer.len() && a != b implies longer[a].0@
            != longer[b].0@ by {
            if a < entries.len() {
                assert(longer[a] == entries[a]);
            }
            if b < entries.len() {
                assert(longer[b] == entries[b]);
            }
        }
    }
}

impl HashObject {
    /// The empty dictionary.
    pub fn new() -> (h: HashObject)
        ensures
            h@ == Map::<Key, Value>::empty(),
            h.entries().len() == 0,
    {
        HashObject { entries: Vec::new() }
    }

    /// Number of keys.  No key occurs twice among the entries.
    pub fn len(&self) -> (n: usize)
        ensures
            n == self.entries().len(),
            distinct_keys(self.entries()),
    {
        proof {
            use_type_invariant(self);
        }
        self.entries.len()
    }

    fn position(&self, key: &HashableObject) -> (at: Option<usize>)
        ensures
            at matches Some(i) ==> i < self.entries@.len() && self.entries@[i as int].0@ == key@,
            at is None ==> forall|j: int|
                0 <= j < self.entries@.len() ==> (#[trigger] self.entries@[j]).0@ != key@,
    {
        let mut i: usize = 0;
        while i < self.entries.len()
            invariant
                i <= self.entries@.len(),
                forall|j: int| 0 <= j < i ==> (#[trigger] self.entries@[j]).0@ != key@,
            decreases self.entries@.len() - i,
        {
            if self.entries[i].0.equals(key) {
                return Some(i);
            }
            i += 1;
        }
        None
    }

    /// Looks a key up: the stored value when the key is present, `None`
    /// when it is absent.
    pub fn get(&self, key: &HashableObject) -> (found: Option<&Object>)
        ensures
            found is Some <==> self@.dom().contains(key@),
            found is Some ==> found->0@ == self@[key@],
    {
        proof {
            use_type_invariant(self);
        }
        match self.position(key) {
            Some(i) => {
                proof {
                    lemma_entries_view_lookup(self.entries@, i as int);
                }
                Some(&self.entries[i].1)
            },
            None => {
                proof {
                    lemma_entries_view_absent(self.entries@, key@);
                }
                None
            },
        }
    }

    /// Binds `key` to `value`, replacing what the key was bound to before.
    pub fn insert(&mut self, key: HashableObject, value: Object)
        ensures
            final(self)@ == old(self)@.insert(key@, value@),
    {
        proof {
            use_type_invariant(&*self);
        }
        let found = self.position(&key);
        let mut entries: Vec<(HashableObject, Object)> = Vec::new();
        core::mem::swap(&mut self.entries, &mut entries);
        match found {
            Some(i) => {
                proof {
                    lemma_entries_view_update(entries@, i as int, (key, value));
                }
                entries.set(i, (key, value));
            },
            None => {
                proof {
                    lemma_entries_view_push(entries@, (key, value));
                }
                entries.push((key, value));
            },
        }
        core::mem::swap(&mut self.entries, &mut entries);
    }
}

impl Clone for HashObject {
    fn clone(&self) -> (copy: HashObject)
        ensures
            copy@ == self@,
            copy.rendered() == self.rendered(),
        decreases self, 1nat,
    {
        proof {
            use_type_invariant(self);
        }
        let mut out: Vec<(HashableObject, Object)> = Vec::new();
        let mut i: usize = 0;
        while i < self.entries.len()
            invariant
                i <= self.entries@.len(),
                out@.len() == i,
                forall|j: int|
                    0 <= j < i ==> {
                        &&& (#[trigger] out@[j]).0@ == self.entries@[j].0@
                        &&& out@[j].1@ == self.entries@[j].1@
                        &&& out@[j].1.rendered() == self.entries@[j].1.rendered()
                    },
            decreases self.entries@.len() - i,
        {
            let key = self.entries[i].0.clone();
            let value = self.entries[i].1.clone();
            out.push((key, value));
            i += 1;
        }
        proof {
            lemma_entries_view_congruent(out@, self.entries@);
            lemma_rendered_entries_congruent(out@, self.entries@);
        }
        HashObject { entries: out }
    }
}

/// The text of a key is that of the value it stands for: keys that stand
/// for the same value have the same text.
pub proof fn lemma_key_text_by_value(a: HashableObject, b: HashableObject)
    requires
        a@ == b@,
    ensures
        a.rendered() == b.rendered(),
{
}

/// Sequences of objects that agree in text element by element have the
/// same text.
pub proof fn lemma_rendered_items_congruent(a: Seq<Object>, b: Seq<Object>)
    requires
        a.len() == b.len(),
        forall|j: int| 0 <= j < a.len() ==> (#[trigger] a[j]).rendered() == b[j].rendered(),
    ensures
        rendered_items(a) == rendered_items(b),
    decreases a.len(),
{
    if a.len() > 1 {
        lemma_rendered_items_congruent(a.drop_last(), b.drop_last());
        assert(a.last() == a[a.len() - 1]);
        assert(b.last() == b[b.len() - 1]);
    } else if a.len() == 1 {
        assert(a[0].rendered() == b[0].rendered());
    }
}

/// Sequences of entries that agree in key and in the text of the value,
/// entry by entry, have the same text.
pub proof fn lemma_rendered_entries_congruent(
    a: Seq<(HashableObject, Object)>,
    b: Seq<(HashableObject, Object)>,
)
    requires
        a.len() == b.len(),
        forall|j: int|
            0 <= j < a.len() ==> (#[trigger] a[j]).0@ == b[j].0@ && a[j].1.rendered()
                == b[j].1.rendered(),
    ensures
        rendered_entries(a) == rendered_entries(b),
    decreases a.len(),
{
    if a.len() > 1 {
        lemma_rendered_entries_congruent(a.drop_last(), b.drop_last());
        assert(a.last() == a[a.len() - 1]);
        assert(b.last() == b[b.len() - 1]);
        lemma_key_text_by_value(a.last().0, b.last().0);
    } else if a.len() == 1 {
        assert(a[0].0@ == b[0].0@);
        lemma_key_text_by_value(a[0].0, b[0].0);
    }
}

/// Copies a sequence of objects, element by element.
pub fn clone_items(items: &Vec<Object>) -> (copy: Vec<Object>)
    ensures
        copy@.len() == items@.len(),
        values_of(copy@) == values_of(items@),
        rendered_items(copy@) == rendered_items(items@),
    decreases items, 0nat,
{
    let mut out: Vec<Object> = Vec::new();
    let mut i: usize = 0;
    while i < items.len()
        invariant
            i <= items@.len(),
            out@.len() == i,
            forall|j: int|
                0 <= j < i ==> (#[trigger] out@[j])@ == items@[j]@ && out@[j].rendered()
                    == items@[j].rendered(),
        decreases items@.len() - i,
    {
        let item = items[i].clone();
        out.push(item);
        i += 1;
    }
    assert(values_of(out@) =~= values_of(items@));
    proof {
        lemma_rendered_items_congruent(out@, items@);
    }
    out
}

impl Clone for Object {
    fn clone(&self) -> (copy: Object)
        ensures
            copy@ == self@,
            copy.rendered() == self.rendered(),
        decreases self, 2nat,
    {
        match self {
            Object::Nil => Object::Nil,
            Object::Boolean(b) => Object::Boolean(*b),
            Object::Integer(i) => Object::Integer(*i),
            Object::Str(s) => Object::Str(s.clone()),
            Object::Array(items) => Object::Array(clone_items(items)),
            Object::Hash(h) => Object::Hash(h.clone()),
            Object::Builtin(b) => Object::Builtin(*b),
        }
    }
}

impl Object {
    /// The kind of this object.
    pub fn object_type(&self) -> (t: ObjectType)
        ensures
            t == type_of(self@),
    {
        match self {
            Object::Nil => ObjectType::Nil,
            Object::Boolean(_) => ObjectType::Boolean,
            Object::Integer(_) => ObjectType::Integer,
            Object::Str(_) => ObjectType::Str,
            Object::Array(_) => ObjectType::Array,
            Object::Hash(_) => ObjectType::Hash,
            Object::Builtin(_) => ObjectType::Builtin,
        }
    }

    /// The canonical lowercase name of this object's kind.
    pub fn type_str(&self) -> (name: &'static str)
        ensures
            name@ == kind_name(type_of(self@)),
    {
        self.object_type().name()
    }
}

impl HashableObject {
    /// Appends the human-readable text of this key to `out`.
    pub fn write_text(&self, out: &mut String)
        ensures
            final(out)@ == old(out)@ + self.rendered(),
    {
        match self {
            HashableObject::Integer(i) => {
                push_decimal_i64(out, *i);
            },
            HashableObject::Boolean(b) => {
                if *b {
                    out.append("true");
                } else {
                    out.append("false");
                }
            },
            HashableObject::Str(s) => {
                out.append(s.as_str());
            },
        }
    }
}

impl HashObject {
    /// Appends the human-readable text of this dictionary to `out`.
    pub fn write_text(&self, out: &mut String)
        ensures
            final(out)@ == old(out)@ + self.rendered(),
        decreases self, 1nat,
    {
        out.append("{");
        let mut i: usize = 0;
        while i < self.entries.len()
            invariant
                i <= self.entries@.len(),
                out@ == old(out)@ + "{"@ + rendered_entries(self.entries@.take(i as int)),
            decreases self.entries@.len() - i,
        {
            let ghost before = out@;
            let ghost prefix = self.entries@.take(i as int);
            let ghost longer = self.entries@.take(i + 1);
            if i > 0 {
                out.append(", ");
            }
            self.entries[i].0.write_text(out);
            out.append(": ");
            self.entries[i].1.write_text(out);
            proof {
                assert(longer.drop_last() =~= prefix);
                assert(longer.last() == self.entries@[i as int]);
                assert(out@ =~= old(out)@ + "{"@ + rendered_entries(longer));
            }
            i += 1;
        }
        assert(self.entries@.take(i as int) =~= self.entries@);
        out.append("}");
        assert(out@ =~= old(out)@ + self.rendered());
    }
}

/// Appends the human-readable text of a sequence of objects to `out`.
pub fn write_items(items: &Vec<Object>, out: &mut String)
    ensures
        final(out)@ == old(out)@ + rendered_items(items@),
    decreases items, 0nat,
{
    let mut i: usize = 0;
    assert(old(out)@ + rendered_items(items@.take(0)) =~= old(out)@);
    while i < items.len()
        invariant
            i <= items@.len(),
            out@ == old(out)@ + rendered_items(items@.take(i as int)),
        decreases items@.len() - i,
    {
        let ghost prefix = items@.take(i as int);
        let ghost longer = items@.take(i + 1);
        if i > 0 {
            out.append(", ");
        }
        items[i].write_text(out);
        proof {
            assert(longer.drop_last() =~= prefix);
            assert(longer.last() == items@[i as int]);
            assert(out@ =~= old(out)@ + rendered_items(longer));
        }
        i += 1;
    }
    assert(items@.take(i as int) =~= items@);
}

impl Object {
    /// Appends the human-readable text of this object to `out`.
    pub fn write_text(&self, out: &mut String)
        ensures
            final(out)@ == old(out)@ + self.rendered(),
        decreases self, 2nat,
    {
        match self {
            Object::Nil => {
                out.append("nil");
            },
            Object::Boolean(b) => {
                if *b {
                    out.append("true");
                } else {
                    out.append("false");
                }
            },
            Object::Integer(i) => {
                push_decimal_i64(out, *i);
            },
            Object::Str(s) => {
                out.append(s.as_str());
            },
            Object::Array(items) => {
                out.append("[");
                write_items(items, out);
                out.append("]");
                assert(out@ =~= old(out)@ + self.rendered());
            },
            Object::Hash(h) => {
                h.write_text(out);
            },
            Object::Builtin(b) => {
                out.append("<builtin ");
                out.append(b.name());
                out.append(">");
                assert(out@ =~= old(out)@ + self.rendered());
            },
        }
    }

    /// The human-readable text of this object.
    pub fn to_text(&self) -> (text: String)
        ensures
            text@ == self.rendered(),
    {
        let mut text = String::new();
        self.write_text(&mut text);
        assert(text@ =~= self.rendered());
        text
    }
}

/// Whether two sequences of objects hold observably the same values.
pub fn items_equal(a: &Vec<Object>, b: &Vec<Object>) -> (equal: bool)
    ensures
        equal == (values_of(a@) == values_of(b@)),
    decreases a, 0nat,
{
    proof {
        lemma_values_of(a@);
        lemma_values_of(b@);
    }
    if a.len() != b.len() {
        return false;
    }
    let mut i: usize = 0;
    while i < a.len()
        invariant
            a@.len() == b@.len(),
            i <= a@.len(),
            values_of(a@).len() == a@.len(),
            values_of(b@).len() == b@.len(),
            forall|j: int| 0 <= j < a@.len() ==> #[trigger] values_of(a@)[j] == a@[j]@,
            forall|j: int| 0 <= j < b@.len() ==> #[trigger] values_of(b@)[j] == b@[j]@,
            forall|j: int| 0 <= j < i ==> (#[trigger] a@[j])@ == b@[j]@,
        decreases a@.len() - i,
    {
        if !a[i].equals(&b[i]) {
            assert(values_of(a@)[i as int] != values_of(b@)[i as int]);
            return false;
        }
        i += 1;
    }
    assert(values_of(a@) =~= values_of(b@));
    true
}

impl HashObject {
    /// Whether every entry of `self` is an entry of `other`, up to the
    /// order of entries.
    fn included_in(&self, other: &HashObject) -> (included: bool)
        ensures
            included == (forall|k: Key| #[trigger]
                self@.dom().contains(k) ==> other@.dom().contains(k) && other@[k] == self@[k]),
        decreases self, 0nat,
    {
        proof {
            use_type_invariant(self);
        }
        let mut i: usize = 0;
        while i < self.entries.len()
            invariant
                i <= self.entries@.len(),
                distinct_keys(self.entries@),
                self@ == entries_view(self.entries@),
                forall|j: int|
                    0 <= j < i ==> other@.dom().contains((#[trigger] self.entries@[j]).0@)
                        && other@[self.entries@[j].0@] == self.entries@[j].1@,
            decreases self.entries@.len() - i,
        {
            proof {
                lemma_entries_view_lookup(self.entries@, i as int);
            }
            match other.get(&self.entries[i].0) {
                None => {
                    return false;
                },
                Some(value) => {
                    if !self.entries[i].1.equals(value) {
                        return false;
                    }
                },
            }
            i += 1;
        }
        assert forall|k: Key| #[trigger] self@.dom().contains(k) implies other@.dom().contains(k)
            && other@[k] == self@[k] by {
            lemma_entries_view_present(self.entries@, k);
            let j = choose|j: int|
                0 <= j < self.entries@.len() && (#[trigger] self.entries@[j]).0@ == k;
            lemma_entries_view_lookup(self.entries@, j);
        }
        true
    }

    /// Whether two dictionaries bind the same keys to observably the same
    /// values.  The order of entries does not count.
    pub fn equals(&self, other: &HashObject) -> (equal: bool)
        ensures
            equal == (self@ == other@),
        decreases self, 1nat,
    {
        if !self.included_in(other) {
            return false;
        }
        // What is left to know is that `other` has no further key.
        proof {
            use_type_invariant(other);
        }
        let mut i: usize = 0;
        while i < other.entries.len()
            invariant
                i <= other.entries@.len(),
                distinct_keys(other.entries@),
                other@ == entries_view(other.entries@),
                forall|j: int|
                    0 <= j < i ==> self@.dom().contains((#[trigger] other.entries@[j]).0@),
            decreases other.entries@.len() - i,
        {
            proof {
                lemma_entries_view_lookup(other.entries@, i as int);
            }
            if self.get(&other.entries[i].0).is_none() {
                return false;
            }
            i += 1;
        }
        assert forall|k: Key| other@.dom().contains(k) implies self@.dom().contains(k) by {
            lemma_entries_view_present(other.entries@, k);
        }
        assert(self@ =~= other@);
        true
    }
}

impl Object {
    /// Whether two objects are observably the same value.
    pub fn equals(&self, other: &Object) -> (equal: bool)
        ensures
            equal == (self@ == other@),
        decreases self, 2nat,
    {
        match (self, other) {
            (Object::Nil, Object::Nil) => true,
            (Object::Boolean(a), Object::Boolean(b)) => *a == *b,
            (Object::Integer(a), Object::Integer(b)) => *a == *b,
            (Object::Str(a), Object::Str(b)) => *a == *b,
            (Object::Array(a), Object::Array(b)) => items_equal(a, b),
            (Object::Hash(a), Object::Hash(b)) => a.equals(b),
            (Object::Builtin(a), Object::Builtin(b)) => *a == *b,
            _ => false,
        }
    }
}

} // verus!
