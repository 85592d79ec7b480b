//! Host values, and their passage to and from an engine's stack.

use vstd::prelude::*;
use crate::error::Error;
use crate::native::{
    ascending, bind, bytes_lt_from, key_lt, rank_from, read, read_items, read_props, slot, valid,
    Native, Props, TYPE_BOOLEAN, TYPE_BUFFER, TYPE_LIGHTFUNC, TYPE_NULL, TYPE_NUMBER, TYPE_OBJECT,
    TYPE_POINTER, TYPE_STRING, TYPE_UNDEFINED,
};
use crate::stack::Stack;

verus! {

/// A script value that has a host form.
#[derive(Debug, PartialEq)]
pub enum Value {
    /// The `undefined` value.
    Undefined,
    /// The `null` value.
    Null,
    /// A boolean like `true` or `false`.
    Boolean(bool),
    /// Any number, held as the bit pattern of its IEEE 754 binary64 form.
    Number(u64),
    /// Any string like `'abc'`.
    String(String),
    /// Any array of values like `['a', 2, false]`.
    Array(Vec<Value>),
    /// An object like `{a: 'a', b: 2, c: false}`: its properties, each key
    /// once, in ascending key order.
    Object(Vec<Member>),
    /// A byte buffer.
    Bytes(Vec<u8>),
}

/// One property of an object: a key and the value bound to it.
#[derive(Debug, PartialEq)]
pub struct Member {
    /// The property's name.
    pub key: String,
    /// The property's value.
    pub value: Value,
}

/// The properties that a list of entries stands for.
pub open spec fn props_view(entries: Seq<Member>) -> Props {
    Seq::new(entries.len(), |i: int| (entries[i].key@, entries[i].value@))
}

/// The engine values that a list of host values stands for.
pub open spec fn items_view(items: Seq<Value>) -> Seq<Native> {
    Seq::new(items.len(), |i: int| items[i]@)
}

/// Whether every value of a list of entries is well formed.
pub open spec fn entries_wf(entries: Seq<Member>) -> bool {
    forall|i: int| 0 <= i < entries.len() ==> (#[trigger] entries[i]).value.wf()
}

impl View for Value {
    type V = Native;

    open spec fn view(&self) -> Native {
        self.model()
    }
}

impl Value {
    /// The engine value that this value stands for.
    pub open spec fn model(&self) -> Native
        decreases self,
    {
        match self {
            Value::Undefined => Native::Undefined,
            Value::Null => Native::Null,
            Value::Boolean(b) => Native::Boolean(*b),
            Value::Number(bits) => Native::Number(*bits),
            Value::String(text) => Native::Text(text@),
            Value::Array(items) => Native::Array(
                Seq::new(
                    items@.len(),
                    |i: int|
                        if 0 <= i < items@.len() {
                            items@[i].model()
                        } else {
                            Native::Undefined
                        },
                ),
            ),
            Value::Object(entries) => Native::Object(
                Seq::new(
                    entries@.len(),
                    |i: int|
                        if 0 <= i < entries@.len() {
                            (entries@[i].key@, entries@[i].value.model())
                        } else {
                            (Seq::empty(), Native::Undefined)
                        },
                ),
            ),
            Value::Bytes(bytes) => Native::Buffer(bytes@),
        }
    }

    /// Whether the value is well formed: in every object in it, the keys
    /// ascend strictly.
    pub open spec fn wf(&self) -> bool
        decreases self,
    {
        match self {
            Value::Array(items) => forall|i: int|
                0 <= i < items@.len() ==> (#[trigger] items@[i]).wf(),
            Value::Object(entries) => {
                &&& ascending(self@->Object_0)
                &&& forall|i: int| 0 <= i < entries@.len() ==> (#[trigger] entries@[i]).value.wf()
            },
            _ => true,
        }
    }

    /// An array stands for the engine array of what its elements stand for.
    pub proof fn array_view(items: Vec<Value>)
        ensures
            Value::Array(items)@ == Native::Array(items_view(items@)),
    {
        let v = Value::Array(items);
        assert(v@->Array_0 =~= items_view(items@));
    }

    /// An object stands for the engine object of what its entries stand for.
    pub proof fn object_view(entries: Vec<Member>)
        ensures
            Value::Object(entries)@ == Native::Object(props_view(entries@)),
    {
        assert(Value::Object(entries)@->Object_0 =~= props_view(entries@));
    }
}

/// The byte order is transitive.
pub proof fn bytes_lt_transitive(a: Seq<u8>, b: Seq<u8>, c: Seq<u8>, i: int)
    requires
        bytes_lt_from(a, b, i),
        bytes_lt_from(b, c, i),
    ensures
        bytes_lt_from(a, c, i),
    decreases a.len() - i,
{
    if i < a.len() && a[i] == b[i] && b[i] == c[i] {
        bytes_lt_transitive(a, b, c, i + 1);
    }
}

/// No byte string comes before itself.
pub proof fn bytes_lt_irreflexive(a: Seq<u8>, i: int)
    ensures
        !bytes_lt_from(a, a, i),
    decreases a.len() - i,
{
    if 0 <= i < a.len() {
        bytes_lt_irreflexive(a, i + 1);
    }
}

/// Where every key of `props` comes before `key`, the key's place is at the
/// end.
pub proof fn rank_at_end(props: Props, key: Seq<char>, i: int)
    requires
        0 <= i <= props.len(),
        forall|j: int| i <= j < props.len() ==> key_lt(#[trigger] props[j].0, key),
    ensures
        rank_from(props, key, i) == props.len(),
    decreases props.len() - i,
{
    if i < props.len() {
        rank_at_end(props, key, i + 1);
    }
}

/// Whether `a` comes before `b` in key order.
pub fn key_before(a: &str, b: &str) -> (before: bool)
    ensures
        before == key_lt(a@, b@),
{
    let x = a.as_bytes();
    let y = b.as_bytes();
    let mut i: usize = 0;
    while i < x.len() && i < y.len() && x[i] == y[i]
        invariant
            i <= x.len(),
            i <= y.len(),
            key_lt(a@, b@) == bytes_lt_from(x@, y@, i as int),
        decreases x.len() - i,
    {
        i += 1;
    }
    if i >= y.len() {
        false
    } else if i >= x.len() {
        true
    } else {
        x[i] < y[i]
    }
}

/// Binds `value` to `key` in a list of entries that is in key order: a
/// key that is there gets the new value, a new key goes to its place.
pub fn insert_sorted(entries: &mut Vec<Member>, key: String, value: Value)
    requires
        ascending(props_view(old(entries)@)),
        entries_wf(old(entries)@),
        value.wf(),
    ensures
        props_view(final(entries)@) == bind(props_view(old(entries)@), key@, value@),
        ascending(props_view(final(entries)@)),
        entries_wf(final(entries)@),
{
    let ghost before = props_view(entries@);
    let mut p: usize = 0;
    while p < entries.len() && key_before(entries[p].key.as_str(), key.as_str())
        invariant
            p <= entries.len(),
            before == props_view(entries@),
            entries@ == old(entries)@,
            rank_from(before, key@, 0) == rank_from(before, key@, p as int),
            forall|j: int| 0 <= j < p ==> key_lt(#[trigger] before[j].0, key@),
        decreases entries.len() - p,
    {
        p += 1;
    }
    assert(rank_from(before, key@, 0) == p);
    if p < entries.len() && !key_before(key.as_str(), entries[p].key.as_str()) {
        let found = entries.remove(p);
        entries.insert(p, Member { key: found.key, value });
        assert(props_view(entries@) =~= before.update(p as int, (before[p as int].0, value@)));
        assert(entries_wf(entries@)) by {
            assert forall|i: int| 0 <= i < entries@.len() implies (#[trigger] entries@[i]).value.wf() by {
                if i != p {
                    assert(entries@[i] == old(entries)@[i]);
                }
            }
        }
        assert(ascending(props_view(entries@))) by {
            assert forall|i: int, j: int| 0 <= i < j < entries@.len() implies key_lt(
                #[trigger] props_view(entries@)[i].0,
                #[trigger] props_view(entries@)[j].0,
            ) by {
                assert(props_view(entries@)[i].0 == before[i].0);
                assert(props_view(entries@)[j].0 == before[j].0);
            }
        }
    } else {
        entries.insert(p, Member { key, value });
        assert(props_view(entries@) =~= before.insert(p as int, (key@, value@)));
        assert(entries_wf(entries@)) by {
            assert forall|i: int| 0 <= i < entries@.len() implies (#[trigger] entries@[i]).value.wf() by {
                if i < p {
                    assert(entries@[i] == old(entries)@[i]);
                } else if i > p {
                    assert(entries@[i] == old(entries)@[i - 1]);
                }
            }
        }
        assert(ascending(props_view(entries@))) by {
            let after = props_view(entries@);
            assert forall|i: int, j: int| 0 <= i < j < after.len() implies key_lt(
                #[trigger] after[i].0,
                #[trigger] after[j].0,
            ) by {
                if j < p {
                    assert(after[i].0 == before[i].0 && after[j].0 == before[j].0);
                } else if j == p {
                    assert(after[i].0 == before[i].0);
                } else if i == p {
                    assert(after[j].0 == before[j - 1].0);
                    assert(key_lt(key@, before[p as int].0));
                    if j - 1 > p {
                        assert(key_lt(before[p as int].0, before[j - 1].0));
                        bytes_lt_transitive(
                            vstd::utf8::encode_utf8(key@),
                            vstd::utf8::encode_utf8(before[p as int].0),
                            vstd::utf8::encode_utf8(before[j - 1].0),
                            0,
                        );
                    }
                } else if i < p {
                    assert(after[i].0 == before[i].0 && after[j].0 == before[j - 1].0);
                    assert(key_lt(before[i].0, key@));
                    assert(key_lt(key@, before[p as int].0));
                    bytes_lt_transitive(
                        vstd::utf8::encode_utf8(before[i].0),
                        vstd::utf8::encode_utf8(key@),
                        vstd::utf8::encode_utf8(before[p as int].0),
                        0,
                    );
                    if j - 1 > p {
                        assert(key_lt(before[p as int].0, before[j - 1].0));
                        bytes_lt_transitive(
                            vstd::utf8::encode_utf8(before[i].0),
                            vstd::utf8::encode_utf8(before[p as int].0),
                            vstd::utf8::encode_utf8(before[j - 1].0),
                            0,
                        );
                    }
                } else {
                    assert(after[i].0 == before[i - 1].0 && after[j].0 == before[j - 1].0);
                }
            }
        }
    }
}

/// Once reading the elements of an array has met a native type without a
/// host form, reading further elements yields the same fault.
pub proof fn read_items_fault_stays(items: Seq<Native>, upto: nat, more: nat)
    requires
        read_items(items, upto) is Err,
        upto <= more <= items.len(),
    ensures
        read_items(items, more) == read_items(items, upto),
    decreases more,
{
    if more > upto {
        read_items_fault_stays(items, upto, (more - 1) as nat);
    }
}

/// Once reading the properties of an object has met a native type without
/// a host form, reading further properties yields the same fault.
pub proof fn read_props_fault_stays(props: Props, upto: nat, more: nat)
    requires
        read_props(props, upto) is Err,
        upto <= more <= props.len(),
    ensures
        read_props(props, more) == read_props(props, upto),
    decreases more,
{
    if more > upto {
        read_props_fault_stays(props, upto, (more - 1) as nat);
    }
}

impl Value {
    /// Writes the value onto the top of the stack: exactly one new slot,
    /// which holds what the value stands for, and no other change.
    pub fn push<S: Stack>(&self, stack: &mut S)
        requires
            self.wf(),
        ensures
            final(stack).slots() == old(stack).slots().push(self@),
            final(stack).log() == old(stack).log(),
        decreases self,
    {
        let ghost base = stack.slots();
        match self {
            Value::Undefined => stack.push_undefined(),
            Value::Null => stack.push_null(),
            Value::Boolean(b) => stack.push_boolean(*b),
            Value::Number(bits) => stack.push_number(*bits),
            Value::String(text) => stack.push_string(text.as_str()),
            Value::Array(items) => {
                stack.push_array();
                assert(items_view(items@).take(0) =~= Seq::empty());
                let mut i: usize = 0;
                while i < items.len()
                    invariant
                        i <= items.len(),
                        stack.log() == old(stack).log(),
                        self.wf(),
                        self == Value::Array(*items),
                        stack.slots() == base.push(
                            Native::Array(items_view(items@).take(i as int)),
                        ),
                    decreases items.len() - i,
                {
                    let ghost filled = items_view(items@).take(i as int);
                    items[i].push(stack);
                    assert(stack.slots().drop_last() == base.push(Native::Array(filled)));
                    stack.put_prop_index(i);
                    assert(base.push(Native::Array(filled)).drop_last() == base);
                    assert(filled.push(items[i as int]@) == items_view(items@).take(i + 1));
                    i += 1;
                }
                proof {
                    assert(items_view(items@).take(i as int) == items_view(items@));
                    Value::array_view(*items);
                }
            },
            Value::Object(entries) => {
                stack.push_object();
                proof {
                    Value::object_view(*entries);
                }
                assert(props_view(entries@).take(0) =~= Seq::empty());
                let mut i: usize = 0;
                while i < entries.len()
                    invariant
                        i <= entries.len(),
                        stack.log() == old(stack).log(),
                        self.wf(),
                        self == Value::Object(*entries),
                        self@ == Native::Object(props_view(entries@)),
                        stack.slots() == base.push(
                            Native::Object(props_view(entries@).take(i as int)),
                        ),
                    decreases entries.len() - i,
                {
                    let ghost props = props_view(entries@);
                    let ghost filled = props.take(i as int);
                    stack.push_string(entries[i].key.as_str());
                    entries[i].value.push(stack);
                    proof {
                        let now = stack.slots();
                        assert(now.drop_last().drop_last() == base.push(Native::Object(filled)));
                        assert(now[now.len() - 3] == Native::Object(filled));
                        assert(now[now.len() - 2] == Native::Text(entries[i as int].key@));
                        assert forall|j: int| 0 <= j < filled.len() implies (#[trigger] filled[j]).0
                            != entries[i as int].key@ by {
                            assert(key_lt(props[j].0, props[i as int].0));
                            bytes_lt_irreflexive(vstd::utf8::encode_utf8(props[j].0), 0);
                        }
                    }
                    stack.put_prop();
                    assert(base.push(Native::Object(filled)).drop_last() == base);
                    assert(filled.push((entries[i as int].key@, entries[i as int].value@))
                        == props.take(i + 1));
                    i += 1;
                }
                proof {
                    assert(props_view(entries@).take(i as int) == props_view(entries@));
                }
            },
            Value::Bytes(bytes) => stack.push_buffer(bytes.as_slice()),
        }
    }

    /// Reads the engine value in a slot. Yields the host value that stands
    /// for it, each object's properties in key order, or
    /// `UnsupportedType` for the first raw pointer or light function on the
    /// way through it. The stack is left as it was found.
    pub fn get<S: Stack>(stack: &mut S, index: i32) -> (result: Result<Value, Error>)
        requires
            valid(old(stack).slots().len(), index),
        ensures
            final(stack).slots() == old(stack).slots(),
            final(stack).log() == old(stack).log(),
            match read(old(stack).slots()[slot(old(stack).slots().len(), index)]) {
                Ok(m) => result is Ok && result->Ok_0@ == m && result->Ok_0.wf(),
                Err(e) => result == Err::<Value, Error>(e),
            },
        decreases old(stack).slots()[slot(old(stack).slots().len(), index)],
    {
        let ghost base = stack.slots();
        let ghost subject = base[slot(base.len(), index)];
        let tag = stack.type_tag(index);
        if tag == TYPE_UNDEFINED {
            Ok(Value::Undefined)
        } else if tag == TYPE_NULL {
            Ok(Value::Null)
        } else if tag == TYPE_BOOLEAN {
            Ok(Value::Boolean(stack.get_boolean(index)))
        } else if tag == TYPE_NUMBER {
            Ok(Value::Number(stack.get_number(index)))
        } else if tag == TYPE_STRING {
            Ok(Value::String(stack.get_string(index)))
        } else if tag == TYPE_OBJECT {
            if stack.is_array(index) {
                let ghost items = subject->Array_0;
                let len = stack.get_length(index);
                let mut array: Vec<Value> = Vec::new();
                let mut i: usize = 0;
                assert(items_view(array@) =~= Seq::empty());
                while i < len
                    invariant
                        i <= len,
                        base == old(stack).slots(),
                        stack.log() == old(stack).log(),
                        len == items.len(),
                        stack.slots() == base,
                        subject == base[slot(base.len(), index)],
                        subject == Native::Array(items),
                        valid(base.len(), index),
                        read_items(items, i as nat) == Ok::<Seq<Native>, Error>(
                            items_view(array@),
                        ),
                        forall|j: int| 0 <= j < array@.len() ==> (#[trigger] array@[j]).wf(),
                    decreases len - i,
                {
                    stack.get_prop_index(index, i);
                    assert(stack.slots()[slot(stack.slots().len(), -1i32)] == items[i as int]);
                    let element = Value::get(stack, -1);
                    stack.pop();
                    assert(stack.slots() == base);
                    match element {
                        Ok(v) => {
                            let ghost before = items_view(array@);
                            array.push(v);
                            assert(items_view(array@) == before.push(v@));
                        },
                        Err(e) => {
                            proof {
                                read_items_fault_stays(items, (i + 1) as nat, len as nat);
                            }
                            return Err(e);
                        },
                    }
                    i += 1;
                }
                proof {
                    Value::array_view(array);
                }
                Ok(Value::Array(array))
            } else {
                let ghost props = crate::native::props_of(subject);
                stack.enumerate(index);
                let ghost at = base.len() as int;
                let mut entries: Vec<Member> = Vec::new();
                let ghost mut seen: nat = 0;
                assert(props_view(entries@) == Seq::<(Seq<char>, Native)>::empty());
                loop
                    invariant
                        seen <= props.len(),
                        base == old(stack).slots(),
                        stack.log() == old(stack).log(),
                        props == crate::native::props_of(subject),
                        subject == base[slot(base.len(), index)],
                        valid(base.len(), index),
                        at == base.len(),
                        stack.slots() == base.push(Native::Cursor(props, seen)),
                        read_props(props, seen) == Ok::<Props, Error>(props_view(entries@)),
                        ascending(props_view(entries@)),
                        entries_wf(entries@),
                    ensures
                        seen == props.len(),
                        stack.log() == old(stack).log(),
                        stack.slots() == base.push(Native::Cursor(props, seen)),
                        read_props(props, seen) == Ok::<Props, Error>(props_view(entries@)),
                        ascending(props_view(entries@)),
                        entries_wf(entries@),
                    decreases props.len() - seen,
                {
                    let more = stack.next(-1);
                    if !more {
                        break ;
                    }
                    let ghost walked = base.push(Native::Cursor(props, seen + 1));
                    assert(stack.slots().drop_last().drop_last() == walked);
                    let key = stack.get_string(-2);
                    assert(stack.slots()[slot(stack.slots().len(), -1i32)] == props[seen as int].1);
                    assert(subject == Native::Object(props));
                    let member = Value::get(stack, -1);
                    stack.pop_2();
                    assert(stack.slots() == walked);
                    match member {
                        Ok(v) => {
                            insert_sorted(&mut entries, key, v);
                        },
                        Err(e) => {
                            stack.pop();
                            assert(stack.slots() == base);
                            proof {
                                read_props_fault_stays(props, seen + 1, props.len());
                            }
                            return Err(e);
                        },
                    }
                    proof {
                        seen = seen + 1;
                    }
                }
                stack.pop();
                assert(stack.slots() == base);
                proof {
                    Value::object_view(entries);
                }
                Ok(Value::Object(entries))
            }
        } else if tag == TYPE_BUFFER {
            Ok(Value::Bytes(stack.get_buffer(index)))
        } else if tag == TYPE_POINTER {
            Err(Error::UnsupportedType("pointer"))
        } else if tag == TYPE_LIGHTFUNC {
            Err(Error::UnsupportedType("lightfunc"))
        } else {
            // No engine value has another tag: the stack's contract rules
            // this branch out.
            vstd::pervasive::unreached()
        }
    }
}

/// Round trip: reading what a well-formed value stands for gives the
/// value back. So a value that is pushed and then read from the slot it
/// went to comes back unchanged.
pub proof fn read_gives_back(v: Value)
    requires
        v.wf(),
    ensures
        read(v@) == Ok::<Native, Error>(v@),
    decreases v, 1nat, 0nat,
{
    match v {
        Value::Array(items) => {
            Value::array_view(items);
            read_items_gives_back(v, items@.len());
            assert(items_view(items@).take(items@.len() as int) =~= items_view(items@));
        },
        Value::Object(entries) => {
            Value::object_view(entries);
            read_props_gives_back(v, entries@.len());
            assert(props_view(entries@).take(entries@.len() as int) =~= props_view(entries@));
        },
        _ => {},
    }
}

/// Round trip for the first `upto` elements of an array.
pub proof fn read_items_gives_back(v: Value, upto: nat)
    requires
        v is Array,
        v.wf(),
        upto <= v->Array_0@.len(),
    ensures
        read_items(items_view(v->Array_0@), upto) == Ok::<Seq<Native>, Error>(
            items_view(v->Array_0@).take(upto as int),
        ),
    decreases v, 0nat, upto,
{
    let items = items_view(v->Array_0@);
    if upto > 0 {
        read_items_gives_back(v, (upto - 1) as nat);
        read_gives_back(v->Array_0@[upto - 1]);
        assert(items.take(upto - 1).push(items[upto - 1]) =~= items.take(upto as int));
    } else {
        assert(items.take(0) =~= Seq::empty());
    }
}

/// Round trip for the first `upto` properties of an object.
pub proof fn read_props_gives_back(v: Value, upto: nat)
    requires
        v is Object,
        v.wf(),
        upto <= v->Object_0@.len(),
    ensures
        read_props(props_view(v->Object_0@), upto) == Ok::<Props, Error>(
            props_view(v->Object_0@).take(upto as int),
        ),
    decreases v, 0nat, upto,
{
    let props = props_view(v->Object_0@);
    Value::object_view(v->Object_0);
    if upto > 0 {
        read_props_gives_back(v, (upto - 1) as nat);
        read_gives_back(v->Object_0@[upto - 1].value);
        let seen = props.take(upto - 1);
        let key = props[upto - 1].0;
        assert forall|j: int| 0 <= j < seen.len() implies key_lt(#[trigger] seen[j].0, key) by {
            assert(key_lt(props[j].0, props[upto - 1].0));
        }
        rank_at_end(seen, key, 0);
        assert(seen.insert(upto - 1, props[upto - 1]) =~= props.take(upto as int));
    } else {
        assert(props.take(0) =~= Seq::empty());
    }
}

impl Value {
    /// A deep copy: a value that stands for the same engine value, and is
    /// well formed where this one is.
    pub fn clone(&self) -> (twin: Value)
        ensures
            twin@ == self@,
            self.wf() ==> twin.wf(),
        decreases self,
    {
        match self {
            Value::Undefined => Value::Undefined,
            Value::Null => Value::Null,
            Value::Boolean(b) => Value::Boolean(*b),
            Value::Number(bits) => Value::Number(*bits),
            Value::String(text) => Value::String(text.clone()),
            Value::Array(items) => {
                let out = copy_values(items);
                proof {
                    Value::array_view(out);
                    Value::array_view(*items);
                    assert(items_view(out@) =~= items_view(items@));
                }
                Value::Array(out)
            },
            Value::Object(entries) => {
                let out = copy_members(entries);
                proof {
                    Value::object_view(out);
                    Value::object_view(*entries);
                    assert(props_view(out@) =~= props_view(entries@));
                }
                Value::Object(out)
            },
            Value::Bytes(bytes) => Value::Bytes(crate::heap::copy_bytes(bytes.as_slice())),
        }
    }
}

/// A deep copy of a list of values, element by element.
pub fn copy_values(values: &Vec<Value>) -> (out: Vec<Value>)
    ensures
        out@.len() == values@.len(),
        forall|j: int|
            0 <= j < values@.len() ==> (#[trigger] out@[j])@ == values@[j]@ && (values@[j].wf()
                ==> out@[j].wf()),
    decreases values,
{
    let mut out: Vec<Value> = Vec::new();
    let mut i: usize = 0;
    while i < values.len()
        invariant
            i <= values.len(),
            out@.len() == i,
            forall|j: int|
                0 <= j < i ==> (#[trigger] out@[j])@ == values@[j]@ && (values@[j].wf()
                    ==> out@[j].wf()),
        decreases values.len() - i,
    {
        out.push(values[i].clone());
        i += 1;
    }
    out
}

/// A deep copy of a list of entries, entry by entry.
pub fn copy_members(entries: &Vec<Member>) -> (out: Vec<Member>)
    ensures
        out@.len() == entries@.len(),
        forall|j: int|
            0 <= j < entries@.len() ==> (#[trigger] out@[j]).key@ == entries@[j].key@
                && out@[j].value@ == entries@[j].value@ && (entries@[j].value.wf()
                ==> out@[j].value.wf()),
    decreases entries,
{
    let mut out: Vec<Member> = Vec::new();
    let mut i: usize = 0;
    while i < entries.len()
        invariant
            i <= entries.len(),
            out@.len() == i,
            forall|j: int|
                0 <= j < i ==> (#[trigger] out@[j]).key@ == entries@[j].key@ && out@[j].value@
                    == entries@[j].value@ && (entries@[j].value.wf() ==> out@[j].value.wf()),
        decreases entries.len() - i,
    {
        let key = entries[i].key.clone();
        let value = entries[i].value.clone();
        out.push(Member { key, value });
        i += 1;
    }
    out
}

impl Value {
    /// Tests whether the value is well formed.
    pub fn is_wf(&self) -> (ok: bool)
        ensures
            ok == self.wf(),
        decreases self,
    {
        match self {
            Value::Array(items) => values_are_wf(items),
            Value::Object(entries) => {
                proof {
                    Value::object_view(*entries);
                }
                members_are_wf(entries)
            },
            _ => true,
        }
    }
}

/// Tests whether every value of a list is well formed.
pub fn values_are_wf(values: &Vec<Value>) -> (ok: bool)
    ensures
        ok == (forall|j: int| 0 <= j < values@.len() ==> (#[trigger] values@[j]).wf()),
    decreases values,
{
    let mut i: usize = 0;
    while i < values.len()
        invariant
            i <= values.len(),
            forall|j: int| 0 <= j < i ==> (#[trigger] values@[j]).wf(),
        decreases values.len() - i,
    {
        if !values[i].is_wf() {
            return false;
        }
        i += 1;
    }
    true
}

/// Tests whether the keys of a list of entries ascend strictly and every
/// value in it is well formed.
pub fn members_are_wf(entries: &Vec<Member>) -> (ok: bool)
    ensures
        ok == (ascending(props_view(entries@)) && entries_wf(entries@)),
    decreases entries,
{
    let ghost props = props_view(entries@);
    let mut i: usize = 0;
    while i < entries.len()
        invariant
            i <= entries.len(),
            props == props_view(entries@),
            forall|j: int| 0 <= j < i ==> (#[trigger] entries@[j]).value.wf(),
            forall|a: int, b: int|
                0 <= a < b < i ==> key_lt(#[trigger] props[a].0, #[trigger] props[b].0),
        decreases entries.len() - i,
    {
        if !entries[i].value.is_wf() {
            return false;
        }
        if i > 0 {
            if !key_before(entries[i - 1].key.as_str(), entries[i].key.as_str()) {
                assert(!key_lt(props[i - 1].0, props[i as int].0));
                return false;
            }
            assert forall|a: int| 0 <= a < i implies key_lt(
                #[trigger] props[a].0,
                props[i as int].0,
            ) by {
                if a < i - 1 {
                    assert(key_lt(props[a].0, props[i - 1].0));
                    bytes_lt_transitive(
                        vstd::utf8::encode_utf8(props[a].0),
                        vstd::utf8::encode_utf8(props[i - 1].0),
                        vstd::utf8::encode_utf8(props[i as int].0),
                        0,
                    );
                }
            }
        }
        i += 1;
    }
    true
}

} // verus!
