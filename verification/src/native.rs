//! A mathematical model of the values an engine holds on its stack, and of
//! what reading one of them yields.

use vstd::prelude::*;
use crate::error::Error;

verus! {

/// Type tag of `undefined`.
pub const TYPE_UNDEFINED: i32 = 1;
/// Type tag of `null`.
pub const TYPE_NULL: i32 = 2;
/// Type tag of a boolean.
pub const TYPE_BOOLEAN: i32 = 3;
/// Type tag of a number.
pub const TYPE_NUMBER: i32 = 4;
/// Type tag of a string.
pub const TYPE_STRING: i32 = 5;
/// Type tag of an object, arrays and property cursors included.
pub const TYPE_OBJECT: i32 = 6;
/// Type tag of a byte buffer.
pub const TYPE_BUFFER: i32 = 7;
/// Type tag of a raw pointer.
pub const TYPE_POINTER: i32 = 8;
/// Type tag of a light function.
pub const TYPE_LIGHTFUNC: i32 = 9;

/// The own properties of an object, in the order the engine enumerates them.
pub type Props = Seq<(Seq<char>, Native)>;

/// An engine value, as far as the boundary can observe it.
pub enum Native {
    /// `undefined`.
    Undefined,
    /// `null`.
    Null,
    /// A boolean.
    Boolean(bool),
    /// A number, as the bit pattern of its IEEE 754 binary64 form.
    Number(u64),
    /// A string.
    Text(Seq<char>),
    /// An array and its elements.
    Array(Seq<Native>),
    /// Any other object and its own properties.
    Object(Props),
    /// A byte buffer.
    Buffer(Seq<u8>),
    /// A raw pointer.
    Pointer,
    /// A light function.
    Lightfunc,
    /// A cursor over the own properties of an object: the properties and
    /// how many of them it has handed out.
    Cursor(Props, nat),
}

/// The type tag under which the engine reports `n`.
pub open spec fn tag_of(n: Native) -> i32 {
    match n {
        Native::Undefined => TYPE_UNDEFINED,
        Native::Null => TYPE_NULL,
        Native::Boolean(_) => TYPE_BOOLEAN,
        Native::Number(_) => TYPE_NUMBER,
        Native::Text(_) => TYPE_STRING,
        Native::Array(_) => TYPE_OBJECT,
        Native::Object(_) => TYPE_OBJECT,
        Native::Buffer(_) => TYPE_BUFFER,
        Native::Pointer => TYPE_POINTER,
        Native::Lightfunc => TYPE_LIGHTFUNC,
        Native::Cursor(_, _) => TYPE_OBJECT,
    }
}

/// The own properties that enumerating `n` walks. A cursor is an object
/// without own properties.
pub open spec fn props_of(n: Native) -> Props {
    match n {
        Native::Object(props) => props,
        _ => Seq::empty(),
    }
}

/// The slot that a stack index names on a stack of `len` slots: counted
/// from the bottom when it is not negative, from the top when it is.
pub open spec fn slot(len: nat, index: i32) -> int {
    if index >= 0 {
        index as int
    } else {
        len + index
    }
}

/// Whether `index` names a slot of a stack of `len` slots.
pub open spec fn valid(len: nat, index: i32) -> bool {
    0 <= slot(len, index) < len
}

/// Whether a text holds no NUL character, so that it can be handed to the
/// engine as a name.
pub open spec fn no_nul(text: Seq<char>) -> bool {
    forall|i: int| 0 <= i < text.len() ==> text[i] != '\0'
}

/// Whether `a` comes before `b` from position `i` on, bytes compared one by
/// one and a proper prefix first.
pub open spec fn bytes_lt_from(a: Seq<u8>, b: Seq<u8>, i: int) -> bool
    decreases a.len() - i,
{
    if i < 0 || i >= b.len() {
        false
    } else if i >= a.len() {
        true
    } else if a[i] != b[i] {
        a[i] < b[i]
    } else {
        bytes_lt_from(a, b, i + 1)
    }
}

/// The order of object keys: that of their UTF-8 bytes.
pub open spec fn key_lt(a: Seq<char>, b: Seq<char>) -> bool {
    bytes_lt_from(vstd::utf8::encode_utf8(a), vstd::utf8::encode_utf8(b), 0)
}

/// Whether the keys of `props` ascend strictly, so that none occurs twice.
pub open spec fn ascending(props: Props) -> bool {
    forall|i: int, j: int| 0 <= i < j < props.len() ==> key_lt(#[trigger] props[i].0, #[trigger] props[j].0)
}

/// The first position at or after `i` whose key does not come before `key`.
pub open spec fn rank_from(props: Props, key: Seq<char>, i: int) -> int
    decreases props.len() - i,
{
    if i < 0 || i >= props.len() || !key_lt(props[i].0, key) {
        i
    } else {
        rank_from(props, key, i + 1)
    }
}

/// `props` with `value` bound to `key` at its place in key order. A key
/// that is already there keeps its place and gets the new value.
pub open spec fn bind(props: Props, key: Seq<char>, value: Native) -> Props {
    let p = rank_from(props, key, 0);
    if p < props.len() && !key_lt(key, props[p].0) {
        props.update(p, (props[p].0, value))
    } else {
        props.insert(p, (key, value))
    }
}

/// What reading `n` across the boundary yields: the value with every
/// object's properties in key order, or the first native type on the way
/// through it that has no host form.
pub open spec fn read(n: Native) -> Result<Native, Error>
    decreases n, 0nat,
{
    match n {
        Native::Array(items) => match read_items(items, items.len()) {
            Ok(out) => Ok(Native::Array(out)),
            Err(e) => Err(e),
        },
        Native::Object(props) => match read_props(props, props.len()) {
            Ok(out) => Ok(Native::Object(out)),
            Err(e) => Err(e),
        },
        Native::Cursor(_, _) => Ok(Native::Object(Seq::empty())),
        Native::Pointer => Err(Error::UnsupportedType("pointer")),
        Native::Lightfunc => Err(Error::UnsupportedType("lightfunc")),
        _ => Ok(n),
    }
}

/// What reading the first `upto` elements of an array yields.
pub open spec fn read_items(items: Seq<Native>, upto: nat) -> Result<Seq<Native>, Error>
    decreases items, upto,
{
    if upto == 0 || upto > items.len() {
        Ok(Seq::empty())
    } else {
        match read_items(items, (upto - 1) as nat) {
            Err(e) => Err(e),
            Ok(out) => match read(items[upto - 1]) {
                Err(e) => Err(e),
                Ok(m) => Ok(out.push(m)),
            },
        }
    }
}

/// What reading the first `upto` properties of an object yields.
pub open spec fn read_props(props: Props, upto: nat) -> Result<Props, Error>
    decreases props, upto,
{
    if upto == 0 || upto > props.len() {
        Ok(Seq::empty())
    } else {
        match read_props(props, (upto - 1) as nat) {
            Err(e) => Err(e),
            Ok(out) => match read(props[upto - 1].1) {
                Err(e) => Err(e),
                Ok(m) => Ok(bind(out, props[upto - 1].0, m)),
            },
        }
    }
}

/// What an engine was asked to run.
pub enum Request {
    /// The evaluation of a source text.
    Source(Seq<char>),
    /// The evaluation of the file at a path.
    File(Seq<char>),
    /// The call of a function with a list of arguments, first argument
    /// first.
    Call(Native, Seq<Native>),
}

/// One entry of an engine's record of runs: what it was asked, and what
/// came of it.
pub struct Run {
    /// What the engine was asked to run.
    pub request: Request,
    /// The status it returned: zero for a result, anything else for a
    /// thrown value.
    pub status: i32,
    /// The value it left on top of the stack.
    pub left: Native,
    /// The fault code it reports for that value.
    pub fault: i32,
    /// Its defensive string rendering of that value.
    pub text: Seq<char>,
}

} // verus!
