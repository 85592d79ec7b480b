//! The capability that the boundary consumes from an engine: a narrow
//! stack-machine interface, with contracts over the model of its stack.

use vstd::prelude::*;
use crate::error::known_code;
use crate::native::{
    no_nul, props_of, slot, tag_of, valid, Native, Request, Run, TYPE_OBJECT,
};

verus! {

/// The model of a stack: its slots, bottom first.
pub type Slots = Seq<Native>;

/// A position in the model of a stack, counted from the bottom.
pub type Place = int;

/// A string in the model.
pub type Chars = Seq<char>;

/// The model of an engine's record of runs, oldest first.
pub type Log = Seq<Run>;

/// An engine's value stack, and the few engine operations that work on it.
///
/// A stack index names a slot from the bottom when it is not negative and
/// from the top when it is, so `-1` is the top.
///
/// The first functions are the model that the contracts speak of: the stack
/// as a sequence of values, what the engine knows beyond it, and the record
/// of what it was asked to run. They are never run.
pub trait Stack {
    /// The stack, bottom first.
    spec fn slots(&self) -> Seq<Native>;

    /// The fault code that the engine reports for the value in slot `at`.
    spec fn fault_code(&self, at: int) -> i32;

    /// The engine's defensive string rendering of the value in slot `at`.
    spec fn rendering(&self, at: int) -> Seq<char>;

    /// Whether the object in slot `at` has a property called `name`.
    spec fn has_property(&self, at: int, name: Seq<char>) -> bool;

    /// The value of the property `name` of the object in slot `at`, and
    /// `undefined` where it has none.
    spec fn property(&self, at: int, name: Seq<char>) -> Native;

    /// Whether the global object has a property called `name`.
    spec fn has_global(&self, name: Seq<char>) -> bool;

    /// The value of the global object's property `name`, and `undefined`
    /// where it has none.
    spec fn global(&self, name: Seq<char>) -> Native;

    /// The record of the evaluations and calls that the engine was asked
    /// for, oldest first.
    spec fn log(&self) -> Seq<Run>;

    /// The number of slots.
    fn top(&self) -> (n: usize)
        ensures
            n == self.slots().len(),
    ;

    /// The type tag of a slot.
    fn type_tag(&self, index: i32) -> (tag: i32)
        requires
            valid(self.slots().len(), index),
        ensures
            tag == tag_of(self.slots()[slot(self.slots().len(), index)]),
    ;

    /// Reads a boolean.
    fn get_boolean(&self, index: i32) -> (b: bool)
        requires
            valid(self.slots().len(), index),
            self.slots()[slot(self.slots().len(), index)] is Boolean,
        ensures
            self.slots()[slot(self.slots().len(), index)] == Native::Boolean(b),
    ;

    /// Reads a number, as its bit pattern.
    fn get_number(&self, index: i32) -> (bits: u64)
        requires
            valid(self.slots().len(), index),
            self.slots()[slot(self.slots().len(), index)] is Number,
        ensures
            self.slots()[slot(self.slots().len(), index)] == Native::Number(bits),
    ;

    /// Reads a string.
    fn get_string(&self, index: i32) -> (text: String)
        requires
            valid(self.slots().len(), index),
            self.slots()[slot(self.slots().len(), index)] is Text,
        ensures
            self.slots()[slot(self.slots().len(), index)] == Native::Text(text@),
    ;

    /// Copies the bytes of a buffer.
    fn get_buffer(&self, index: i32) -> (bytes: Vec<u8>)
        requires
            valid(self.slots().len(), index),
            self.slots()[slot(self.slots().len(), index)] is Buffer,
        ensures
            self.slots()[slot(self.slots().len(), index)] == Native::Buffer(bytes@),
    ;

    /// Whether the object in a slot is an array.
    fn is_array(&self, index: i32) -> (b: bool)
        requires
            valid(self.slots().len(), index),
        ensures
            b == (self.slots()[slot(self.slots().len(), index)] is Array),
    ;

    /// The number of elements of an array.
    fn get_length(&self, index: i32) -> (n: usize)
        requires
            valid(self.slots().len(), index),
            self.slots()[slot(self.slots().len(), index)] is Array,
        ensures
            n == self.slots()[slot(self.slots().len(), index)]->Array_0.len(),
    ;

    /// Pushes element `i` of the array in a slot.
    fn get_prop_index(&mut self, index: i32, i: usize)
        requires
            valid(old(self).slots().len(), index),
            old(self).slots()[slot(old(self).slots().len(), index)] is Array,
            i < old(self).slots()[slot(old(self).slots().len(), index)]->Array_0.len(),
        ensures
            final(self).log() == old(self).log(),
            final(self).slots() == old(self).slots().push(
                old(self).slots()[slot(old(self).slots().len(), index)]->Array_0[i as int],
            ),
    ;

    /// Pushes a cursor over the own properties of the object in a slot.
    fn enumerate(&mut self, index: i32)
        requires
            valid(old(self).slots().len(), index),
            tag_of(old(self).slots()[slot(old(self).slots().len(), index)]) == TYPE_OBJECT,
            !(old(self).slots()[slot(old(self).slots().len(), index)] is Array),
        ensures
            final(self).log() == old(self).log(),
            final(self).slots() == old(self).slots().push(
                Native::Cursor(
                    props_of(old(self).slots()[slot(old(self).slots().len(), index)]),
                    0,
                ),
            ),
    ;

    /// Advances the cursor in a slot. While a property is left, pushes its
    /// key and then its value and returns `true`; after the last one,
    /// pushes nothing and returns `false`.
    fn next(&mut self, index: i32) -> (more: bool)
        requires
            valid(old(self).slots().len(), index),
            old(self).slots()[slot(old(self).slots().len(), index)] is Cursor,
        ensures
            final(self).log() == old(self).log(),
            ({
                let at = slot(old(self).slots().len(), index);
                let props = old(self).slots()[at]->Cursor_0;
                let seen = old(self).slots()[at]->Cursor_1;
                &&& more == (seen < props.len())
                &&& more ==> final(self).slots() == old(self).slots().update(
                    at,
                    Native::Cursor(props, seen + 1),
                ).push(Native::Text(props[seen as int].0)).push(props[seen as int].1)
                &&& !more ==> final(self).slots() == old(self).slots()
            }),
    ;

    /// Pops the top slot.
    fn pop(&mut self)
        requires
            old(self).slots().len() >= 1,
        ensures
            final(self).log() == old(self).log(),
            final(self).slots() == old(self).slots().drop_last(),
    ;

    /// Pops the two top slots.
    fn pop_2(&mut self)
        requires
            old(self).slots().len() >= 2,
        ensures
            final(self).log() == old(self).log(),
            final(self).slots() == old(self).slots().drop_last().drop_last(),
    ;

    /// Pushes `undefined`.
    fn push_undefined(&mut self)
        ensures
            final(self).log() == old(self).log(),
            final(self).slots() == old(self).slots().push(Native::Undefined),
    ;

    /// Pushes `null`.
    fn push_null(&mut self)
        ensures
            final(self).log() == old(self).log(),
            final(self).slots() == old(self).slots().push(Native::Null),
    ;

    /// Pushes a boolean.
    fn push_boolean(&mut self, b: bool)
        ensures
            final(self).log() == old(self).log(),
            final(self).slots() == old(self).slots().push(Native::Boolean(b)),
    ;

    /// Pushes a number, given as its bit pattern.
    fn push_number(&mut self, bits: u64)
        ensures
            final(self).log() == old(self).log(),
            final(self).slots() == old(self).slots().push(Native::Number(bits)),
    ;

    /// Pushes a string.
    fn push_string(&mut self, text: &str)
        ensures
            final(self).log() == old(self).log(),
            final(self).slots() == old(self).slots().push(Native::Text(text@)),
    ;

    /// Pushes a fresh buffer that holds a copy of `bytes`.
    fn push_buffer(&mut self, bytes: &[u8])
        ensures
            final(self).log() == old(self).log(),
            final(self).slots() == old(self).slots().push(Native::Buffer(bytes@)),
    ;

    /// Pushes a fresh array without elements.
    fn push_array(&mut self)
        ensures
            final(self).log() == old(self).log(),
            final(self).slots() == old(self).slots().push(Native::Array(Seq::empty())),
    ;

    /// Pushes a fresh object without properties.
    fn push_object(&mut self)
        ensures
            final(self).log() == old(self).log(),
            final(self).slots() == old(self).slots().push(Native::Object(Seq::empty())),
    ;

    /// Pops the top slot and appends it to the array just below it, as
    /// element `i`, where `i` is the array's length.
    fn put_prop_index(&mut self, i: usize)
        requires
            old(self).slots().len() >= 2,
            old(self).slots()[old(self).slots().len() - 2] is Array,
            i == old(self).slots()[old(self).slots().len() - 2]->Array_0.len(),
        ensures
            final(self).log() == old(self).log(),
            final(self).slots() == old(self).slots().drop_last().drop_last().push(
                Native::Array(
                    old(self).slots()[old(self).slots().len() - 2]->Array_0.push(
                        old(self).slots().last(),
                    ),
                ),
            ),
    ;

    /// Pops a value and the key below it, and binds the value to the key in
    /// the object below both. The key is new to the object, and comes last
    /// when its properties are enumerated.
    fn put_prop(&mut self)
        requires
            old(self).slots().len() >= 3,
            old(self).slots()[old(self).slots().len() - 3] is Object,
            old(self).slots()[old(self).slots().len() - 2] is Text,
            forall|j: int|
                0 <= j < old(self).slots()[old(self).slots().len() - 3]->Object_0.len()
                    ==> (#[trigger] old(self).slots()[old(self).slots().len()
                    - 3]->Object_0[j]).0 != old(self).slots()[old(self).slots().len()
                    - 2]->Text_0,
        ensures
            final(self).log() == old(self).log(),
            final(self).slots() == old(self).slots().drop_last().drop_last().drop_last().push(
                Native::Object(
                    old(self).slots()[old(self).slots().len() - 3]->Object_0.push(
                        (
                            old(self).slots()[old(self).slots().len() - 2]->Text_0,
                            old(self).slots().last(),
                        ),
                    ),
                ),
            ),
    ;

    /// The fault code of the value in a slot: one of the codes that the
    /// engine defines.
    fn error_code(&self, index: i32) -> (code: i32)
        requires
            valid(self.slots().len(), index),
        ensures
            code == self.fault_code(slot(self.slots().len(), index)),
            known_code(code),
    ;

    /// Replaces the value in a slot by its defensive string rendering, and
    /// returns that string.
    fn safe_to_string(&mut self, index: i32) -> (text: String)
        requires
            valid(old(self).slots().len(), index),
        ensures
            final(self).log() == old(self).log(),
            text@ == old(self).rendering(slot(old(self).slots().len(), index)),
            final(self).slots() == old(self).slots().update(
                slot(old(self).slots().len(), index),
                Native::Text(text@),
            ),
    ;

    /// Pushes the global object.
    fn push_global_object(&mut self)
        ensures
            final(self).log() == old(self).log(),
            forall|name: Seq<char>| #[trigger]
                final(self).has_property(old(self).slots().len() as int, name) == old(
                    self,
                ).has_global(name),
            forall|name: Seq<char>| #[trigger]
                final(self).property(old(self).slots().len() as int, name) == old(self).global(
                    name,
                ),
            final(self).slots().len() == old(self).slots().len() + 1,
            final(self).slots().drop_last() == old(self).slots(),
    ;

    /// Pushes the property `name` of the object in a slot, or `undefined`
    /// where the object has no such property, and returns whether it has.
    fn get_prop_string(&mut self, index: i32, name: &str) -> (found: bool)
        requires
            valid(old(self).slots().len(), index),
            no_nul(name@),
        ensures
            final(self).log() == old(self).log(),
            found == old(self).has_property(slot(old(self).slots().len(), index), name@),
            final(self).slots() == old(self).slots().push(
                old(self).property(slot(old(self).slots().len(), index), name@),
            ),
    ;

    /// Evaluates source text under the engine's protection. Pushes one
    /// slot, the result or the thrown value, and returns zero exactly for a
    /// result. The record gains the source and what came of it.
    fn peval_string(&mut self, source: &str) -> (status: i32)
        ensures
            final(self).slots().len() == old(self).slots().len() + 1,
            final(self).log() == old(self).log().push(
                (Run {
                    request: Request::Source(source@),
                    status,
                    left: final(self).slots().last(),
                    fault: final(self).fault_code(old(self).slots().len() as int),
                    text: final(self).rendering(old(self).slots().len() as int),
                }),
            ),
    ;

    /// Evaluates the file at `path` under the engine's protection. Pushes
    /// one slot, the result or the thrown value, and returns zero exactly
    /// for a result. The record gains the path and what came of it.
    fn peval_file(&mut self, path: &str) -> (status: i32)
        requires
            no_nul(path@),
        ensures
            final(self).slots().len() == old(self).slots().len() + 1,
            final(self).log() == old(self).log().push(
                (Run {
                    request: Request::File(path@),
                    status,
                    left: final(self).slots().last(),
                    fault: final(self).fault_code(old(self).slots().len() as int),
                    text: final(self).rendering(old(self).slots().len() as int),
                }),
            ),
    ;

    /// Calls, under the engine's protection, the function that lies below
    /// the `nargs` top slots, with those slots as its arguments. Replaces
    /// function and arguments by one slot, the result or the thrown value,
    /// and returns zero exactly for a result. The record gains the
    /// function, the arguments and what came of the call.
    fn pcall(&mut self, nargs: usize) -> (status: i32)
        requires
            old(self).slots().len() >= nargs + 1,
        ensures
            final(self).slots().len() == old(self).slots().len() - nargs,
            final(self).log() == old(self).log().push(
                (Run {
                    request: Request::Call(
                        old(self).slots()[old(self).slots().len() - nargs - 1],
                        old(self).slots().subrange(
                            old(self).slots().len() - nargs,
                            old(self).slots().len() as int,
                        ),
                    ),
                    status,
                    left: final(self).slots().last(),
                    fault: final(self).fault_code(old(self).slots().len() - nargs - 1),
                    text: final(self).rendering(old(self).slots().len() - nargs - 1),
                }),
            ),
    ;
}

} // verus!
