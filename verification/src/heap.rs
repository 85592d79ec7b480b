//! A value stack held in host memory: an engine without an interpreter.
//!
//! It stores and hands out values exactly as the [`Stack`] contracts say.
//! In place of running script code it gives the answers that were prepared
//! for a source text, and calls stub functions that return a value, throw a
//! value, or hand back their arguments.

use vstd::prelude::*;
use crate::error::{known_code, JsErrorKind, ERR_ERROR, ERR_NONE, ERR_TYPE};
use crate::native::{
    props_of, slot, valid, Native, Props, Request, Run, TYPE_BOOLEAN, TYPE_BUFFER,
    TYPE_LIGHTFUNC, TYPE_NULL, TYPE_NUMBER, TYPE_OBJECT, TYPE_POINTER, TYPE_STRING,
    TYPE_UNDEFINED,
};
use crate::stack::Stack;

verus! {

/// A value on a [`Heap`].
#[derive(Debug, PartialEq)]
pub enum Node {
    /// `undefined`.
    Undefined,
    /// `null`.
    Null,
    /// A boolean.
    Boolean(bool),
    /// A number, as the bit pattern of its IEEE 754 binary64 form.
    Number(u64),
    /// A string.
    Text(String),
    /// An array and its elements.
    Array(Vec<Node>),
    /// An object and its own properties, in the order they were bound.
    Object(Vec<Field>),
    /// A byte buffer.
    Buffer(Vec<u8>),
    /// A raw pointer.
    Pointer,
    /// A light function.
    Lightfunc,
    /// A cursor over properties, and how many it has handed out.
    Cursor(Vec<Field>, usize),
    /// An error object: its fault code, and how it renders as a string.
    Fault(i32, String),
    /// A function that returns a copy of a value, whatever its arguments.
    Constant(Box<Node>),
    /// A function that throws a copy of a value, whatever its arguments.
    Thrower(Box<Node>),
    /// A function that returns its arguments as an array.
    Collector,
}

/// A prepared answer: what evaluating a source text, or the file at a
/// path, leaves on the stack, and whether it was thrown.
#[derive(Debug, PartialEq)]
pub struct Script {
    /// The source text, or the path of the file.
    pub source: String,
    /// Whether the outcome is a thrown value.
    pub thrown: bool,
    /// The result, or the thrown value.
    pub outcome: Node,
}

/// One own property of an object on a [`Heap`].
#[derive(Debug, PartialEq)]
pub struct Field {
    /// The property's name.
    pub key: String,
    /// The property's value.
    pub value: Node,
}

/// The engine values that a list of nodes stands for.
pub open spec fn nodes_view(nodes: Seq<Node>) -> Seq<Native> {
    Seq::new(nodes.len(), |i: int| nodes[i]@)
}

/// The properties that a list of fields stands for.
pub open spec fn fields_view(fields: Seq<Field>) -> Props {
    Seq::new(fields.len(), |i: int| (fields[i].key@, fields[i].value@))
}

/// The answer that was prepared first for `source`, among those from
/// position `i` on.
pub open spec fn first_answer(scripts: Seq<Script>, source: Seq<char>, i: int) -> Option<Script>
    decreases scripts.len() - i,
{
    if i < 0 || i >= scripts.len() {
        None
    } else if scripts[i].source@ == source {
        Some(scripts[i])
    } else {
        first_answer(scripts, source, i + 1)
    }
}

/// What a heap leaves on its stack for an evaluation, given the answer
/// that was prepared: the outcome, or a thrown message where there is none.
pub open spec fn answered(answer: Option<Script>) -> Native {
    match answer {
        Some(script) => script.outcome@,
        None => Native::Text("evaluation is not supported"@),
    }
}

/// The status of an evaluation, given the answer that was prepared: zero
/// for a result, one for a thrown value.
pub open spec fn answered_status(answer: Option<Script>) -> i32 {
    match answer {
        Some(script) => if script.thrown {
            1
        } else {
            0
        },
        None => 1,
    }
}

/// What a heap leaves on its stack for a call of `callee` with `args`:
/// what a stub function returns or throws, and an error object for
/// anything that is no function.
pub open spec fn called(callee: Node, args: Seq<Native>) -> Native {
    match callee {
        Node::Constant(value) => (*value)@,
        Node::Thrower(value) => (*value)@,
        Node::Collector => Native::Array(args),
        _ => Native::Object(Seq::empty()),
    }
}

/// The status of a call of `callee`: zero where it returns, one where it
/// throws or is no function.
pub open spec fn called_status(callee: Node) -> i32 {
    match callee {
        Node::Constant(_) => 0,
        Node::Collector => 0,
        _ => 1,
    }
}

/// The fault code of what a call of `callee` leaves on the stack.
pub open spec fn called_fault(callee: Node) -> i32 {
    match callee {
        Node::Constant(value) => (*value).fault(),
        Node::Thrower(value) => (*value).fault(),
        Node::Collector => ERR_NONE,
        _ => ERR_TYPE,
    }
}

/// How a heap renders what a call of `callee` leaves on the stack.
pub open spec fn called_text(callee: Node, args: Seq<Native>) -> Seq<char> {
    match callee {
        Node::Constant(value) => (*value).text(),
        Node::Thrower(value) => (*value).text(),
        Node::Collector => rendered(Native::Array(args)),
        _ => "TypeError: not callable"@,
    }
}

/// The value of the first of `props`, from position `i` on, that is called
/// `name`.
pub open spec fn first_named(props: Props, name: Seq<char>, i: int) -> Option<Native>
    decreases props.len() - i,
{
    if i < 0 || i >= props.len() {
        None
    } else if props[i].0 == name {
        Some(props[i].1)
    } else {
        first_named(props, name, i + 1)
    }
}

/// The value that a lookup found, and `undefined` where it found none.
pub open spec fn found_or_undefined(found: Option<Native>) -> Native {
    match found {
        Some(value) => value,
        None => Native::Undefined,
    }
}

/// Whether one of `props` is called `name`.
pub open spec fn has_key(props: Props, name: Seq<char>) -> bool {
    exists|i: int| 0 <= i < props.len() && (#[trigger] props[i]).0 == name
}

/// How a [`Heap`] renders a value as a string: a string as itself,
/// `undefined`, `null` and booleans as script prints them, and any other
/// value as the name of its type in brackets.
pub open spec fn rendered(n: Native) -> Seq<char> {
    match n {
        Native::Undefined => "undefined"@,
        Native::Null => "null"@,
        Native::Boolean(b) => if b {
            "true"@
        } else {
            "false"@
        },
        Native::Number(_) => "[number]"@,
        Native::Text(text) => text,
        Native::Array(_) => "[array]"@,
        Native::Object(_) => "[object]"@,
        Native::Buffer(_) => "[buffer]"@,
        Native::Pointer => "[pointer]"@,
        Native::Lightfunc => "[lightfunc]"@,
        Native::Cursor(_, _) => "[object]"@,
    }
}

impl View for Node {
    type V = Native;

    open spec fn view(&self) -> Native {
        self.model()
    }
}

impl Node {
    /// The engine value that this node stands for.
    pub open spec fn model(&self) -> Native
        decreases self,
    {
        match self {
            Node::Undefined => Native::Undefined,
            Node::Null => Native::Null,
            Node::Boolean(b) => Native::Boolean(*b),
            Node::Number(bits) => Native::Number(*bits),
            Node::Text(text) => Native::Text(text@),
            Node::Array(items) => Native::Array(
                Seq::new(
                    items@.len(),
                    |i: int|
                        if 0 <= i < items@.len() {
                            items@[i].model()
                        } else {
                            Native::Undefined
                        },
                ),
            ),
            Node::Object(fields) => Native::Object(
                Seq::new(
                    fields@.len(),
                    |i: int|
                        if 0 <= i < fields@.len() {
                            (fields@[i].key@, fields@[i].value.model())
                        } else {
                            (Seq::empty(), Native::Undefined)
                        },
                ),
            ),
            Node::Buffer(bytes) => Native::Buffer(bytes@),
            Node::Pointer => Native::Pointer,
            Node::Lightfunc => Native::Lightfunc,
            Node::Cursor(fields, seen) => Native::Cursor(
                Seq::new(
                    fields@.len(),
                    |i: int|
                        if 0 <= i < fields@.len() {
                            (fields@[i].key@, fields@[i].value.model())
                        } else {
                            (Seq::empty(), Native::Undefined)
                        },
                ),
                *seen as nat,
            ),
            Node::Fault(_, _) => Native::Object(Seq::empty()),
            Node::Constant(_) => Native::Object(Seq::empty()),
            Node::Thrower(_) => Native::Object(Seq::empty()),
            Node::Collector => Native::Object(Seq::empty()),
        }
    }

    /// The fault code that a heap reports for this node: that of an error
    /// object, as far as the engine defines it, and none for anything
    /// else.
    pub open spec fn fault(&self) -> i32 {
        match self {
            Node::Fault(code, _) => if known_code(*code) {
                *code
            } else {
                ERR_ERROR
            },
            _ => ERR_NONE,
        }
    }

    /// How a heap renders this node as a string: an error object as the
    /// rendering it carries, anything else by [`rendered`].
    pub open spec fn text(&self) -> Seq<char> {
        match self {
            Node::Fault(_, message) => message@,
            _ => rendered(self@),
        }
    }

    /// An array node stands for the array of what its elements stand for.
    pub proof fn array_view(items: Vec<Node>)
        ensures
            Node::Array(items)@ == Native::Array(nodes_view(items@)),
    {
        assert(Node::Array(items)@->Array_0 =~= nodes_view(items@));
    }

    /// An object node stands for the object of what its fields stand for.
    pub proof fn object_view(fields: Vec<Field>)
        ensures
            Node::Object(fields)@ == Native::Object(fields_view(fields@)),
    {
        assert(Node::Object(fields)@->Object_0 =~= fields_view(fields@));
    }

    /// A cursor node stands for a cursor over what its fields stand for.
    pub proof fn cursor_view(fields: Vec<Field>, seen: usize)
        ensures
            Node::Cursor(fields, seen)@ == Native::Cursor(fields_view(fields@), seen as nat),
    {
        assert(Node::Cursor(fields, seen)@->Cursor_0 =~= fields_view(fields@));
    }

    /// A deep copy: a node that stands for the same engine value.
    pub fn copy(&self) -> (twin: Node)
        ensures
            twin@ == self@,
            twin.fault() == self.fault(),
            twin.text() == self.text(),
        decreases self,
    {
        match self {
            Node::Undefined => Node::Undefined,
            Node::Null => Node::Null,
            Node::Boolean(b) => Node::Boolean(*b),
            Node::Number(bits) => Node::Number(*bits),
            Node::Text(text) => Node::Text(text.clone()),
            Node::Array(items) => {
                let out = copy_nodes(items);
                proof {
                    Node::array_view(out);
                    Node::array_view(*items);
                }
                Node::Array(out)
            },
            Node::Object(fields) => {
                let out = copy_fields(fields);
                proof {
                    Node::object_view(out);
                    Node::object_view(*fields);
                }
                Node::Object(out)
            },
            Node::Buffer(bytes) => Node::Buffer(copy_bytes(bytes.as_slice())),
            Node::Pointer => Node::Pointer,
            Node::Lightfunc => Node::Lightfunc,
            Node::Cursor(fields, seen) => {
                let out = copy_fields(fields);
                proof {
                    Node::cursor_view(out, *seen);
                    Node::cursor_view(*fields, *seen);
                }
                Node::Cursor(out, *seen)
            },
            Node::Fault(code, message) => Node::Fault(*code, message.clone()),
            Node::Constant(value) => Node::Constant(Box::new(value.copy())),
            Node::Thrower(value) => Node::Thrower(Box::new(value.copy())),
            Node::Collector => Node::Collector,
        }
    }
}

/// A deep copy of a list of nodes.
pub fn copy_nodes(nodes: &Vec<Node>) -> (out: Vec<Node>)
    ensures
        nodes_view(out@) == nodes_view(nodes@),
    decreases nodes,
{
    let mut out: Vec<Node> = Vec::new();
    let mut i: usize = 0;
    while i < nodes.len()
        invariant
            i <= nodes.len(),
            out@.len() == i,
            forall|j: int| 0 <= j < i ==> (#[trigger] out@[j])@ == nodes@[j]@,
        decreases nodes.len() - i,
    {
        out.push(nodes[i].copy());
        i += 1;
    }
    assert(nodes_view(out@) =~= nodes_view(nodes@));
    out
}

/// A deep copy of a list of fields.
pub fn copy_fields(fields: &Vec<Field>) -> (out: Vec<Field>)
    ensures
        fields_view(out@) == fields_view(fields@),
    decreases fields,
{
    let mut out: Vec<Field> = Vec::new();
    let mut i: usize = 0;
    while i < fields.len()
        invariant
            i <= fields.len(),
            out@.len() == i,
            forall|j: int|
                0 <= j < i ==> (#[trigger] out@[j]).key@ == fields@[j].key@ && out@[j].value@
                    == fields@[j].value@,
        decreases fields.len() - i,
    {
        let key = fields[i].key.clone();
        let value = fields[i].value.copy();
        out.push(Field { key, value });
        i += 1;
    }
    assert(fields_view(out@) =~= fields_view(fields@));
    out
}

/// A copy of a run of bytes.
pub fn copy_bytes(bytes: &[u8]) -> (out: Vec<u8>)
    ensures
        out@ == bytes@,
{
    let mut out: Vec<u8> = Vec::new();
    let mut i: usize = 0;
    while i < bytes.len()
        invariant
            i <= bytes.len(),
            out@ == bytes@.take(i as int),
        decreases bytes.len() - i,
    {
        out.push(bytes[i]);
        assert(out@ =~= bytes@.take(i + 1));
        i += 1;
    }
    assert(bytes@.take(i as int) =~= bytes@);
    out
}

/// Renders a node as a string.
pub fn render(node: &Node) -> (text: String)
    ensures
        text@ == node.text(),
{
    match node {
        Node::Undefined => "undefined".to_owned(),
        Node::Null => "null".to_owned(),
        Node::Boolean(b) => if *b {
            "true".to_owned()
        } else {
            "false".to_owned()
        },
        Node::Number(_) => "[number]".to_owned(),
        Node::Text(text) => text.clone(),
        Node::Array(_) => "[array]".to_owned(),
        Node::Object(_) => "[object]".to_owned(),
        Node::Buffer(_) => "[buffer]".to_owned(),
        Node::Pointer => "[pointer]".to_owned(),
        Node::Lightfunc => "[lightfunc]".to_owned(),
        Node::Cursor(_, _) => "[object]".to_owned(),
        Node::Fault(_, message) => message.clone(),
        Node::Constant(_) => "[object]".to_owned(),
        Node::Thrower(_) => "[object]".to_owned(),
        Node::Collector => "[object]".to_owned(),
    }
}

/// A copy of the value of the first field called `name`, if there is one.
pub fn find_field(fields: &Vec<Field>, name: &String) -> (found: Option<Node>)
    ensures
        found is Some == has_key(fields_view(fields@), name@),
        match first_named(fields_view(fields@), name@, 0) {
            Some(value) => found is Some && found->Some_0@ == value,
            None => found is None,
        },
{
    let mut i: usize = 0;
    while i < fields.len()
        invariant
            i <= fields.len(),
            forall|j: int| 0 <= j < i ==> (#[trigger] fields_view(fields@)[j]).0 != name@,
            first_named(fields_view(fields@), name@, 0) == first_named(
                fields_view(fields@),
                name@,
                i as int,
            ),
        decreases fields.len() - i,
    {
        if fields[i].key == *name {
            assert(fields_view(fields@)[i as int].0 == name@);
            return Some(fields[i].value.copy());
        }
        i += 1;
    }
    None
}

/// A value stack in host memory, with a table of global properties and a
/// table of prepared answers.
pub struct Heap {
    slots: Vec<Node>,
    globals: Vec<Field>,
    scripts: Vec<Script>,
    log: Ghost<Seq<Run>>,
}

impl Heap {
    /// An empty stack with no global properties.
    pub fn new() -> (heap: Heap)
        ensures
            heap.slots() == Seq::<Native>::empty(),
            heap.scripts() == Seq::<Script>::empty(),
            heap.globals() == Seq::<(Seq<char>, Native)>::empty(),
            heap.log() == Seq::<Run>::empty(),
            forall|name: Seq<char>| !heap.has_global(name),
    {
        let heap = Heap {
            slots: Vec::new(),
            globals: Vec::new(),
            scripts: Vec::new(),
            log: Ghost(Seq::empty()),
        };
        assert(heap.slots() =~= Seq::<Native>::empty());
        assert(heap.globals() =~= Seq::<(Seq<char>, Native)>::empty());
        heap
    }

    /// Gives the global object a property.
    pub fn define_global(&mut self, name: String, value: Node)
        ensures
            final(self).globals() == old(self).globals().push((name@, value@)),
            final(self).slots() == old(self).slots(),
            final(self).scripts() == old(self).scripts(),
            final(self).log() == old(self).log(),
            forall|other: Seq<char>|
                final(self).has_global(other) == (old(self).has_global(other) || other == name@),
    {
        let ghost before = fields_view(self.globals@);
        self.globals.push(Field { key: name, value });
        proof {
            let after = fields_view(self.globals@);
            assert(after =~= before.push((name@, value@)));
            assert forall|other: Seq<char>|
                has_key(after, other) == (has_key(before, other) || other == name@) by {
                if has_key(before, other) {
                    let i = choose|i: int| 0 <= i < before.len() && (#[trigger] before[i]).0 == other;
                    assert(after[i].0 == other);
                }
                if other == name@ {
                    assert(after[before.len() as int].0 == other);
                }
                if has_key(after, other) {
                    let i = choose|i: int| 0 <= i < after.len() && (#[trigger] after[i]).0 == other;
                    if i < before.len() {
                        assert(before[i].0 == other);
                    }
                }
            }
        }
    }

    /// The properties of the global object, in the order they were given.
    pub closed spec fn globals(&self) -> Props {
        fields_view(self.globals@)
    }

    /// The answers that were prepared, in the order they were.
    pub closed spec fn scripts(&self) -> Seq<Script> {
        self.scripts@
    }

    /// Prepares the answer to evaluating `source`, or the file at the path
    /// `source`. The answer that was prepared first is the one given.
    pub fn prepare(&mut self, source: String, thrown: bool, outcome: Node)
        ensures
            final(self).scripts() == old(self).scripts().push(
                (Script { source, thrown, outcome }),
            ),
            final(self).slots() == old(self).slots(),
            final(self).log() == old(self).log(),
            final(self).globals() == old(self).globals(),
            forall|name: Seq<char>| final(self).has_global(name) == old(self).has_global(name),
    {
        self.scripts.push(Script { source, thrown, outcome });
    }

    /// Answers an evaluation: pushes the outcome that was prepared for
    /// `source` and returns zero for a result and one for a thrown value.
    /// Where nothing was prepared, a message is thrown. The record of runs
    /// is left alone: the engine operations that answer this way add to it.
    pub fn answer(&mut self, source: &str) -> (status: i32)
        ensures
            final(self).slots() == old(self).slots().push(
                answered(first_answer(old(self).scripts(), source@, 0)),
            ),
            status == answered_status(first_answer(old(self).scripts(), source@, 0)),
            first_answer(old(self).scripts(), source@, 0) matches Some(script) ==> {
                &&& final(self).fault_code(old(self).slots().len() as int)
                    == script.outcome.fault()
                &&& final(self).rendering(old(self).slots().len() as int)
                    == script.outcome.text()
            },
            final(self).log() == old(self).log(),
            final(self).scripts() == old(self).scripts(),
            final(self).globals() == old(self).globals(),
            forall|name: Seq<char>| final(self).has_global(name) == old(self).has_global(name),
    {
        let wanted = source.to_owned();
        let mut i: usize = 0;
        while i < self.scripts.len()
            invariant
                i <= self.scripts.len(),
                wanted@ == source@,
                self.slots == old(self).slots,
                self.scripts == old(self).scripts,
                self.globals == old(self).globals,
                self.log == old(self).log,
                first_answer(self.scripts@, source@, 0) == first_answer(
                    self.scripts@,
                    source@,
                    i as int,
                ),
            decreases self.scripts.len() - i,
        {
            if self.scripts[i].source == wanted {
                let outcome = self.scripts[i].outcome.copy();
                let thrown = self.scripts[i].thrown;
                self.slots.push(outcome);
                assert(self.slots() =~= old(self).slots().push(outcome@));
                return if thrown {
                    1
                } else {
                    0
                };
            }
            i += 1;
        }
        self.push_node(Node::Text("evaluation is not supported".to_owned()));
        1
    }

    /// The nodes on the stack, bottom first.
    pub closed spec fn nodes(&self) -> Seq<Node> {
        self.slots@
    }

    /// Answers a call of the node below the `nargs` top slots: replaces
    /// it and the arguments by what [`called`] says, and returns the
    /// status that [`called_status`] says. The record of runs is left
    /// alone: the engine operation that calls this way adds to it.
    pub fn call(&mut self, nargs: usize) -> (status: i32)
        requires
            old(self).slots().len() >= nargs + 1,
        ensures
            ({
                let len = old(self).slots().len() as int;
                let callee = old(self).nodes()[len - nargs - 1];
                &&& final(self).slots() == old(self).slots().take(len - nargs - 1).push(
                    called(callee, old(self).slots().subrange(len - nargs, len)),
                )
                &&& status == called_status(callee)
                &&& final(self).fault_code(len - nargs - 1) == called_fault(callee)
                &&& final(self).rendering(len - nargs - 1) == called_text(
                    callee,
                    old(self).slots().subrange(len - nargs, len),
                )
            }),
            final(self).globals() == old(self).globals(),
            final(self).log() == old(self).log(),
            final(self).scripts() == old(self).scripts(),
            forall|name: Seq<char>| final(self).has_global(name) == old(self).has_global(name),
    {
        let ghost before = self.slots();
        let ghost len = self.slots@.len() as int;
        let below = self.slots.len() - nargs;
        let args = self.slots.split_off(below);
        let callee = self.slots.pop().unwrap();
        assert(self.slots() =~= before.take(len - nargs - 1));
        match callee {
            Node::Constant(value) => {
                self.push_node(value.copy());
                0
            },
            Node::Thrower(value) => {
                self.push_node(value.copy());
                1
            },
            Node::Collector => {
                proof {
                    Node::array_view(args);
                    assert(nodes_view(args@) =~= before.subrange(len - nargs, len));
                }
                self.push_node(Node::Array(args));
                0
            },
            _ => {
                self.push_node(Node::Fault(ERR_TYPE, "TypeError: not callable".to_owned()));
                1
            },
        }
    }

    /// Pushes a node as it is.
    pub fn push_node(&mut self, node: Node)
        ensures
            final(self).slots() == old(self).slots().push(node@),
            final(self).fault_code(old(self).slots().len() as int) == node.fault(),
            final(self).rendering(old(self).slots().len() as int) == node.text(),
            final(self).log() == old(self).log(),
            final(self).scripts() == old(self).scripts(),
            final(self).globals() == old(self).globals(),
            forall|name: Seq<char>| final(self).has_global(name) == old(self).has_global(name),
    {
        self.slots.push(node);
        assert(self.slots() =~= old(self).slots().push(node@));
    }

    /// The place in the stack that an index names.
    fn position(&self, index: i32) -> (at: usize)
        requires
            valid(self.slots().len(), index),
        ensures
            at == slot(self.slots().len(), index),
            at < self.slots@.len(),
            self.slots()[at as int] == self.slots@[at as int]@,
    {
        if index >= 0 {
            index as usize
        } else {
            self.slots.len() - ((-(index as i64)) as usize)
        }
    }
}

impl Stack for Heap {
    closed spec fn slots(&self) -> Seq<Native> {
        nodes_view(self.slots@)
    }

    closed spec fn fault_code(&self, at: int) -> i32 {
        self.slots@[at].fault()
    }

    closed spec fn rendering(&self, at: int) -> Seq<char> {
        self.slots@[at].text()
    }

    closed spec fn has_property(&self, at: int, name: Seq<char>) -> bool {
        has_key(props_of(self.slots()[at]), name)
    }

    closed spec fn has_global(&self, name: Seq<char>) -> bool {
        has_key(fields_view(self.globals@), name)
    }

    closed spec fn property(&self, at: int, name: Seq<char>) -> Native {
        found_or_undefined(first_named(props_of(self.slots()[at]), name, 0))
    }

    closed spec fn global(&self, name: Seq<char>) -> Native {
        found_or_undefined(first_named(fields_view(self.globals@), name, 0))
    }

    closed spec fn log(&self) -> Seq<Run> {
        self.log@
    }

    fn top(&self) -> (n: usize) {
        self.slots.len()
    }

    fn type_tag(&self, index: i32) -> (tag: i32) {
        let at = self.position(index);
        match &self.slots[at] {
            Node::Undefined => TYPE_UNDEFINED,
            Node::Null => TYPE_NULL,
            Node::Boolean(_) => TYPE_BOOLEAN,
            Node::Number(_) => TYPE_NUMBER,
            Node::Text(_) => TYPE_STRING,
            Node::Array(_) => TYPE_OBJECT,
            Node::Object(_) => TYPE_OBJECT,
            Node::Buffer(_) => TYPE_BUFFER,
            Node::Pointer => TYPE_POINTER,
            Node::Lightfunc => TYPE_LIGHTFUNC,
            Node::Cursor(_, _) => TYPE_OBJECT,
            Node::Fault(_, _) => TYPE_OBJECT,
            Node::Constant(_) => TYPE_OBJECT,
            Node::Thrower(_) => TYPE_OBJECT,
            Node::Collector => TYPE_OBJECT,
        }
    }

    fn get_boolean(&self, index: i32) -> (b: bool) {
        let at = self.position(index);
        match &self.slots[at] {
            Node::Boolean(b) => *b,
            _ => vstd::pervasive::unreached(),
        }
    }

    fn get_number(&self, index: i32) -> (bits: u64) {
        let at = self.position(index);
        match &self.slots[at] {
            Node::Number(bits) => *bits,
            _ => vstd::pervasive::unreached(),
        }
    }

    fn get_string(&self, index: i32) -> (text: String) {
        let at = self.position(index);
        match &self.slots[at] {
            Node::Text(text) => text.clone(),
            _ => vstd::pervasive::unreached(),
        }
    }

    fn get_buffer(&self, index: i32) -> (bytes: Vec<u8>) {
        let at = self.position(index);
        match &self.slots[at] {
            Node::Buffer(bytes) => copy_bytes(bytes.as_slice()),
            _ => vstd::pervasive::unreached(),
        }
    }

    fn is_array(&self, index: i32) -> (b: bool) {
        let at = self.position(index);
        match &self.slots[at] {
            Node::Array(_) => true,
            _ => false,
        }
    }

    fn get_length(&self, index: i32) -> (n: usize) {
        let at = self.position(index);
        match &self.slots[at] {
            Node::Array(items) => {
                proof {
                    Node::array_view(*items);
                }
                items.len()
            },
            _ => vstd::pervasive::unreached(),
        }
    }

    fn get_prop_index(&mut self, index: i32, i: usize) {
        let at = self.position(index);
        let element = match &self.slots[at] {
            Node::Array(items) => {
                proof {
                    Node::array_view(*items);
                }
                items[i].copy()
            },
            _ => vstd::pervasive::unreached(),
        };
        self.slots.push(element);
        assert(self.slots() =~= old(self).slots().push(element@));
    }

    fn enumerate(&mut self, index: i32) {
        let at = self.position(index);
        let fields = match &self.slots[at] {
            Node::Object(fields) => {
                proof {
                    Node::object_view(*fields);
                }
                copy_fields(fields)
            },
            _ => Vec::new(),
        };
        proof {
            Node::cursor_view(fields, 0);
            assert(fields_view(fields@) =~= props_of(self.slots()[at as int]));
        }
        self.slots.push(Node::Cursor(fields, 0));
        assert(self.slots() =~= old(self).slots().push(Node::Cursor(fields, 0)@));
    }

    fn next(&mut self, index: i32) -> (more: bool) {
        let at = self.position(index);
        let node = self.slots.remove(at);
        match node {
            Node::Cursor(fields, seen) => {
                proof {
                    Node::cursor_view(fields, seen);
                }
                if seen < fields.len() {
                    let key = fields[seen].key.clone();
                    let value = fields[seen].value.copy();
                    proof {
                        Node::cursor_view(fields, (seen + 1) as usize);
                    }
                    let moved = Node::Cursor(fields, seen + 1);
                    self.slots.insert(at, moved);
                    self.slots.push(Node::Text(key));
                    self.slots.push(value);
                    assert(self.slots() =~= old(self).slots().update(at as int, moved@).push(
                        Node::Text(key)@,
                    ).push(value@));
                    true
                } else {
                    self.slots.insert(at, Node::Cursor(fields, seen));
                    assert(self.slots@ =~= old(self).slots@);
                    false
                }
            },
            _ => vstd::pervasive::unreached(),
        }
    }

    fn pop(&mut self) {
        let _ = self.slots.pop();
        assert(self.slots() =~= old(self).slots().drop_last());
    }

    fn pop_2(&mut self) {
        let _ = self.slots.pop();
        let _ = self.slots.pop();
        assert(self.slots() =~= old(self).slots().drop_last().drop_last());
    }

    fn push_undefined(&mut self) {
        self.push_node(Node::Undefined);
    }

    fn push_null(&mut self) {
        self.push_node(Node::Null);
    }

    fn push_boolean(&mut self, b: bool) {
        self.push_node(Node::Boolean(b));
    }

    fn push_number(&mut self, bits: u64) {
        self.push_node(Node::Number(bits));
    }

    fn push_string(&mut self, text: &str) {
        self.push_node(Node::Text(text.to_owned()));
    }

    fn push_buffer(&mut self, bytes: &[u8]) {
        self.push_node(Node::Buffer(copy_bytes(bytes)));
    }

    fn push_array(&mut self) {
        let items: Vec<Node> = Vec::new();
        proof {
            Node::array_view(items);
            assert(nodes_view(items@) =~= Seq::empty());
        }
        self.push_node(Node::Array(items));
    }

    fn push_object(&mut self) {
        let fields: Vec<Field> = Vec::new();
        proof {
            Node::object_view(fields);
            assert(fields_view(fields@) =~= Seq::empty());
        }
        self.push_node(Node::Object(fields));
    }

    fn put_prop_index(&mut self, i: usize) {
        let value = self.slots.pop().unwrap();
        let array = self.slots.pop().unwrap();
        match array {
            Node::Array(items) => {
                let mut items = items;
                proof {
                    Node::array_view(items);
                }
                items.push(value);
                proof {
                    Node::array_view(items);
                    assert(nodes_view(items@) =~= old(self).slots()[old(self).slots().len()
                        - 2]->Array_0.push(value@));
                }
                self.slots.push(Node::Array(items));
                assert(self.slots() =~= old(self).slots().drop_last().drop_last().push(
                    Node::Array(items)@,
                ));
            },
            _ => vstd::pervasive::unreached(),
        }
    }

    fn put_prop(&mut self) {
        let value = self.slots.pop().unwrap();
        let name = self.slots.pop().unwrap();
        let object = self.slots.pop().unwrap();
        let ghost before = object@->Object_0;
        let mut fields: Vec<Field> = match object {
            Node::Object(fields) => {
                proof {
                    Node::object_view(fields);
                }
                fields
            },
            _ => Vec::new(),
        };
        assert(fields_view(fields@) =~= before);
        match name {
            Node::Text(key) => {
                fields.push(Field { key, value });
                proof {
                    Node::object_view(fields);
                    assert(fields_view(fields@) =~= before.push((key@, value@)));
                }
                self.slots.push(Node::Object(fields));
                assert(self.slots() =~= old(self).slots().drop_last().drop_last().drop_last().push(
                    Node::Object(fields)@,
                ));
            },
            _ => vstd::pervasive::unreached(),
        }
    }

    fn error_code(&self, index: i32) -> (code: i32) {
        let at = self.position(index);
        match &self.slots[at] {
            Node::Fault(code, _) => if JsErrorKind::lookup(*code).is_some() {
                *code
            } else {
                ERR_ERROR
            },
            _ => ERR_NONE,
        }
    }

    fn safe_to_string(&mut self, index: i32) -> (text: String) {
        let at = self.position(index);
        let node = self.slots.remove(at);
        let text = render(&node);
        self.slots.insert(at, Node::Text(text.clone()));
        assert(self.slots() =~= old(self).slots().update(at as int, Native::Text(text@)));
        text
    }

    fn push_global_object(&mut self) {
        let fields = copy_fields(&self.globals);
        proof {
            Node::object_view(fields);
        }
        self.push_node(Node::Object(fields));
        assert(self.slots().drop_last() =~= old(self).slots());
    }

    fn get_prop_string(&mut self, index: i32, name: &str) -> (found: bool) {
        let at = self.position(index);
        let wanted = name.to_owned();
        let value = match &self.slots[at] {
            Node::Object(fields) => {
                proof {
                    Node::object_view(*fields);
                }
                find_field(fields, &wanted)
            },
            _ => None,
        };
        let found = value.is_some();
        match value {
            Some(node) => self.push_node(node),
            None => self.push_node(Node::Undefined),
        }
        assert(self.slots().drop_last() =~= old(self).slots());
        found
    }

    fn peval_string(&mut self, source: &str) -> (status: i32) {
        let status = self.answer(source);
        let ghost run = Run {
            request: Request::Source(source@),
            status,
            left: self.slots().last(),
            fault: self.fault_code(old(self).slots().len() as int),
            text: self.rendering(old(self).slots().len() as int),
        };
        self.log = Ghost(self.log@.push(run));
        status
    }

    fn peval_file(&mut self, path: &str) -> (status: i32) {
        let status = self.answer(path);
        let ghost run = Run {
            request: Request::File(path@),
            status,
            left: self.slots().last(),
            fault: self.fault_code(old(self).slots().len() as int),
            text: self.rendering(old(self).slots().len() as int),
        };
        self.log = Ghost(self.log@.push(run));
        status
    }

    fn pcall(&mut self, nargs: usize) -> (status: i32) {
        let status = self.call(nargs);
        let ghost len = old(self).slots().len() as int;
        let ghost run = Run {
            request: Request::Call(
                old(self).slots()[len - nargs - 1],
                old(self).slots().subrange(len - nargs, len),
            ),
            status,
            left: self.slots().last(),
            fault: self.fault_code(len - nargs - 1),
            text: self.rendering(len - nargs - 1),
        };
        self.log = Ghost(self.log@.push(run));
        status
    }
}

} // verus!
