//! The execution context: evaluation and calls, each of which leaves the
//! engine's stack at the depth it found it.

use vstd::prelude::*;
use crate::error::{kind_of, Error};
use crate::native::{no_nul, read, Native, Request, Run};
use crate::stack::Stack;
use crate::value::{items_view, read_gives_back, Value};

verus! {

/// A thread of script execution: the exclusive owner of one engine.
pub struct Context<S: Stack> {
    stack: S,
}

/// Whether every value of a list is well formed.
pub open spec fn all_wf(values: Seq<Value>) -> bool {
    forall|i: int| 0 <= i < values.len() ==> (#[trigger] values[i]).wf()
}

/// Reading an engine value fails only with `UnsupportedType`.
pub proof fn read_fault_kind(n: Native)
    ensures
        read(n) is Err ==> read(n)->Err_0 is UnsupportedType,
    decreases n, 1nat, 0nat,
{
    match n {
        Native::Array(items) => read_items_fault_kind(n, items.len()),
        Native::Object(props) => read_props_fault_kind(n, props.len()),
        _ => {},
    }
}

/// Reading the elements of an array fails only with `UnsupportedType`.
pub proof fn read_items_fault_kind(n: Native, upto: nat)
    requires
        n is Array,
        upto <= n->Array_0.len(),
    ensures
        crate::native::read_items(n->Array_0, upto) is Err ==> crate::native::read_items(
            n->Array_0,
            upto,
        )->Err_0 is UnsupportedType,
    decreases n, 0nat, upto,
{
    if upto > 0 {
        read_items_fault_kind(n, (upto - 1) as nat);
        read_fault_kind(n->Array_0[upto - 1]);
    }
}

/// Reading the properties of an object fails only with `UnsupportedType`.
pub proof fn read_props_fault_kind(n: Native, upto: nat)
    requires
        n is Object,
        upto <= n->Object_0.len(),
    ensures
        crate::native::read_props(n->Object_0, upto) is Err ==> crate::native::read_props(
            n->Object_0,
            upto,
        )->Err_0 is UnsupportedType,
    decreases n, 0nat, upto,
{
    if upto > 0 {
        read_props_fault_kind(n, (upto - 1) as nat);
        read_fault_kind(n->Object_0[upto - 1].1);
    }
}

/// Takes the outcome of a protected evaluation or call off the stack. For
/// status zero the top slot is read as a value; for any other status it is
/// read as a fault. Either way exactly that slot is popped.
pub fn pop_value_or_error<S: Stack>(stack: &mut S, status: i32) -> (result: Result<Value, Error>)
    requires
        old(stack).slots().len() >= 1,
    ensures
        final(stack).slots() == old(stack).slots().drop_last(),
        final(stack).log() == old(stack).log(),
        status == 0 ==> match read(old(stack).slots().last()) {
            Ok(m) => result is Ok && result->Ok_0@ == m && result->Ok_0.wf(),
            Err(e) => result == Err::<Value, Error>(e),
        },
        status != 0 ==> (result matches Err(Error::Js { kind, message }) && kind == kind_of(
            old(stack).fault_code(old(stack).slots().len() - 1),
        ) && message@ == old(stack).rendering(old(stack).slots().len() - 1)),
        !(result matches Err(Error::NonExistent)),
{
    proof {
        read_fault_kind(stack.slots().last());
    }
    if status == 0 {
        let value = Value::get(stack, -1);
        stack.pop();
        value
    } else {
        let error = Error::get(stack, -1);
        stack.pop();
        assert(stack.slots() =~= old(stack).slots().drop_last());
        Err(error)
    }
}

/// Writes the arguments of a call onto the stack, first argument lowest:
/// the new slots hold what the arguments stand for, in their order.
pub fn push_args<S: Stack>(stack: &mut S, args: &[Value])
    requires
        all_wf(args@),
    ensures
        final(stack).slots() == old(stack).slots() + items_view(args@),
        final(stack).log() == old(stack).log(),
{
    let mut i: usize = 0;
    assert(items_view(args@).take(0) =~= Seq::empty());
    assert(old(stack).slots() + Seq::<Native>::empty() =~= old(stack).slots());
    while i < args.len()
        invariant
            i <= args.len(),
            all_wf(args@),
            stack.log() == old(stack).log(),
            stack.slots() == old(stack).slots() + items_view(args@).take(i as int),
        decreases args.len() - i,
    {
        args[i].push(stack);
        assert(stack.slots() =~= old(stack).slots() + items_view(args@).take(i + 1));
        i += 1;
    }
    assert(items_view(args@).take(i as int) =~= items_view(args@));
}

/// The arguments of a call keep their order and structure across the
/// boundary: a function that hands its argument list back as an array hands
/// back an array that reads as the arguments that were pushed.
pub proof fn arguments_read_back(args: Vec<Value>)
    requires
        all_wf(args@),
    ensures
        read(Native::Array(items_view(args@))) == Ok::<Native, Error>(
            Native::Array(items_view(args@)),
        ),
        Value::Array(args)@ == Native::Array(items_view(args@)),
{
    let list = Value::Array(args);
    assert(list.wf());
    Value::array_view(args);
    read_gives_back(list);
}

/// Whether `result` is what the boundary owes for a run of the engine: for
/// status zero what reading the value that was left yields, and for any
/// other status a script fault with the kind of its fault code and its
/// rendering as the message.
pub open spec fn outcome(run: Run, result: Result<Value, Error>) -> bool {
    if run.status == 0 {
        match read(run.left) {
            Ok(m) => result is Ok && result->Ok_0@ == m && result->Ok_0.wf(),
            Err(e) => result == Err::<Value, Error>(e),
        }
    } else {
        result matches Err(Error::Js { kind, message }) && kind == kind_of(run.fault)
            && message@ == run.text
    }
}

impl<S: Stack> Context<S> {
    /// The engine that the context owns.
    pub closed spec fn engine(&self) -> S {
        self.stack
    }

    /// The depth of the engine's stack.
    pub open spec fn depth(&self) -> nat {
        self.engine().slots().len()
    }

    /// Whether the context is well formed: between operations the engine's
    /// stack is empty.
    pub open spec fn wf(&self) -> bool {
        self.depth() == 0
    }

    /// Creates a context that owns `stack`, an engine whose stack is
    /// empty.
    pub fn new(stack: S) -> (context: Context<S>)
        requires
            stack.slots().len() == 0,
        ensures
            context.engine() == stack,
            context.wf(),
    {
        Context { stack }
    }

    /// Gives the engine back and ends the context.
    pub fn into_engine(self) -> (stack: S)
        ensures
            stack == self.engine(),
    {
        self.stack
    }

    /// Evaluates a script string. The engine is given exactly `string`,
    /// once; the result is what the boundary owes for what the engine
    /// made of it; and the stack is left as it was.
    pub fn eval_string(&mut self, string: &str) -> (result: Result<Value, Error>)
        requires
            old(self).wf(),
        ensures
            final(self).wf(),
            final(self).engine().slots() == old(self).engine().slots(),
            final(self).engine().log().len() == old(self).engine().log().len() + 1,
            final(self).engine().log().drop_last() == old(self).engine().log(),
            final(self).engine().log().last().request == Request::Source(string@),
            outcome(final(self).engine().log().last(), result),
            !(result matches Err(Error::NonExistent)),
    {
        let status = self.stack.peval_string(string);
        let ghost run = self.stack.log().last();
        assert(self.stack.log().drop_last() =~= old(self).stack.log());
        let result = pop_value_or_error(&mut self.stack, status);
        assert(self.stack.slots() =~= old(self).stack.slots());
        result
    }

    /// Loads and evaluates the file at `path`. The engine is given exactly
    /// `path`, once; the result is what the boundary owes for what the
    /// engine made of it; and the stack is left as it was.
    pub fn eval_file(&mut self, path: &str) -> (result: Result<Value, Error>)
        requires
            old(self).wf(),
            no_nul(path@),
        ensures
            final(self).wf(),
            final(self).engine().slots() == old(self).engine().slots(),
            final(self).engine().log().len() == old(self).engine().log().len() + 1,
            final(self).engine().log().drop_last() == old(self).engine().log(),
            final(self).engine().log().last().request == Request::File(path@),
            outcome(final(self).engine().log().last(), result),
            !(result matches Err(Error::NonExistent)),
    {
        let status = self.stack.peval_file(path);
        assert(self.stack.log().drop_last() =~= old(self).stack.log());
        let result = pop_value_or_error(&mut self.stack, status);
        assert(self.stack.slots() =~= old(self).stack.slots());
        result
    }

    /// Calls the global function `name` with `args`. Where the global
    /// object has no such property the result is `NonExistent` and nothing
    /// was run. Otherwise the engine was asked once, to call the value of
    /// that property with exactly the arguments, in their order, and the
    /// result is what the boundary owes for what came of the call. Either
    /// way the stack is left as it was.
    pub fn call_global(&mut self, name: &str, args: &[Value]) -> (result: Result<Value, Error>)
        requires
            old(self).wf(),
            no_nul(name@),
            all_wf(args@),
        ensures
            final(self).wf(),
            final(self).engine().slots() == old(self).engine().slots(),
            (result matches Err(Error::NonExistent)) <==> !old(self).engine().has_global(name@),
            !old(self).engine().has_global(name@) ==> final(self).engine().log() == old(
                self,
            ).engine().log(),
            old(self).engine().has_global(name@) ==> {
                &&& final(self).engine().log().len() == old(self).engine().log().len() + 1
                &&& final(self).engine().log().drop_last() == old(self).engine().log()
                &&& final(self).engine().log().last().request == Request::Call(
                    old(self).engine().global(name@),
                    items_view(args@),
                )
                &&& outcome(final(self).engine().log().last(), result)
            },
    {
        let ghost base = self.stack.slots();
        self.stack.push_global_object();
        let ghost above = self.stack.slots();
        let found = self.stack.get_prop_string(-1, name);
        if found {
            let ghost callee = old(self).stack.global(name@);
            assert(self.stack.slots() == above.push(callee));
            push_args(&mut self.stack, args);
            proof {
                let now = self.stack.slots();
                assert(now[now.len() - args@.len() - 1] == callee);
                assert(now.subrange(now.len() - args@.len(), now.len() as int) =~= items_view(
                    args@,
                ));
            }
            let status = self.stack.pcall(args.len());
            assert(self.stack.log().drop_last() =~= old(self).stack.log());
            let result = pop_value_or_error(&mut self.stack, status);
            self.stack.pop();
            assert(self.stack.slots() =~= old(self).stack.slots());
            result
        } else {
            self.stack.pop_2();
            assert(self.stack.slots() =~= old(self).stack.slots());
            Err(Error::NonExistent)
        }
    }

    /// Whether the engine's stack is empty, as it is between the
    /// operations of a context.
    pub fn assert_clean(&mut self) -> (clean: bool)
        ensures
            clean == (old(self).depth() == 0),
            final(self).engine() == old(self).engine(),
    {
        self.stack.top() == 0
    }
}

} // verus!
