//! The error taxonomy and the table from engine fault codes to error kinds.

use vstd::prelude::*;
use crate::native::{slot, valid, Native};
use crate::stack::Stack;

verus! {

/// Fault code of a thrown value that does not inherit from `Error`.
pub const ERR_NONE: i32 = 0;
/// Engine-internal fault code: unimplemented feature.
pub const ERR_UNIMPLEMENTED: i32 = 50;
/// Engine-internal fault code: unsupported feature.
pub const ERR_UNSUPPORTED: i32 = 51;
/// Engine-internal fault code: internal error.
pub const ERR_INTERNAL: i32 = 52;
/// Engine-internal fault code: allocation failure.
pub const ERR_ALLOC: i32 = 53;
/// Engine-internal fault code: failed assertion.
pub const ERR_ASSERTION: i32 = 54;
/// Engine-internal fault code: API misuse.
pub const ERR_API: i32 = 55;
/// Engine-internal fault code: uncaught error.
pub const ERR_UNCAUGHT: i32 = 56;
/// Fault code of an instance of `Error`.
pub const ERR_ERROR: i32 = 100;
/// Fault code of an instance of `EvalError`.
pub const ERR_EVAL: i32 = 101;
/// Fault code of an instance of `RangeError`.
pub const ERR_RANGE: i32 = 102;
/// Fault code of an instance of `ReferenceError`.
pub const ERR_REFERENCE: i32 = 103;
/// Fault code of an instance of `SyntaxError`.
pub const ERR_SYNTAX: i32 = 104;
/// Fault code of an instance of `TypeError`.
pub const ERR_TYPE: i32 = 105;
/// Fault code of an instance of `URIError`.
pub const ERR_URI: i32 = 106;

/// Kinds of script errors.
#[derive(Clone, Copy, Debug, PartialEq, Eq, Structural)]
pub enum JsErrorKind {
    /// A thrown value that does not inherit from `Error`, as in `throw 3.14;`.
    Generic,
    /// Engine internal.
    Unimplemented,
    /// Engine internal.
    Unsupported,
    /// Engine internal.
    Internal,
    /// Engine internal.
    Alloc,
    /// Engine internal.
    Assertion,
    /// Engine internal.
    Api,
    /// Engine internal.
    Uncaught,
    /// An instance of `Error`.
    Error,
    /// An instance of `EvalError`.
    Eval,
    /// An instance of `RangeError`.
    Range,
    /// An instance of `ReferenceError`.
    Reference,
    /// An instance of `SyntaxError`.
    Syntax,
    /// An instance of `TypeError`.
    Type,
    /// An instance of `URIError`.
    Uri,
}

/// The errors that can come back across the boundary.
#[derive(Clone, Debug, PartialEq, Eq)]
pub enum Error {
    /// A fault raised by running script code.
    Js {
        /// The kind of error.
        kind: JsErrorKind,
        /// The engine's rendering of the faulting value.
        message: String,
    },
    /// The engine value has a native type with no [`crate::Value`] mapping.
    UnsupportedType(&'static str),
    /// The requested global function does not exist.
    NonExistent,
}

/// Whether `code` is one of the fault codes the engine defines.
pub open spec fn known_code(code: i32) -> bool {
    code == ERR_NONE || (ERR_UNIMPLEMENTED <= code <= ERR_UNCAUGHT) || (ERR_ERROR <= code
        <= ERR_URI)
}

/// The fault-code table: the kind that stands for each defined code.
pub open spec fn kind_of(code: i32) -> JsErrorKind
    recommends
        known_code(code),
{
    if code == ERR_NONE {
        JsErrorKind::Generic
    } else if code == ERR_UNIMPLEMENTED {
        JsErrorKind::Unimplemented
    } else if code == ERR_UNSUPPORTED {
        JsErrorKind::Unsupported
    } else if code == ERR_INTERNAL {
        JsErrorKind::Internal
    } else if code == ERR_ALLOC {
        JsErrorKind::Alloc
    } else if code == ERR_ASSERTION {
        JsErrorKind::Assertion
    } else if code == ERR_API {
        JsErrorKind::Api
    } else if code == ERR_UNCAUGHT {
        JsErrorKind::Uncaught
    } else if code == ERR_ERROR {
        JsErrorKind::Error
    } else if code == ERR_EVAL {
        JsErrorKind::Eval
    } else if code == ERR_RANGE {
        JsErrorKind::Range
    } else if code == ERR_REFERENCE {
        JsErrorKind::Reference
    } else if code == ERR_SYNTAX {
        JsErrorKind::Syntax
    } else if code == ERR_TYPE {
        JsErrorKind::Type
    } else {
        JsErrorKind::Uri
    }
}

impl JsErrorKind {
    /// The fault code that the engine uses for this kind.
    pub open spec fn code(self) -> i32 {
        match self {
            JsErrorKind::Generic => ERR_NONE,
            JsErrorKind::Unimplemented => ERR_UNIMPLEMENTED,
            JsErrorKind::Unsupported => ERR_UNSUPPORTED,
            JsErrorKind::Internal => ERR_INTERNAL,
            JsErrorKind::Alloc => ERR_ALLOC,
            JsErrorKind::Assertion => ERR_ASSERTION,
            JsErrorKind::Api => ERR_API,
            JsErrorKind::Uncaught => ERR_UNCAUGHT,
            JsErrorKind::Error => ERR_ERROR,
            JsErrorKind::Eval => ERR_EVAL,
            JsErrorKind::Range => ERR_RANGE,
            JsErrorKind::Reference => ERR_REFERENCE,
            JsErrorKind::Syntax => ERR_SYNTAX,
            JsErrorKind::Type => ERR_TYPE,
            JsErrorKind::Uri => ERR_URI,
        }
    }

    /// Looks a fault code up in the table. `None` exactly for a code the
    /// engine does not define.
    pub fn lookup(code: i32) -> (kind: Option<JsErrorKind>)
        ensures
            known_code(code) ==> kind == Some(kind_of(code)),
            !known_code(code) ==> kind.is_none(),
    {
        if code == ERR_NONE {
            Some(JsErrorKind::Generic)
        } else if code == ERR_UNIMPLEMENTED {
            Some(JsErrorKind::Unimplemented)
        } else if code == ERR_UNSUPPORTED {
            Some(JsErrorKind::Unsupported)
        } else if code == ERR_INTERNAL {
            Some(JsErrorKind::Internal)
        } else if code == ERR_ALLOC {
            Some(JsErrorKind::Alloc)
        } else if code == ERR_ASSERTION {
            Some(JsErrorKind::Assertion)
        } else if code == ERR_API {
            Some(JsErrorKind::Api)
        } else if code == ERR_UNCAUGHT {
            Some(JsErrorKind::Uncaught)
        } else if code == ERR_ERROR {
            Some(JsErrorKind::Error)
        } else if code == ERR_EVAL {
            Some(JsErrorKind::Eval)
        } else if code == ERR_RANGE {
            Some(JsErrorKind::Range)
        } else if code == ERR_REFERENCE {
            Some(JsErrorKind::Reference)
        } else if code == ERR_SYNTAX {
            Some(JsErrorKind::Syntax)
        } else if code == ERR_TYPE {
            Some(JsErrorKind::Type)
        } else if code == ERR_URI {
            Some(JsErrorKind::Uri)
        } else {
            None
        }
    }

    /// The kind for a fault code that the engine defines.
    pub fn from_raw(code: i32) -> (kind: JsErrorKind)
        requires
            known_code(code),
        ensures
            kind == kind_of(code),
            kind.code() == code,
    {
        match JsErrorKind::lookup(code) {
            Some(kind) => kind,
            None => vstd::pervasive::unreached(),
        }
    }

    /// The table is a bijection between the defined fault codes and the
    /// kinds: every kind has one code, and the table maps that code back to
    /// the kind.
    pub proof fn table_is_total_and_exact(kind: JsErrorKind)
        ensures
            known_code(kind.code()),
            kind_of(kind.code()) == kind,
    {
    }
}

impl Error {
    /// Reads the fault in a slot: its kind by the fault-code table, and as
    /// its message the engine's defensive rendering of the value. The
    /// rendering takes the value's place in the slot.
    pub fn get<S: Stack>(stack: &mut S, index: i32) -> (error: Error)
        requires
            valid(old(stack).slots().len(), index),
        ensures
            error matches Error::Js { kind, message } && kind == kind_of(
                old(stack).fault_code(slot(old(stack).slots().len(), index)),
            ) && message@ == old(stack).rendering(slot(old(stack).slots().len(), index)),
            final(stack).slots() == old(stack).slots().update(
                slot(old(stack).slots().len(), index),
                Native::Text(old(stack).rendering(slot(old(stack).slots().len(), index))),
            ),
            final(stack).log() == old(stack).log(),
    {
        let code = stack.error_code(index);
        let kind = JsErrorKind::from_raw(code);
        let message = stack.safe_to_string(index);
        Error::Js { kind, message }
    }
}

} // verus!
