use duk::heap::{Field, Heap, Node};
use duk::value::Member;
use duk::{Context, Error, JsErrorKind, Value};

const DEFINE_FOO_RETURNS: &str = "
          function foo() {
            return 'a';
          }";

const DEFINE_FOO_ARGUMENTS: &str = "
          function foo() {
            return Array.prototype.slice.call(arguments);
          }";

const DEFINE_FOO_THROWS: &str = "
          function foo() {
            throw 'a';
          }";

fn text_node(s: &str) -> Node {
    Node::Text(s.to_owned())
}

fn number_node(n: f64) -> Node {
    Node::Number(n.to_bits())
}

fn field(key: &str, value: Node) -> Field {
    Field { key: key.to_owned(), value }
}

fn member(key: &str, value: Value) -> Member {
    Member { key: key.to_owned(), value }
}

/// A context over a heap that holds the answers of the scripts used here.
fn context() -> Context<Heap> {
    let mut heap = Heap::new();
    let results = vec![
        ("undefined", Node::Undefined),
        ("null", Node::Null),
        ("true", Node::Boolean(true)),
        ("false", Node::Boolean(false)),
        ("4", number_node(4.0)),
        ("0.5", number_node(0.5)),
        ("'ab'", text_node("ab")),
        ("'ab' + 'cd' + Math.floor(2.3)", text_node("abcd2")),
        (
            "['a', 3, false]",
            Node::Array(vec![text_node("a"), number_node(3.0), Node::Boolean(false)]),
        ),
        (
            "({a: 'a', b: 3, c: false})",
            Node::Object(vec![
                field("a", text_node("a")),
                field("b", number_node(3.0)),
                field("c", Node::Boolean(false)),
            ]),
        ),
        ("Duktape.Buffer('abc')", Node::Buffer("abc".as_bytes().to_vec())),
        (DEFINE_FOO_RETURNS, Node::Undefined),
        (DEFINE_FOO_ARGUMENTS, Node::Undefined),
        (DEFINE_FOO_THROWS, Node::Undefined),
    ];
    for (source, outcome) in results {
        heap.prepare(source.to_owned(), false, outcome);
    }
    let thrown = vec![
        ("throw 'foobar';", text_node("foobar")),
        ("throw new Error('xyz')", Node::Fault(100, "Error: xyz".to_owned())),
        ("throw new EvalError('xyz')", Node::Fault(101, "EvalError: xyz".to_owned())),
        ("throw new RangeError('xyz')", Node::Fault(102, "RangeError: xyz".to_owned())),
        ("throw new ReferenceError('xyz')", Node::Fault(103, "ReferenceError: xyz".to_owned())),
        ("throw new SyntaxError('xyz')", Node::Fault(104, "SyntaxError: xyz".to_owned())),
        ("throw new TypeError('xyz')", Node::Fault(105, "TypeError: xyz".to_owned())),
        ("throw new URIError('xyz')", Node::Fault(106, "URIError: xyz".to_owned())),
        (
            "var a = {}; a.foo()",
            Node::Fault(105, "TypeError: undefined not callable".to_owned()),
        ),
    ];
    for (source, outcome) in thrown {
        heap.prepare(source.to_owned(), true, outcome);
    }
    Context::new(heap)
}

/// What evaluating one of the definitions of `foo` leaves behind.
fn define_foo(ctx: Context<Heap>, body: Node) -> Context<Heap> {
    let mut heap = ctx.into_engine();
    heap.define_global("foo".to_owned(), body);
    Context::new(heap)
}

#[test]
fn eval_string_undefined() {
    let mut ctx = context();
    let value = ctx.eval_string("undefined");
    assert_eq!(Ok(Value::Undefined), value);
    assert!(ctx.assert_clean());
}

#[test]
fn eval_string_null() {
    let mut ctx = context();
    let value = ctx.eval_string("null");
    assert_eq!(Ok(Value::Null), value);
    assert!(ctx.assert_clean());
}

#[test]
fn eval_string_boolean_true() {
    let mut ctx = context();
    let value = ctx.eval_string("true");
    assert_eq!(Ok(Value::Boolean(true)), value);
    assert!(ctx.assert_clean());
}

#[test]
fn eval_string_boolean_false() {
    let mut ctx = context();
    let value = ctx.eval_string("false");
    assert_eq!(Ok(Value::Boolean(false)), value);
    assert!(ctx.assert_clean());
}

#[test]
fn eval_string_number_integral() {
    let mut ctx = context();
    let value = ctx.eval_string("4");
    assert_eq!(Ok(Value::Number(4.0f64.to_bits())), value);
    assert!(ctx.assert_clean());
}

#[test]
fn eval_string_number_fractional() {
    let mut ctx = context();
    let value = ctx.eval_string("0.5");
    assert_eq!(Ok(Value::Number(0.5f64.to_bits())), value);
    assert!(ctx.assert_clean());
}

#[test]
fn eval_string_string() {
    let mut ctx = context();
    let value = ctx.eval_string("'ab'");
    assert_eq!(Ok(Value::String("ab".to_owned())), value);
    assert!(ctx.assert_clean());
}

#[test]
fn eval_string_concatenation() {
    let mut ctx = context();
    let value = ctx.eval_string("'ab' + 'cd' + Math.floor(2.3)");
    assert_eq!(Ok(Value::String("abcd2".to_owned())), value);
    assert!(ctx.assert_clean());
}

#[test]
fn eval_string_not_callable() {
    let mut ctx = context();
    match ctx.eval_string("var a = {}; a.foo()") {
        Err(Error::Js { kind, message }) => {
            assert_eq!(JsErrorKind::Type, kind);
            assert_eq!("TypeError: undefined not callable", message);
        }
        _ => unreachable!(),
    }
    assert!(ctx.assert_clean());
}

#[test]
fn eval_string_array() {
    let mut ctx = context();
    let value = ctx.eval_string("['a', 3, false]");
    assert_eq!(
        Ok(Value::Array(vec![
            Value::String("a".to_owned()),
            Value::Number(3.0f64.to_bits()),
            Value::Boolean(false)
        ])),
        value
    );
    assert!(ctx.assert_clean());
}

#[test]
fn eval_string_object() {
    let mut ctx = context();
    let value = ctx.eval_string("({a: 'a', b: 3, c: false})");

    let expected = vec![
        member("a", Value::String("a".to_owned())),
        member("b", Value::Number(3.0f64.to_bits())),
        member("c", Value::Boolean(false)),
    ];

    assert_eq!(Ok(Value::Object(expected)), value);
    assert!(ctx.assert_clean());
}

#[test]
fn eval_string_buffer() {
    let mut ctx = context();
    let value = ctx.eval_string("Duktape.Buffer('abc')");
    assert_eq!(Ok(Value::Bytes("abc".as_bytes().to_vec())), value);
    assert!(ctx.assert_clean());
}

#[test]
fn eval_string_error_generic() {
    let mut ctx = context();
    let value = ctx.eval_string("throw 'foobar';");
    assert_eq!(
        Err(Error::Js { kind: JsErrorKind::Generic, message: "foobar".to_owned() }),
        value
    );
    assert!(ctx.assert_clean());
}

#[test]
fn eval_string_error_error() {
    let mut ctx = context();
    let value = ctx.eval_string("throw new Error('xyz')");
    assert_eq!(
        Err(Error::Js { kind: JsErrorKind::Error, message: "Error: xyz".to_owned() }),
        value
    );
    assert!(ctx.assert_clean());
}

#[test]
fn eval_string_eval_error() {
    let mut ctx = context();
    let value = ctx.eval_string("throw new EvalError('xyz')");
    assert_eq!(
        Err(Error::Js { kind: JsErrorKind::Eval, message: "EvalError: xyz".to_owned() }),
        value
    );
    assert!(ctx.assert_clean());
}

#[test]
fn eval_string_range_error() {
    let mut ctx = context();
    let value = ctx.eval_string("throw new RangeError('xyz')");
    assert_eq!(
        Err(Error::Js { kind: JsErrorKind::Range, message: "RangeError: xyz".to_owned() }),
        value
    );
    assert!(ctx.assert_clean());
}

#[test]
fn eval_string_reference_error() {
    let mut ctx = context();
    let value = ctx.eval_string("throw new ReferenceError('xyz')");
    assert_eq!(
        Err(Error::Js { kind: JsErrorKind::Reference, message: "ReferenceError: xyz".to_owned() }),
        value
    );
    assert!(ctx.assert_clean());
}

#[test]
fn eval_string_syntax_error() {
    let mut ctx = context();
    let value = ctx.eval_string("throw new SyntaxError('xyz')");
    assert_eq!(
        Err(Error::Js { kind: JsErrorKind::Syntax, message: "SyntaxError: xyz".to_owned() }),
        value
    );
    assert!(ctx.assert_clean());
}

#[test]
fn eval_string_type_error() {
    let mut ctx = context();
    let value = ctx.eval_string("throw new TypeError('xyz')");
    assert_eq!(
        Err(Error::Js { kind: JsErrorKind::Type, message: "TypeError: xyz".to_owned() }),
        value
    );
    assert!(ctx.assert_clean());
}

#[test]
fn eval_string_uri_error() {
    let mut ctx = context();
    let value = ctx.eval_string("throw new URIError('xyz')");
    assert_eq!(
        Err(Error::Js { kind: JsErrorKind::Uri, message: "URIError: xyz".to_owned() }),
        value
    );
    assert!(ctx.assert_clean());
}

#[test]
fn eval_string_call_global() {
    let mut ctx = context();
    ctx.eval_string(DEFINE_FOO_RETURNS).unwrap();
    let mut ctx = define_foo(ctx, Node::Constant(Box::new(text_node("a"))));
    let value = ctx.call_global("foo", &[]);
    assert_eq!(Ok(Value::String("a".to_owned())), value);
    assert!(ctx.assert_clean());
}

#[test]
fn eval_string_call_global_args() {
    let mut ctx = context();
    ctx.eval_string(DEFINE_FOO_ARGUMENTS).unwrap();
    let mut ctx = define_foo(ctx, Node::Collector);

    let obj = || {
        vec![
            member("a", Value::String("a".to_owned())),
            member("b", Value::Number(3.0f64.to_bits())),
            member("c", Value::Boolean(false)),
        ]
    };

    let arr = || {
        vec![
            Value::String("a".to_owned()),
            Value::Number(3.0f64.to_bits()),
            Value::Boolean(false),
        ]
    };

    let bytes = || vec![0, 1, 2, 3];

    let args = || {
        vec![
            Value::Undefined,
            Value::Null,
            Value::Boolean(true),
            Value::Number(1.0f64.to_bits()),
            Value::String("foo".to_owned()),
            Value::Array(arr()),
            Value::Object(obj()),
            Value::Bytes(bytes()),
        ]
    };
    let value = ctx.call_global("foo", &args());
    assert_eq!(Ok(Value::Array(args())), value);
    assert!(ctx.assert_clean());
}

#[test]
fn eval_string_call_global_error() {
    let mut ctx = context();
    ctx.eval_string(DEFINE_FOO_THROWS).unwrap();
    let mut ctx = define_foo(ctx, Node::Thrower(Box::new(text_node("a"))));
    let value = ctx.call_global("foo", &[]);
    assert_eq!(
        Err(Error::Js { kind: JsErrorKind::Generic, message: "a".to_owned() }),
        value
    );
    assert!(ctx.assert_clean());
}

#[test]
fn call_non_existent() {
    let mut ctx = context();
    let value = ctx.call_global("foo", &[]);
    assert_eq!(Err(Error::NonExistent), value);
    assert!(ctx.assert_clean());
}
