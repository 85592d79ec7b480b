use duk::context::{pop_value_or_error, push_args};
use duk::heap::{Field, Heap, Node};
use duk::value::{insert_sorted, key_before, Member};
use duk::{Context, Error, JsErrorKind, Stack, Value};

fn text(s: &str) -> Value {
    Value::String(s.to_owned())
}

fn number(n: f64) -> Value {
    Value::Number(n.to_bits())
}

fn member(key: &str, value: Value) -> Member {
    Member { key: key.to_owned(), value }
}

fn sample_object() -> Value {
    Value::Object(vec![
        member("a", text("a")),
        member("b", number(3.0)),
        member("c", Value::Boolean(false)),
    ])
}

fn sample_array() -> Value {
    Value::Array(vec![text("a"), number(3.0), Value::Boolean(false)])
}

fn round_trip(value: Value) {
    let mut heap = Heap::new();
    value.push(&mut heap);
    assert_eq!(1, heap.top());
    let back = Value::get(&mut heap, -1);
    assert_eq!(1, heap.top());
    assert_eq!(Ok(value), back);
}

#[test]
fn round_trip_undefined() {
    round_trip(Value::Undefined);
}

#[test]
fn round_trip_null() {
    round_trip(Value::Null);
}

#[test]
fn round_trip_booleans() {
    round_trip(Value::Boolean(true));
    round_trip(Value::Boolean(false));
}

#[test]
fn round_trip_numbers() {
    round_trip(number(4.0));
    round_trip(number(0.5));
    round_trip(number(-0.0));
    round_trip(Value::Number(f64::NAN.to_bits()));
}

#[test]
fn round_trip_string() {
    round_trip(text("ab"));
    round_trip(text(""));
    round_trip(text("héllo ✓"));
}

#[test]
fn round_trip_bytes() {
    round_trip(Value::Bytes(vec![0, 1, 2, 3]));
    round_trip(Value::Bytes(Vec::new()));
}

#[test]
fn round_trip_array() {
    round_trip(sample_array());
    round_trip(Value::Array(Vec::new()));
}

#[test]
fn round_trip_object() {
    round_trip(sample_object());
    round_trip(Value::Object(Vec::new()));
}

#[test]
fn round_trip_nested() {
    round_trip(Value::Array(vec![
        sample_object(),
        Value::Array(vec![sample_array(), Value::Bytes(vec![9, 8])]),
        Value::Object(vec![member("inner", sample_object()), member("list", sample_array())]),
    ]));
}

#[test]
fn push_adds_exactly_one_slot() {
    let mut heap = Heap::new();
    heap.push_null();
    sample_object().push(&mut heap);
    assert_eq!(2, heap.top());
    assert_eq!(Ok(Value::Null), Value::get(&mut heap, 0));
    assert_eq!(Ok(Value::Null), Value::get(&mut heap, -2));
    assert_eq!(Ok(sample_object()), Value::get(&mut heap, 1));
    assert_eq!(2, heap.top());
}

#[test]
fn get_sorts_object_keys() {
    let mut heap = Heap::new();
    heap.push_node(Node::Object(vec![
        Field { key: "c".to_owned(), value: Node::Boolean(false) },
        Field { key: "a".to_owned(), value: Node::Text("a".to_owned()) },
        Field { key: "b".to_owned(), value: Node::Number(3.0f64.to_bits()) },
    ]));
    assert_eq!(Ok(sample_object()), Value::get(&mut heap, -1));
    assert_eq!(1, heap.top());
}

#[test]
fn get_pointer_is_unsupported() {
    let mut heap = Heap::new();
    heap.push_node(Node::Pointer);
    assert_eq!(Err(Error::UnsupportedType("pointer")), Value::get(&mut heap, -1));
    assert_eq!(1, heap.top());
}

#[test]
fn get_lightfunc_is_unsupported() {
    let mut heap = Heap::new();
    heap.push_node(Node::Lightfunc);
    assert_eq!(Err(Error::UnsupportedType("lightfunc")), Value::get(&mut heap, -1));
    assert_eq!(1, heap.top());
}

#[test]
fn get_unwinds_after_nested_unsupported() {
    let mut heap = Heap::new();
    heap.push_node(Node::Array(vec![
        Node::Null,
        Node::Object(vec![
            Field { key: "x".to_owned(), value: Node::Number(1.0f64.to_bits()) },
            Field { key: "f".to_owned(), value: Node::Lightfunc },
            Field { key: "p".to_owned(), value: Node::Pointer },
        ]),
        Node::Pointer,
    ]));
    assert_eq!(Err(Error::UnsupportedType("lightfunc")), Value::get(&mut heap, -1));
    assert_eq!(1, heap.top());
}

#[test]
fn get_cursor_reads_as_empty_object() {
    let mut heap = Heap::new();
    sample_object().push(&mut heap);
    heap.enumerate(-1);
    assert_eq!(Ok(Value::Object(Vec::new())), Value::get(&mut heap, -1));
    assert_eq!(2, heap.top());
}

#[test]
fn key_order_is_byte_order() {
    assert!(key_before("a", "b"));
    assert!(!key_before("b", "a"));
    assert!(!key_before("a", "a"));
    assert!(key_before("", "a"));
    assert!(!key_before("a", ""));
    assert!(key_before("a", "ab"));
    assert!(key_before("B", "a"));
    assert!(key_before("10", "9"));
    assert!(key_before("z", "é"));
}

#[test]
fn insert_sorted_places_and_replaces() {
    let mut entries: Vec<Member> = Vec::new();
    insert_sorted(&mut entries, "b".to_owned(), number(1.0));
    insert_sorted(&mut entries, "c".to_owned(), number(2.0));
    insert_sorted(&mut entries, "a".to_owned(), number(3.0));
    insert_sorted(&mut entries, "b".to_owned(), number(4.0));
    assert_eq!(
        vec![member("a", number(3.0)), member("b", number(4.0)), member("c", number(2.0))],
        entries
    );
}

#[test]
fn error_kind_table() {
    let table = [
        (0, JsErrorKind::Generic),
        (50, JsErrorKind::Unimplemented),
        (51, JsErrorKind::Unsupported),
        (52, JsErrorKind::Internal),
        (53, JsErrorKind::Alloc),
        (54, JsErrorKind::Assertion),
        (55, JsErrorKind::Api),
        (56, JsErrorKind::Uncaught),
        (100, JsErrorKind::Error),
        (101, JsErrorKind::Eval),
        (102, JsErrorKind::Range),
        (103, JsErrorKind::Reference),
        (104, JsErrorKind::Syntax),
        (105, JsErrorKind::Type),
        (106, JsErrorKind::Uri),
    ];
    for (code, kind) in table {
        assert_eq!(kind, JsErrorKind::from_raw(code));
        assert_eq!(Some(kind), JsErrorKind::lookup(code));
    }
}

#[test]
fn error_kind_unknown_codes() {
    for code in [-1, 1, 49, 57, 99, 107, i32::MAX, i32::MIN] {
        assert_eq!(None, JsErrorKind::lookup(code));
    }
}

#[test]
fn error_get_renders_in_place() {
    let mut heap = Heap::new();
    heap.push_string("foobar");
    heap.push_null();
    let error = Error::get(&mut heap, -2);
    assert_eq!(
        Error::Js { kind: JsErrorKind::Generic, message: "foobar".to_owned() },
        error
    );
    assert_eq!(2, heap.top());
    let error = Error::get(&mut heap, -1);
    assert_eq!(Error::Js { kind: JsErrorKind::Generic, message: "null".to_owned() }, error);
    assert_eq!(Ok(text("null")), Value::get(&mut heap, -1));
}

#[test]
fn pop_value_or_error_value() {
    let mut heap = Heap::new();
    sample_array().push(&mut heap);
    assert_eq!(Ok(sample_array()), pop_value_or_error(&mut heap, 0));
    assert_eq!(0, heap.top());
}

#[test]
fn pop_value_or_error_fault() {
    let mut heap = Heap::new();
    heap.push_string("a");
    assert_eq!(
        Err(Error::Js { kind: JsErrorKind::Generic, message: "a".to_owned() }),
        pop_value_or_error(&mut heap, 1)
    );
    assert_eq!(0, heap.top());
}

#[test]
fn pop_value_or_error_unsupported_still_pops() {
    let mut heap = Heap::new();
    heap.push_node(Node::Pointer);
    assert_eq!(Err(Error::UnsupportedType("pointer")), pop_value_or_error(&mut heap, 0));
    assert_eq!(0, heap.top());
}

#[test]
fn push_args_keeps_order_and_structure() {
    let args = [
        Value::Undefined,
        Value::Null,
        Value::Boolean(true),
        number(1.0),
        text("foo"),
        sample_array(),
        sample_object(),
        Value::Bytes(vec![0, 1, 2, 3]),
    ];
    let mut heap = Heap::new();
    push_args(&mut heap, &args);
    assert_eq!(args.len(), heap.top());
    for (i, arg) in args.iter().enumerate() {
        assert_eq!(Ok(arg), Value::get(&mut heap, i as i32).as_ref());
    }
    assert_eq!(Ok(&args[7]), Value::get(&mut heap, -1).as_ref());
}

#[test]
fn call_non_existent_pushes_no_arguments() {
    let mut ctx = Context::new(Heap::new());
    let value = ctx.call_global("foo", &[sample_object(), number(2.0)]);
    assert_eq!(Err(Error::NonExistent), value);
    assert!(ctx.assert_clean());
}

#[test]
fn call_global_of_a_plain_object_faults_and_balances() {
    let mut heap = Heap::new();
    heap.define_global("foo".to_owned(), Node::Object(Vec::new()));
    let mut ctx = Context::new(heap);
    let value = ctx.call_global("foo", &[sample_array(), text("x")]);
    assert_eq!(
        Err(Error::Js { kind: JsErrorKind::Type, message: "TypeError: not callable".to_owned() }),
        value
    );
    assert!(ctx.assert_clean());
    assert_eq!(Err(Error::NonExistent), ctx.call_global("bar", &[]));
    assert!(ctx.assert_clean());
}

#[test]
fn eval_of_unprepared_source_faults_and_balances() {
    let mut ctx = Context::new(Heap::new());
    let expected = Err(Error::Js {
        kind: JsErrorKind::Generic,
        message: "evaluation is not supported".to_owned(),
    });
    assert_eq!(expected, ctx.eval_string("'ab' + 'cd'"));
    assert!(ctx.assert_clean());
    assert_eq!(expected, ctx.eval_file("script.js"));
    assert!(ctx.assert_clean());
    let heap = ctx.into_engine();
    assert_eq!(0, heap.top());
}

#[test]
fn error_get_reads_fault_code_and_message() {
    let codes = [
        (50, JsErrorKind::Unimplemented),
        (51, JsErrorKind::Unsupported),
        (52, JsErrorKind::Internal),
        (53, JsErrorKind::Alloc),
        (54, JsErrorKind::Assertion),
        (55, JsErrorKind::Api),
        (56, JsErrorKind::Uncaught),
        (100, JsErrorKind::Error),
        (106, JsErrorKind::Uri),
    ];
    for (code, kind) in codes {
        let mut heap = Heap::new();
        heap.push_node(Node::Fault(code, "boom".to_owned()));
        assert_eq!(Error::Js { kind, message: "boom".to_owned() }, Error::get(&mut heap, -1));
        assert_eq!(1, heap.top());
    }
}

#[test]
fn stack_stays_balanced_over_many_operations() {
    let mut heap = Heap::new();
    heap.prepare("1".to_owned(), false, Node::Number(1.0f64.to_bits()));
    heap.prepare("bad".to_owned(), true, Node::Fault(104, "SyntaxError: bad".to_owned()));
    heap.prepare("ptr".to_owned(), false, Node::Array(vec![Node::Null, Node::Pointer]));
    heap.define_global("args".to_owned(), Node::Collector);
    heap.define_global("fail".to_owned(), Node::Thrower(Box::new(Node::Text("no".to_owned()))));
    let mut ctx = Context::new(heap);
    for _ in 0..3 {
        assert_eq!(Ok(number(1.0)), ctx.eval_string("1"));
        assert!(ctx.assert_clean());
        assert_eq!(
            Err(Error::Js { kind: JsErrorKind::Syntax, message: "SyntaxError: bad".to_owned() }),
            ctx.eval_string("bad")
        );
        assert!(ctx.assert_clean());
        assert_eq!(Err(Error::UnsupportedType("pointer")), ctx.eval_file("ptr"));
        assert!(ctx.assert_clean());
        assert_eq!(
            Ok(Value::Array(vec![sample_object(), Value::Null])),
            ctx.call_global("args", &[sample_object(), Value::Null])
        );
        assert!(ctx.assert_clean());
        assert_eq!(
            Err(Error::Js { kind: JsErrorKind::Generic, message: "no".to_owned() }),
            ctx.call_global("fail", &[number(2.0)])
        );
        assert!(ctx.assert_clean());
        assert_eq!(Err(Error::NonExistent), ctx.call_global("none", &[number(2.0)]));
        assert!(ctx.assert_clean());
    }
}

#[test]
fn is_wf_accepts_ascending_keys() {
    assert!(sample_object().is_wf());
    assert!(sample_array().is_wf());
    assert!(Value::Object(Vec::new()).is_wf());
    assert!(Value::Array(vec![sample_object(), Value::Null]).is_wf());
}

#[test]
fn is_wf_rejects_unordered_or_repeated_keys() {
    let unordered = Value::Object(vec![member("b", Value::Null), member("a", Value::Null)]);
    assert!(!unordered.is_wf());
    let repeated = Value::Object(vec![member("a", Value::Null), member("a", Value::Null)]);
    assert!(!repeated.is_wf());
    assert!(!Value::Array(vec![Value::Null, repeated]).is_wf());
    let nested = Value::Object(vec![member("a", unordered)]);
    assert!(!nested.is_wf());
}

#[test]
fn clone_gives_an_equal_value() {
    let value = Value::Array(vec![sample_object(), sample_array(), Value::Bytes(vec![1, 2])]);
    assert_eq!(value, value.clone());
}

#[test]
fn node_copy_gives_an_equal_node() {
    let node = Node::Array(vec![
        Node::Object(vec![Field { key: "k".to_owned(), value: Node::Buffer(vec![7]) }]),
        Node::Fault(105, "TypeError: xyz".to_owned()),
        Node::Constant(Box::new(Node::Collector)),
        Node::Cursor(Vec::new(), 0),
    ]);
    assert_eq!(node, node.copy());
}

#[test]
fn heap_answers_with_the_first_prepared_outcome() {
    let mut heap = Heap::new();
    heap.prepare("x".to_owned(), false, Node::Boolean(true));
    heap.prepare("x".to_owned(), true, Node::Null);
    assert_eq!(0, heap.answer("x"));
    assert_eq!(Ok(Value::Boolean(true)), Value::get(&mut heap, -1));
    assert_eq!(1, heap.answer("y"));
    assert_eq!(Ok(text("evaluation is not supported")), Value::get(&mut heap, -1));
    assert_eq!(2, heap.top());
}

#[test]
fn heap_call_replaces_function_and_arguments() {
    let mut heap = Heap::new();
    heap.push_null();
    heap.push_node(Node::Collector);
    heap.push_boolean(true);
    heap.push_string("s");
    assert_eq!(0, heap.call(2));
    assert_eq!(2, heap.top());
    assert_eq!(Ok(Value::Array(vec![Value::Boolean(true), text("s")])), Value::get(&mut heap, -1));
    assert_eq!(Ok(Value::Null), Value::get(&mut heap, -2));
}

#[test]
fn unknown_fault_code_of_an_error_object_reads_as_error() {
    let mut heap = Heap::new();
    heap.push_node(Node::Fault(7, "odd".to_owned()));
    assert_eq!(
        Error::Js { kind: JsErrorKind::Error, message: "odd".to_owned() },
        Error::get(&mut heap, -1)
    );
}

#[test]
fn call_global_hands_over_exactly_the_arguments() {
    let mut heap = Heap::new();
    heap.define_global("args".to_owned(), Node::Collector);
    let mut ctx = Context::new(heap);
    assert_eq!(Ok(Value::Array(Vec::new())), ctx.call_global("args", &[]));
    assert_eq!(
        Ok(Value::Array(vec![number(1.0), text("x")])),
        ctx.call_global("args", &[number(1.0), text("x")])
    );
    assert_eq!(
        Ok(Value::Array(vec![text("x"), number(1.0)])),
        ctx.call_global("args", &[text("x"), number(1.0)])
    );
    assert!(ctx.assert_clean());
}

#[test]
fn call_global_calls_the_first_global_of_that_name() {
    let mut heap = Heap::new();
    heap.define_global("f".to_owned(), Node::Constant(Box::new(Node::Number(1.0f64.to_bits()))));
    heap.define_global("f".to_owned(), Node::Constant(Box::new(Node::Number(2.0f64.to_bits()))));
    heap.define_global("g".to_owned(), Node::Collector);
    let mut ctx = Context::new(heap);
    assert_eq!(Ok(number(1.0)), ctx.call_global("f", &[Value::Null]));
    assert_eq!(Ok(Value::Array(vec![Value::Null])), ctx.call_global("g", &[Value::Null]));
    assert!(ctx.assert_clean());
}

#[test]
fn eval_gives_the_answer_prepared_for_that_source() {
    let mut heap = Heap::new();
    heap.prepare("a".to_owned(), false, Node::Text("first".to_owned()));
    heap.prepare("b".to_owned(), false, Node::Text("second".to_owned()));
    heap.prepare("".to_owned(), false, Node::Text("empty".to_owned()));
    let mut ctx = Context::new(heap);
    assert_eq!(Ok(text("second")), ctx.eval_string("b"));
    assert_eq!(Ok(text("first")), ctx.eval_string("a"));
    assert_eq!(Ok(text("empty")), ctx.eval_file(""));
    assert!(ctx.assert_clean());
}
