use std::cmp::Ordering;
use std::collections::HashMap;
use std::fmt;

use little::interpreter::{ExecutionResult, Interpreter, InterpreterStream};
use little::machine::{MAX_STEPS, MAX_VALUES};
use little::{
    Binding, Build, BuildError, ByteStream, Call, Cond, Constant, Execute, Fingerprint, Function,
    Instruction, LittleError, LittleValue, Mem, Names, Order, Template,
};

#[derive(Clone, Debug, Eq, PartialEq)]
pub enum Value {
    Null,
    Int(i64),
    Str(String),
    Obj(HashMap<String, Value>),
}

impl PartialOrd for Value {
    fn partial_cmp(&self, other: &Value) -> Option<Ordering> {
        match (self, other) {
            (&Value::Null, &Value::Null) => Some(Ordering::Equal),
            (&Value::Int(ref a), &Value::Int(ref b)) => a.partial_cmp(b),
            (&Value::Str(ref a), &Value::Str(ref b)) => a.partial_cmp(b),
            _ => None,
        }
    }
}

impl fmt::Display for Value {
    fn fmt(&self, f: &mut fmt::Formatter) -> fmt::Result {
        match *self {
            Value::Null => Ok(()),
            Value::Int(ref i) => f.write_str(&i.to_string()),
            Value::Str(ref s) => f.write_str(s),
            Value::Obj(ref s) => f.write_str(&format!("{:?}", s)),
        }
    }
}

impl LittleValue for Value {
    // The five that follow are the trait's mathematical side. Nothing runs them.
    fn shown(&self) -> vstd::seq::Seq<char> {
        unreachable!()
    }

    fn same(&self, _: &Value) -> bool {
        unreachable!()
    }

    fn order(&self, _: &Value) -> Option<Order> {
        unreachable!()
    }

    fn property(&self, _: vstd::seq::Seq<char>) -> Option<Value> {
        unreachable!()
    }

    fn unset() -> Value {
        unreachable!()
    }

    fn display(&self) -> String {
        self.to_string()
    }

    fn equals(&self, other: &Value) -> bool {
        self == other
    }

    fn compare(&self, other: &Value) -> Option<Order> {
        match self.partial_cmp(other) {
            Some(Ordering::Less) => Some(Order::Less),
            Some(Ordering::Equal) => Some(Order::Equal),
            Some(Ordering::Greater) => Some(Order::Greater),
            None => None,
        }
    }

    fn get_property(&self, key: &str) -> Option<Value> {
        match *self {
            Value::Obj(ref map) => map.get(key).cloned(),
            _ => None,
        }
    }

    fn default_value() -> Value {
        Value::Null
    }

    fn duplicate(&self) -> Value {
        self.clone()
    }
}

/// Joins the display forms of two values with a blank.
struct Join;

impl Function<Value> for Join {
    fn outcome(&self, _: vstd::seq::Seq<Value>) -> Result<Value, String> {
        unreachable!()
    }

    fn invoke(&self, args: &[Value]) -> Result<Value, String> {
        Ok(Value::Str(format!("{} {}", args[0], args[1])))
    }
}

/// Counts its arguments.
struct Count;

impl Function<Value> for Count {
    fn outcome(&self, _: vstd::seq::Seq<Value>) -> Result<Value, String> {
        unreachable!()
    }

    fn invoke(&self, args: &[Value]) -> Result<Value, String> {
        Ok(Value::Int(args.len() as i64))
    }
}

/// Always fails.
struct Refuse;

impl Function<Value> for Refuse {
    fn outcome(&self, _: vstd::seq::Seq<Value>) -> Result<Value, String> {
        unreachable!()
    }

    fn invoke(&self, _: &[Value]) -> Result<Value, String> {
        Err("refused".to_string())
    }
}

fn s(text: &str) -> Value {
    Value::Str(text.to_string())
}

fn person() -> Value {
    let mut address = HashMap::new();
    address.insert("city".to_string(), s("Vilnius"));
    let mut map = HashMap::new();
    map.insert("name".to_string(), s("Ann"));
    map.insert("address".to_string(), Value::Obj(address));
    Value::Obj(map)
}

fn template(instructions: Vec<Instruction>, constants: Vec<(u32, Value)>) -> Template<Value> {
    let mut template = Template::empty().push_instructions(instructions);
    for (index, value) in constants {
        template = template.push_constant(Constant(index), value);
    }
    template
}

/// Reads the stream in pieces of `room` bytes to its end or its first error.
fn drain(stream: &mut InterpreterStream<Value>, room: usize) -> (String, Option<LittleError>) {
    let mut bytes = Vec::new();
    let mut buf = vec![0u8; room];
    loop {
        match stream.read(&mut buf) {
            Ok(0) => return (String::from_utf8(bytes).unwrap(), None),
            Ok(n) => bytes.extend_from_slice(&buf[..n]),
            Err(e) => return (String::from_utf8(bytes).unwrap(), Some(e)),
        }
    }
}

/// Runs the instructions on `input` with no functions and reads all.
fn run(
    instructions: Vec<Instruction>,
    constants: Vec<(u32, Value)>,
    input: Value,
) -> (String, Option<LittleError>) {
    let funs = Names::new();
    let mut i = Interpreter::new();
    let p = i.build("", template(instructions, constants), &funs).unwrap();
    let mut stream = p.execute(input);
    drain(&mut stream, 8)
}

fn output(location: Mem) -> Instruction {
    Instruction::Output { location }
}

fn push(location: Mem) -> Instruction {
    Instruction::Push { location }
}

fn constant(index: u32) -> Mem {
    Mem::Const(Constant(index))
}

#[test]
fn empty_template_reads_zero_bytes() {
    let funs = Names::new();
    let mut i = Interpreter::new();
    let p = i.build("", Template::<Value>::empty(), &funs).unwrap();
    let mut stream = p.execute(s("ignored"));
    let mut buf = [7u8; 4];
    assert_eq!(0, stream.read(&mut buf).unwrap());
    assert_eq!([7u8; 4], buf);
    assert_eq!(0, stream.read(&mut buf).unwrap());
}

#[test]
fn output_of_null_is_empty() {
    let (text, error) = run(vec![output(constant(0))], vec![(0, Value::Null)], Value::Null);
    assert_eq!("", text);
    assert!(error.is_none());
}

#[test]
fn output_of_integer_parameters() {
    let (text, error) = run(vec![output(Mem::Parameters)], vec![], Value::Int(-42));
    assert_eq!("-42", text);
    assert!(error.is_none());
}

#[test]
fn output_keeps_utf8_bytes() {
    let funs = Names::new();
    let mut i = Interpreter::new();
    let p = i
        .build("", template(vec![output(Mem::Parameters)], vec![]), &funs)
        .unwrap();
    let mut stream = p.execute(s("žą"));
    let mut buf = [0u8; 16];
    let n = stream.read(&mut buf).unwrap();
    assert_eq!(&[0xc5, 0xbe, 0xc4, 0x85], &buf[..n]);
}

#[test]
fn consecutive_outputs_concatenate_in_order() {
    let (text, error) = run(
        vec![output(constant(2)), output(Mem::Parameters), output(constant(1))],
        vec![(1, s("c")), (2, s("a"))],
        s("b"),
    );
    assert_eq!("abc", text);
    assert!(error.is_none());
}

#[test]
fn partial_reads_deliver_in_order() {
    let funs = Names::new();
    let mut i = Interpreter::new();
    let p = i
        .build(
            "",
            template(vec![output(constant(1)), output(constant(2))], vec![(1, s("Hello")), (2, s(" World"))]),
            &funs,
        )
        .unwrap();
    let mut stream = p.execute(Value::Null);
    let mut buf = [0u8; 3];
    let mut pieces = Vec::new();
    loop {
        let n = stream.read(&mut buf).unwrap();
        if n == 0 {
            break;
        }
        pieces.push(String::from_utf8(buf[..n].to_vec()).unwrap());
    }
    assert_eq!(vec!["Hel", "lo ", "Wor", "ld"], pieces);
}

#[test]
fn read_leaves_the_rest_of_the_buffer() {
    let funs = Names::new();
    let mut i = Interpreter::new();
    let p = i
        .build("", template(vec![output(constant(1))], vec![(1, s("ab"))]), &funs)
        .unwrap();
    let mut stream = p.execute(Value::Null);
    let mut buf = [9u8; 5];
    assert_eq!(2, stream.read(&mut buf).unwrap());
    assert_eq!([b'a', b'b', 9, 9, 9], buf);
}

#[test]
fn zero_length_read_does_not_advance() {
    let funs = Names::new();
    let mut i = Interpreter::new();
    let p = i
        .build("", template(vec![push(constant(1)), output(constant(1))], vec![(1, s("x"))]), &funs)
        .unwrap();
    let mut stream = p.execute(Value::Null);
    let mut none = [0u8; 0];
    assert_eq!(0, stream.read(&mut none).unwrap());
    assert_eq!(0, stream.peek_stack(0).unwrap().len());
    assert!(stream.peek_stack(1).is_none());
    let (text, error) = drain(&mut stream, 4);
    assert_eq!("x", text);
    assert!(error.is_none());
}

#[test]
fn stack_top1_on_empty_stack_underflows() {
    for instruction in vec![
        output(Mem::StackTop1),
        push(Mem::StackTop1),
        Instruction::Load { binding: Binding(0), location: Mem::StackTop1 },
        Instruction::Property { name: Mem::StackTop1 },
        Instruction::CondJump { pc: 0, location: Mem::StackTop1, test: Cond::Eq },
    ] {
        let (text, error) = run(vec![instruction], vec![], Value::Null);
        assert_eq!("", text);
        assert!(matches!(error, Some(LittleError::StackUnderflow)));
    }
}

#[test]
fn stack_top2_on_one_item_underflows() {
    let (text, error) =
        run(vec![push(Mem::Parameters), output(Mem::StackTop2)], vec![], s("only"));
    assert_eq!("", text);
    assert!(matches!(error, Some(LittleError::StackUnderflow)));
}

#[test]
fn missing_constant_names_the_constant() {
    let (_, error) = run(vec![push(constant(9))], vec![(1, s("x"))], Value::Null);
    assert!(matches!(error, Some(LittleError::ConstantMissing(Constant(9)))));
}

#[test]
fn parameter_by_name() {
    let (text, error) = run(
        vec![output(Mem::Parameter { name: Constant(1) })],
        vec![(1, s("name"))],
        person(),
    );
    assert_eq!("Ann", text);
    assert!(error.is_none());
}

#[test]
fn missing_parameter_names_the_constant() {
    let (_, error) = run(
        vec![output(Mem::Parameter { name: Constant(1) })],
        vec![(1, s("age"))],
        person(),
    );
    assert!(matches!(error, Some(LittleError::ParameterMissing(Constant(1)))));
    let error = error.unwrap();
    assert_eq!("parameter is missing", error.description());
}

#[test]
fn parameter_with_missing_name_constant() {
    let (_, error) = run(vec![output(Mem::Parameter { name: Constant(1) })], vec![], person());
    assert!(matches!(error, Some(LittleError::ConstantMissing(Constant(1)))));
}

#[test]
fn property_replaces_the_stack_top() {
    let (text, error) = run(
        vec![
            push(Mem::Parameters),
            Instruction::Property { name: constant(1) },
            Instruction::Property { name: constant(2) },
            output(Mem::StackTop1),
        ],
        vec![(1, s("address")), (2, s("city"))],
        person(),
    );
    assert_eq!("Vilnius", text);
    assert!(error.is_none());
}

#[test]
fn property_reads_its_name_below_the_value() {
    let funs = Names::new();
    let mut i = Interpreter::new();
    let p = i
        .build(
            "",
            template(
                vec![
                    push(constant(1)),
                    push(Mem::Parameters),
                    Instruction::Property { name: Mem::StackTop1 },
                    output(Mem::StackTop1),
                ],
                vec![(1, s("name"))],
            ),
            &funs,
        )
        .unwrap();
    let mut stream = p.execute(person());
    let (text, error) = drain(&mut stream, 8);
    assert_eq!("Ann", text);
    assert!(error.is_none());
    assert_eq!(&[s("name"), s("Ann")], stream.peek_stack(2).unwrap());
}

#[test]
fn property_on_empty_stack_underflows_before_its_name_is_read() {
    let (_, error) = run(vec![Instruction::Property { name: constant(1) }], vec![], person());
    assert!(matches!(error, Some(LittleError::StackUnderflow)));
}

#[test]
fn property_with_missing_name_keeps_the_stack() {
    let funs = Names::new();
    let mut i = Interpreter::new();
    let p = i
        .build(
            "",
            template(
                vec![push(Mem::Parameters), Instruction::Property { name: constant(1) }],
                vec![],
            ),
            &funs,
        )
        .unwrap();
    let mut stream = p.execute(person());
    let mut buf = [0u8; 4];
    assert!(matches!(stream.read(&mut buf), Err(LittleError::ConstantMissing(Constant(1)))));
    assert_eq!(&[person()], stream.peek_stack(1).unwrap());
}

#[test]
fn property_miss_is_an_error_and_keeps_the_stack() {
    let funs = Names::new();
    let mut i = Interpreter::new();
    let p = i
        .build(
            "",
            template(
                vec![push(Mem::Parameters), Instruction::Property { name: constant(1) }],
                vec![(1, s("age"))],
            ),
            &funs,
        )
        .unwrap();
    let mut stream = p.execute(person());
    let mut buf = [0u8; 4];
    let error = stream.read(&mut buf).err().unwrap();
    assert!(matches!(error, LittleError::PropertyMissing));
    assert_eq!("property is missing", error.description());
    assert_eq!(&[person()], stream.peek_stack(1).unwrap());
    let again = stream.read(&mut buf).err().unwrap();
    assert!(matches!(again, LittleError::PropertyMissing));
}

#[test]
fn property_on_empty_stack_underflows() {
    let (_, error) = run(
        vec![Instruction::Property { name: constant(1) }],
        vec![(1, s("name"))],
        person(),
    );
    assert!(matches!(error, Some(LittleError::StackUnderflow)));
}

#[test]
fn load_then_output_with_instructions_between() {
    let (text, error) = run(
        vec![
            Instruction::Load { binding: Binding(1), location: constant(1) },
            push(constant(2)),
            Instruction::Pop { times: 1 },
            Instruction::Jump { pc: 4 },
            output(Mem::Binding(Binding(1))),
        ],
        vec![(1, s("kept")), (2, s("other"))],
        Value::Null,
    );
    assert_eq!("kept", text);
    assert!(error.is_none());
}

#[test]
fn load_overwrites_and_unset_bindings_are_default() {
    let (text, error) = run(
        vec![
            Instruction::Load { binding: Binding(3), location: constant(1) },
            Instruction::Load { binding: Binding(3), location: constant(2) },
            output(Mem::Binding(Binding(0))),
            output(Mem::Binding(Binding(2))),
            output(Mem::Binding(Binding(3))),
            output(Mem::Binding(Binding(70))),
        ],
        vec![(1, s("first")), (2, s("second"))],
        Value::Null,
    );
    assert_eq!("second", text);
    assert!(error.is_none());
}

#[test]
fn load_fills_the_new_slots_with_the_default() {
    let (text, error) = run(
        vec![
            Instruction::Load { binding: Binding(2), location: constant(1) },
            push(Mem::Binding(Binding(1))),
            Instruction::CondJump { pc: 4, location: constant(0), test: Cond::Eq },
            output(constant(1)),
            output(constant(2)),
        ],
        vec![(0, Value::Null), (1, s("no")), (2, s("default"))],
        Value::Null,
    );
    assert_eq!("default", text);
    assert!(error.is_none());
}

#[test]
fn load_at_the_last_slot_fits() {
    let last = (MAX_VALUES - 1) as u32;
    let (text, error) = run(
        vec![
            Instruction::Load { binding: Binding(last), location: constant(1) },
            output(Mem::Binding(Binding(last))),
        ],
        vec![(1, s("edge"))],
        Value::Null,
    );
    assert_eq!("edge", text);
    assert!(error.is_none());
}

#[test]
fn load_beyond_the_limit_is_fatal() {
    assert_eq!(500000, MAX_VALUES);
    let funs = Names::new();
    let mut i = Interpreter::new();
    let p = i
        .build(
            "",
            template(
                vec![
                    output(constant(1)),
                    Instruction::Load { binding: Binding(500000), location: constant(1) },
                    output(constant(1)),
                ],
                vec![(1, s("x"))],
            ),
            &funs,
        )
        .unwrap();
    let mut stream = p.execute(Value::Null);
    let mut buf = [0u8; 8];
    for _ in 0..3 {
        let error = stream.read(&mut buf).err().unwrap();
        assert!(matches!(error, LittleError::BindingLimit(Binding(500000))));
        assert_eq!("too many values", error.description());
    }
}

#[test]
fn push_then_pop_is_a_no_op() {
    let funs = Names::new();
    let mut i = Interpreter::new();
    let p = i
        .build(
            "",
            template(
                vec![
                    push(constant(1)),
                    push(constant(2)),
                    Instruction::Pop { times: 1 },
                    output(Mem::StackTop1),
                ],
                vec![(1, s("below")), (2, s("above"))],
            ),
            &funs,
        )
        .unwrap();
    let mut stream = p.execute(Value::Null);
    let (text, error) = drain(&mut stream, 8);
    assert_eq!("below", text);
    assert!(error.is_none());
    assert_eq!(&[s("below")], stream.peek_stack(1).unwrap());
    assert!(stream.peek_stack(2).is_none());
}

#[test]
fn pop_zero_is_a_no_op() {
    let (text, error) = run(
        vec![Instruction::Pop { times: 0 }, push(constant(1)), Instruction::Pop { times: 0 }, output(Mem::StackTop1)],
        vec![(1, s("still"))],
        Value::Null,
    );
    assert_eq!("still", text);
    assert!(error.is_none());
}

#[test]
fn pop_of_too_many_pops_what_is_there_and_fails() {
    let funs = Names::new();
    let mut i = Interpreter::new();
    let p = i
        .build(
            "",
            template(
                vec![push(constant(1)), push(constant(1)), Instruction::Pop { times: 3 }],
                vec![(1, s("x"))],
            ),
            &funs,
        )
        .unwrap();
    let mut stream = p.execute(Value::Null);
    let mut buf = [0u8; 4];
    assert!(matches!(stream.read(&mut buf), Err(LittleError::StackUnderflow)));
    assert_eq!(0, stream.peek_stack(0).unwrap().len());
    assert!(stream.peek_stack(1).is_none());
    assert!(matches!(stream.read(&mut buf), Err(LittleError::StackUnderflow)));
}

#[test]
fn pop_of_several() {
    let (text, error) = run(
        vec![
            push(constant(1)),
            push(constant(2)),
            push(constant(2)),
            Instruction::Pop { times: 2 },
            output(Mem::StackTop1),
        ],
        vec![(1, s("one")), (2, s("two"))],
        Value::Null,
    );
    assert_eq!("one", text);
    assert!(error.is_none());
}

#[test]
fn jump_backwards_and_beyond_the_end() {
    let (text, error) = run(
        vec![
            Instruction::Jump { pc: 3 },
            output(constant(1)),
            Instruction::Jump { pc: 900 },
            output(constant(2)),
            Instruction::Jump { pc: 1 },
        ],
        vec![(1, s("second")), (2, s("first "))],
        Value::Null,
    );
    assert_eq!("first second", text);
    assert!(error.is_none());
}

#[test]
fn cond_jump_does_not_pop() {
    let funs = Names::new();
    let mut i = Interpreter::new();
    let p = i
        .build(
            "",
            template(
                vec![
                    push(constant(1)),
                    Instruction::CondJump { pc: 3, location: constant(1), test: Cond::Eq },
                    output(constant(1)),
                    Instruction::CondJump { pc: 5, location: constant(1), test: Cond::Ne },
                    output(Mem::StackTop1),
                ],
                vec![(1, Value::Int(7))],
            ),
            &funs,
        )
        .unwrap();
    let mut stream = p.execute(Value::Null);
    let (text, error) = drain(&mut stream, 8);
    assert_eq!("7", text);
    assert!(error.is_none());
    assert_eq!(&[Value::Int(7)], stream.peek_stack(1).unwrap());
}

#[test]
fn cond_jump_on_empty_stack_underflows() {
    let (_, error) = run(
        vec![Instruction::CondJump { pc: 0, location: constant(1), test: Cond::Eq }],
        vec![(1, Value::Int(7))],
        Value::Null,
    );
    assert!(matches!(error, Some(LittleError::StackUnderflow)));
}

#[test]
fn cond_jump_with_missing_location_reports_it_first() {
    let (_, error) = run(
        vec![Instruction::CondJump { pc: 0, location: constant(1), test: Cond::Eq }],
        vec![],
        Value::Null,
    );
    assert!(matches!(error, Some(LittleError::ConstantMissing(Constant(1)))));
}

fn jumps(top: Value, value: Value, test: Cond) -> bool {
    let (text, error) = run(
        vec![
            push(constant(2)),
            Instruction::CondJump { pc: 3, location: constant(1), test },
            output(constant(3)),
            output(constant(3)),
        ],
        vec![(1, value), (2, top), (3, Value::Int(1))],
        Value::Null,
    );
    assert!(error.is_none());
    match text.as_ref() {
        "1" => true,
        "11" => false,
        v => panic!("unexpected output {:?}", v),
    }
}

#[test]
fn values_without_order_meet_no_order_test() {
    for test in vec![Cond::Gt, Cond::Gte, Cond::Lt, Cond::Lte] {
        assert!(!jumps(Value::Int(1), s("1"), test));
        assert!(!jumps(person(), person(), test));
    }
    assert!(jumps(person(), person(), Cond::Eq));
    assert!(!jumps(person(), person(), Cond::Ne));
    assert!(jumps(Value::Int(1), s("1"), Cond::Ne));
    assert!(jumps(Value::Null, Value::Null, Cond::Gte));
    assert!(jumps(s("a"), s("b"), Cond::Lt));
}

#[test]
fn hello_world_with_host_function() {
    let join = Join;
    let mut funs = Names::new();
    funs.insert("join", &join as &dyn Function<Value>);

    let template = Template::empty()
        .push_instructions(vec![
            push(constant(0)),
            push(Mem::Parameters),
            Instruction::Call { call: Call(0), argc: 2, push_result_to_stack: true },
            output(Mem::StackTop1),
        ])
        .push_call("join", Call(0))
        .push_constant(Constant(0), s("Hello"));

    let mut i = Interpreter::new();
    let p = i.build("", template, &funs).unwrap();
    let mut stream = p.execute(s("World"));
    let (text, error) = drain(&mut stream, 4);
    assert_eq!("Hello World", text);
    assert!(error.is_none());
    assert_eq!(&[s("Hello"), s("World"), s("Hello World")], stream.peek_stack(3).unwrap());
}

#[test]
fn call_gets_the_last_argc_items_and_may_drop_its_result() {
    let count = Count;
    let mut funs = Names::new();
    funs.insert("count", &count as &dyn Function<Value>);
    funs.insert("unused", &count as &dyn Function<Value>);
    let template = template(
        vec![
            push(constant(1)),
            push(constant(1)),
            push(constant(1)),
            Instruction::Call { call: Call(4), argc: 2, push_result_to_stack: true },
            output(Mem::StackTop1),
            Instruction::Call { call: Call(4), argc: 0, push_result_to_stack: false },
            output(Mem::StackTop1),
            Instruction::Call { call: Call(4), argc: 4, push_result_to_stack: true },
            output(Mem::StackTop1),
        ],
        vec![(1, s("x"))],
    )
    .push_call("count", Call(4));
    let mut i = Interpreter::new();
    let p = i.build("", template, &funs).unwrap();
    let (text, error) = drain(&mut p.execute(Value::Null), 8);
    assert_eq!("224", text);
    assert!(error.is_none());
}

#[test]
fn call_with_too_few_items_underflows() {
    let count = Count;
    let mut funs = Names::new();
    funs.insert("count", &count as &dyn Function<Value>);
    let template = template(
        vec![
            push(constant(1)),
            Instruction::Call { call: Call(0), argc: 2, push_result_to_stack: true },
        ],
        vec![(1, s("x"))],
    )
    .push_call("count", Call(0));
    let mut i = Interpreter::new();
    let p = i.build("", template, &funs).unwrap();
    let (_, error) = drain(&mut p.execute(Value::Null), 8);
    assert!(matches!(error, Some(LittleError::StackUnderflow)));
}

#[test]
fn call_of_unresolved_slot_is_missing() {
    let (_, error) = run(
        vec![Instruction::Call { call: Call(3), argc: 0, push_result_to_stack: true }],
        vec![],
        Value::Null,
    );
    assert!(matches!(error, Some(LittleError::CallMissing(Call(3)))));
    assert_eq!("call is missing", error.unwrap().description());
}

#[test]
fn call_error_is_surfaced_whether_or_not_the_result_is_pushed() {
    for push_result_to_stack in vec![true, false] {
        let refuse = Refuse;
        let mut funs = Names::new();
        funs.insert("refuse", &refuse as &dyn Function<Value>);
        let template = template(
            vec![Instruction::Call { call: Call(0), argc: 0, push_result_to_stack }],
            vec![],
        )
        .push_call("refuse", Call(0));
        let mut i = Interpreter::new();
        let p = i.build("", template, &funs).unwrap();
        let (_, error) = drain(&mut p.execute(Value::Null), 8);
        match error {
            Some(LittleError::CallError(inner)) => {
                assert_eq!("refused", inner);
                assert_eq!("refused", LittleError::CallError(inner).description());
            }
            other => panic!("unexpected {:?}", other),
        }
    }
}

#[test]
fn build_fails_on_function_not_found() {
    let count = Count;
    let mut funs = Names::new();
    funs.insert("count", &count as &dyn Function<Value>);
    let template = Template::<Value>::empty()
        .push_call("count", Call(0))
        .push_call("join", Call(1))
        .push_call("split", Call(2));
    let mut i = Interpreter::new();
    match i.build("page", template, &funs) {
        Err(BuildError::FunctionNotFound { required }) => assert_eq!("join", required),
        _ => panic!("expected the build to fail"),
    }
    let error = BuildError::FunctionNotFound { required: "join".to_string() };
    assert_eq!("function not found", error.description());
}

#[test]
fn build_ignores_extra_functions_and_keeps_the_id() {
    let count = Count;
    let join = Join;
    let mut funs = Names::new();
    funs.insert("count", &count as &dyn Function<Value>);
    funs.insert("join", &join as &dyn Function<Value>);
    let mut i = Interpreter::new();
    let p = i.build("page", Template::<Value>::empty().push_call("join", Call(5)), &funs).unwrap();
    assert_eq!("page", p.get_id());
    assert!(p.identify_env() == Fingerprint::empty());
    assert!(Fingerprint::new([0; 20]) == Fingerprint::empty());
    assert!(Fingerprint::new([1; 20]) != Fingerprint::empty());
}

#[test]
fn load_finds_no_executable() {
    let funs: Vec<&dyn Function<Value>> = Vec::new();
    let mut i = Interpreter::new();
    let r: Result<little::interpreter::Executable<Value>, BuildError> =
        i.load("page", Fingerprint::empty(), &funs);
    match r {
        Err(BuildError::ExecutableNotFound { id }) => {
            assert_eq!("page", id);
            assert_eq!(
                "executable not found",
                BuildError::ExecutableNotFound { id }.description()
            );
        }
        _ => panic!("expected no executable"),
    }
}

#[test]
fn streams_of_one_executable_are_independent_and_repeat() {
    let funs = Names::new();
    let mut i = Interpreter::new();
    let p = i
        .build(
            "",
            template(
                vec![
                    Instruction::Load { binding: Binding(0), location: Mem::Parameters },
                    output(constant(1)),
                    output(Mem::Binding(Binding(0))),
                ],
                vec![(1, s("to "))],
            ),
            &funs,
        )
        .unwrap();
    let mut one = p.execute(s("you"));
    let mut other = p.execute(s("me"));
    let mut again = p.execute(s("you"));
    let mut buf = [0u8; 2];
    assert_eq!(2, one.read(&mut buf).unwrap());
    assert_eq!(("to me".to_string(), None), no_error(drain(&mut other, 3)));
    assert_eq!(("to you".to_string(), None), no_error(drain(&mut again, 64)));
    assert_eq!((" you".to_string(), None), no_error(drain(&mut one, 1)));
}

fn no_error(read: (String, Option<LittleError>)) -> (String, Option<()>) {
    (read.0, read.1.map(|_| ()))
}

#[test]
fn execute_steps_one_instruction_at_a_time() {
    let funs = Names::new();
    let mut i = Interpreter::new();
    let p = i
        .build(
            "",
            template(
                vec![push(constant(1)), Instruction::Interupt, Instruction::Pop { times: 2 }],
                vec![(1, s("x"))],
            ),
            &funs,
        )
        .unwrap();
    let mut stream = p.execute(Value::Null);
    assert!(matches!(stream.execute(), Ok(ExecutionResult::Continue)));
    assert_eq!(&[s("x")], stream.peek_stack(1).unwrap());
    assert!(matches!(stream.execute(), Ok(ExecutionResult::Interupt)));
    assert!(matches!(stream.execute(), Err(LittleError::StackUnderflow)));
    assert!(stream.peek_stack(1).is_none());
}

#[test]
fn execute_at_the_end_is_done() {
    let funs = Names::new();
    let mut i = Interpreter::new();
    let p = i.build("", template(vec![output(Mem::Parameters)], vec![]), &funs).unwrap();
    let mut stream = p.execute(s("abc"));
    assert!(matches!(stream.execute(), Ok(ExecutionResult::Continue)));
    assert!(matches!(stream.execute(), Ok(ExecutionResult::Done)));
    assert!(matches!(stream.execute(), Ok(ExecutionResult::Done)));
    let mut buf = [0u8; 2];
    assert_eq!(2, stream.consume_buf(&mut buf));
    assert_eq!(*b"ab", buf);
    assert_eq!(1, stream.consume_buf(&mut buf));
    assert_eq!(*b"cb", buf);
    assert_eq!(0, stream.consume_buf(&mut buf));
}

#[test]
fn interupt_keeps_pending_output_for_the_next_read() {
    let funs = Names::new();
    let mut i = Interpreter::new();
    let p = i
        .build(
            "",
            template(
                vec![output(constant(1)), Instruction::Interupt, output(constant(2))],
                vec![(1, s("ab")), (2, s("cd"))],
            ),
            &funs,
        )
        .unwrap();
    let mut stream = p.execute(Value::Null);
    let mut buf = [0u8; 8];
    let error = stream.read(&mut buf).err().unwrap();
    assert!(matches!(error, LittleError::Interupt));
    assert_eq!("interupt", error.description());
    assert_eq!([0u8; 8], buf);
    assert_eq!(4, stream.read(&mut buf).unwrap());
    assert_eq!(b"abcd", &buf[..4]);
    assert_eq!(0, stream.read(&mut buf).unwrap());
}

#[test]
fn endless_program_runs_into_the_step_limit() {
    assert_eq!(u64::MAX, MAX_STEPS);
    let funs = Names::new();
    let mut i = Interpreter::new();
    let p = i
        .build(
            "",
            template(vec![push(Mem::Parameters), Instruction::Jump { pc: 0 }], vec![]),
            &funs,
        )
        .unwrap();
    let mut stream = p.execute(Value::Int(1));
    let mut buf = [0u8; 1];
    let error = stream.read_within(&mut buf, 5).err().unwrap();
    assert!(matches!(error, LittleError::StepLimit));
    assert_eq!("step limit reached", error.description());
    assert_eq!(3, stream.peek_stack(3).unwrap().len());
    assert!(stream.peek_stack(4).is_none());
    assert!(matches!(stream.read_within(&mut buf, 0), Err(LittleError::StepLimit)));
}

#[test]
fn read_within_counts_only_instructions_that_ran() {
    let funs = Names::new();
    let mut i = Interpreter::new();
    let p = i
        .build(
            "",
            template(vec![output(constant(1)), output(constant(1))], vec![(1, s("ab"))]),
            &funs,
        )
        .unwrap();
    let mut stream = p.execute(Value::Null);
    let mut buf = [0u8; 4];
    assert_eq!(4, stream.read_within(&mut buf, 2).unwrap());
    assert_eq!(b"abab", &buf);
    assert_eq!(0, stream.read_within(&mut buf, 1).unwrap());
}

#[test]
fn output_error_and_stack_underflow_describe_themselves() {
    let error = LittleError::OutputError(std::io::Error::new(std::io::ErrorKind::Other, "full"));
    assert_eq!("output error", error.description());
    assert_eq!("stack underflow", LittleError::StackUnderflow.description());
    assert_eq!("constant is missing", LittleError::ConstantMissing(Constant(1)).description());
}
