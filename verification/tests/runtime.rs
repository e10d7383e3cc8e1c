use sleet::runtime::analysis::{analyse_min_required_inputs, describe_computational_segment};
use sleet::runtime::segments::{bytecode_contains_ffi, execution_path, extract_stack_values, jit_enabled, ExecutionPath};
use sleet::runtime::{ExecutionProfiler, Interpreter, InterpreterError, JsonDatum, OpCode, Profiler, Value};

fn push(n: i32) -> Vec<u8> {
    let mut v = vec![OpCode::Push as u8];
    v.extend_from_slice(&n.to_le_bytes());
    v
}

#[test]
fn interpreter_adds_two_numbers() {
    let mut code = push(2);
    code.extend(push(3));
    code.push(OpCode::Add as u8);
    code.push(OpCode::Halt as u8);
    let mut vm = Interpreter::new(100);
    vm.execute_bytecode(&code).unwrap();
    assert_eq!(vm.stack(), &[Value::Integer(5)][..]);
    assert_eq!(vm.gas(), 96);
}

#[test]
fn interpreter_reports_division_by_zero() {
    let mut code = push(7);
    code.extend(push(0));
    code.push(OpCode::Divide as u8);
    let mut vm = Interpreter::new(100);
    let err = vm.execute_bytecode(&code).err().unwrap();
    assert_eq!(err.message(), "Division by zero");
}

#[test]
fn interpreter_runs_out_of_gas() {
    let mut code = push(1);
    code.extend(push(2));
    let mut vm = Interpreter::new(1);
    assert!(matches!(vm.execute_bytecode(&code), Err(InterpreterError::OutOfGas)));
}

#[test]
fn invalid_opcodes_are_reported() {
    let mut vm = Interpreter::new(10);
    let err = vm.execute_bytecode(&[200]).err().unwrap();
    assert_eq!(err.message(), "Invalid bytecode: Invalid opcode: 200");
}

#[test]
fn opcode_round_trip() {
    for b in 0u8..=28 {
        let op = OpCode::try_from(b).unwrap();
        assert_eq!(op as u8, b);
    }
    assert!(OpCode::try_from(29u8).is_err());
}

#[test]
fn required_inputs_of_a_segment() {
    let code = vec![OpCode::Add as u8, OpCode::Add as u8];
    assert_eq!(analyse_min_required_inputs(&code).unwrap(), 3);
    let mut code = push(1);
    code.push(OpCode::Add as u8);
    assert_eq!(analyse_min_required_inputs(&code).unwrap(), 1);
    assert_eq!(analyse_min_required_inputs(&[OpCode::Swap as u8, OpCode::CallFfi as u8, OpCode::Add as u8]).unwrap(), 2);
    assert!(analyse_min_required_inputs(&[99]).is_err());
}

#[test]
fn describing_a_segment() {
    let mut code = push(5);
    code.push(OpCode::Multiply as u8);
    code.extend(push(-2));
    code.push(OpCode::Dup as u8);
    code.push(200);
    code.push(OpCode::Halt as u8);
    assert_eq!(
        describe_computational_segment(&code),
        vec!["Compute: *5", "Compute: push -2", "Compute op: Dup", "Compute op: Halt"]
    );
}

#[test]
fn ffi_detection_and_stack_values() {
    assert!(bytecode_contains_ffi(&[OpCode::Dup as u8, OpCode::CallFfi as u8]));
    assert!(!bytecode_contains_ffi(&push(27)));
    let values = vec![Value::Integer(4), Value::Boolean(true), Value::Null];
    assert_eq!(extract_stack_values(&values), vec![4, 1, 0]);
}

#[test]
fn profilers_count_executions() {
    let mut p = Profiler::new();
    p.record(7);
    p.record(7);
    assert!(!p.is_hot(7));
    p.record(7);
    assert!(p.is_hot(7));
    assert_eq!(p.get_execution_count(7), 3);
    assert_eq!(p.get_execution_count(8), 0);
    let mut e = ExecutionProfiler::new();
    e.record_execution("abc");
    e.record_execution("abc");
    e.record_execution("def");
    assert_eq!(e.get_execution_count("abc"), 2);
    assert_eq!(e.get_all_counts(), vec![("abc".to_string(), 2), ("def".to_string(), 1)]);
    e.clear();
    assert_eq!(e.get_execution_count("abc"), 0);
}

#[test]
fn the_machine_picks_its_path_by_foreign_calls_and_heat() {
    assert!(!jit_enabled(true, false));
    assert!(jit_enabled(true, true));
    assert_eq!(execution_path(true, true, true, 0, 5), ExecutionPath::HybridJitFfi);
    assert_eq!(execution_path(true, false, true, 9, 5), ExecutionPath::InterpreterWithFfi);
    assert_eq!(execution_path(false, true, true, 5, 5), ExecutionPath::Jit);
    assert_eq!(execution_path(false, true, true, 4, 5), ExecutionPath::Interpreter);
    assert_eq!(execution_path(false, true, false, 9, 5), ExecutionPath::Interpreter);
}

#[test]
fn values_read_their_json_documents() {
    let json = |t: &str| Value::Json(JsonDatum { text: t.to_string(), identity: t.to_string(), truthy: true });
    assert_eq!(json("\"hi\\n\"").as_str(), Some("hi\n".to_string()));
    assert_eq!(json("12").as_str(), None);
    assert_eq!(Value::String("x".to_string()).as_str(), Some("x".to_string()));
    assert_eq!(json("-12").as_i64(), Some(-12));
    assert_eq!(json("1.5").as_i64(), None);
    assert_eq!(Value::Integer(-3).as_i64(), Some(-3));
    assert_eq!(json("18446744073709551615").as_u64(), Some(u64::MAX));
    assert_eq!(Value::Integer(-3).as_u64(), None);
    assert_eq!(Value::Integer(3).as_u64(), Some(3));
    assert_eq!(json("true").as_bool(), Some(true));
    assert_eq!(json("\"true\"").as_bool(), None);
    assert_eq!(Value::Boolean(false).as_bool(), Some(false));
    assert_eq!(Value::Null.as_bool(), None);
}
