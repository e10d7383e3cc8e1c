use sleet::runtime::{BytecodeAssembler, JsonDatum, OpCode, Value};

fn json(text: &str) -> JsonDatum {
    JsonDatum { text: text.to_string(), identity: text.to_string(), truthy: text != "0" }
}

#[test]
fn test_basic_assembly() {
    let mut assembler = BytecodeAssembler::new();
    assembler.push_literal(&json("42"))
        .unwrap()
        .push_literal(&json("10"))
        .unwrap()
        .add();

    let bytecode = assembler.into_bytecode();
    assert!(!bytecode.is_empty());
    assert_eq!(bytecode[0], OpCode::Push as u8);
}

#[test]
fn test_jump_patching() {
    let mut assembler = BytecodeAssembler::new();
    let jump_pos = assembler.jump_if_false();
    assembler.push_literal(&json("1")).unwrap();
    assembler.patch_jump(jump_pos).unwrap();

    let bytecode = assembler.into_bytecode();
    assert_eq!(bytecode[0], OpCode::JumpIfFalse as u8);

    let offset = u32::from_le_bytes([bytecode[1], bytecode[2], bytecode[3], bytecode[4]]);
    assert!(offset > 0);
}

#[test]
fn test_variable_loading() {
    let mut assembler = BytecodeAssembler::new();
    assembler.load_var("state.counter")
        .load_var_path(&["state", "limit"]);

    let bytecode = assembler.into_bytecode();
    assert_eq!(bytecode[0], OpCode::LoadVar as u8);
}

#[test]
fn push_literal_frames_the_json_text() {
    let mut assembler = BytecodeAssembler::new();
    assembler.push_literal(&json("42")).unwrap().add();
    assert_eq!(assembler.bytecode(), &[0u8, 2, 0, 0, 0, b'4', b'2', 2][..]);
}

#[test]
fn patched_jump_measures_to_the_end_of_the_code() {
    let mut assembler = BytecodeAssembler::new();
    let pos = assembler.jump_if_false();
    assembler.push_literal(&json("1")).unwrap();
    assembler.patch_jump(pos).unwrap();
    let code = assembler.into_bytecode();
    assert_eq!(pos, 1);
    assert_eq!(&code[1..5], &[6u8, 0, 0, 0][..]);
}

#[test]
fn patching_too_close_to_the_end_is_refused() {
    let mut assembler = BytecodeAssembler::new();
    assembler.add();
    let err = assembler.patch_jump(0).err().unwrap();
    assert_eq!(err.message(), "Invalid jump position: 0");
    assert_eq!(assembler.len(), 1);
}

#[test]
fn load_var_path_joins_with_dots() {
    let mut a = BytecodeAssembler::new();
    a.load_var_path(&["state", "limit"]);
    let mut b = BytecodeAssembler::new();
    b.load_var("state.limit");
    assert_eq!(a.bytecode(), b.bytecode());
    assert_eq!(a.bytecode()[1], 11);
}

#[test]
fn call_function_pushes_the_argument_count() {
    let mut assembler = BytecodeAssembler::new();
    assembler.call_function(3).unwrap();
    assert_eq!(assembler.bytecode(), &[0u8, 1, 0, 0, 0, b'3', OpCode::Call as u8][..]);
}

#[test]
fn runtime_values_are_pushed_as_their_json_text() {
    let mut assembler = BytecodeAssembler::new();
    assert!(assembler.push_runtime_value(&Value::Boolean(true)).is_ok());
    assert_eq!(assembler.bytecode(), &[0u8, 4, 0, 0, 0, b't', b'r', b'u', b'e'][..]);

    let mut assembler = BytecodeAssembler::new();
    assert!(assembler.push_runtime_value(&Value::Integer(-12)).is_ok());
    assert_eq!(assembler.bytecode(), &[0u8, 3, 0, 0, 0, b'-', b'1', b'2'][..]);

    let mut assembler = BytecodeAssembler::new();
    assert!(assembler.push_runtime_value(&Value::String("a\"\n\u{1}".to_string())).is_ok());
    let mut expected = vec![0u8, 13, 0, 0, 0];
    expected.extend_from_slice(b"\"a\\\"\\n\\u0001\"");
    assert_eq!(assembler.bytecode(), &expected[..]);

    let mut assembler = BytecodeAssembler::new();
    assert!(assembler.call_function(3).is_ok());
    assert_eq!(assembler.bytecode(), &[0u8, 1, 0, 0, 0, b'3', OpCode::Call as u8][..]);
}
