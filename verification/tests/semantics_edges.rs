use minijvm::jvm::{execute, invokestatic_helper};
use minijvm::opcode::{
    aload_n_helper, areturn_helper, astore_n_helper, constant_pool_helper, getstatic_helper,
    if_icmpeq_helper, if_icmpne_helper, ifgt_helper, ifle_helper, iflt_helper, ifne_helper,
    iload_helper, jump_offset_helper, jvm_instruction_t, ldc_helper, not_implemented_helper,
};
use minijvm::read_class::{class_file_t, code_t, cp_info, cp_info_t, cp_info_tag, method_t};
use minijvm::stack::{stack_init, stack_push, stack_t};
use minijvm::VmError;

fn method_with_code(code: Vec<u8>) -> method_t {
    method_t {
        name: String::from("f"),
        descriptor: cp_info_t::CONSTANT_Utf8_info { descriptor: String::from("()V") },
        code: code_t { max_stack: 8, max_locals: 4, code_length: code.len() as u32, code },
    }
}

fn stack_of(values: &[i32]) -> stack_t {
    let mut st = stack_init(8);
    for v in values {
        assert!(stack_push(&mut st, *v));
    }
    st
}

fn empty_class() -> class_file_t {
    class_file_t {
        constant_pool: vec![cp_info { tag: cp_info_tag::CONSTANT_Integer, info: None }],
        methods: vec![],
    }
}

#[test]
fn opcode_bytes_decode_to_their_instructions() {
    assert_eq!(jvm_instruction_t::try_from(0x60), Some(jvm_instruction_t::i_iadd));
    assert_eq!(jvm_instruction_t::try_from(0xb8), Some(jvm_instruction_t::i_invokestatic));
    assert_eq!(jvm_instruction_t::try_from(0x01), None);
    assert_eq!(jvm_instruction_t::try_from(0xff), None);
}

#[test]
fn tag_bytes_decode_to_their_kinds() {
    assert_eq!(cp_info_tag::try_from(1), Some(cp_info_tag::CONSTANT_Utf8));
    assert_eq!(cp_info_tag::try_from(10), Some(cp_info_tag::CONSTANT_Methodref));
    assert_eq!(cp_info_tag::try_from(2), None);
}

#[test]
fn ldc_with_a_zero_index_is_fatal() {
    let m = method_with_code(vec![0x12, 0x00]);
    let mut st = stack_of(&[]);
    let mut pc: usize = 0;
    let class = empty_class();
    assert!(matches!(
        ldc_helper(&mut st, &mut pc, &m, &class),
        Err(VmError::InvalidConstantIndex)
    ));
}

#[test]
fn ldc_of_the_sentinel_slot_pushes_nothing() {
    let m = method_with_code(vec![0x12, 0x01]);
    let mut st = stack_of(&[]);
    let mut pc: usize = 0;
    let class = empty_class();
    ldc_helper(&mut st, &mut pc, &m, &class).unwrap();
    assert!(st.contents.is_empty());
    assert_eq!(pc, 2);
}

#[test]
fn non_integer_constants_push_nothing() {
    let mut st = stack_of(&[]);
    let slot = cp_info {
        tag: cp_info_tag::CONSTANT_Class,
        info: Some(Box::new(cp_info_t::CONSTANT_Class_info { string_index: 1 })),
    };
    constant_pool_helper(&mut st, &slot).unwrap();
    assert!(st.contents.is_empty());
}

#[test]
fn a_payload_free_constant_is_fatal_to_push() {
    let mut st = stack_of(&[]);
    let slot = cp_info { tag: cp_info_tag::CONSTANT_Integer, info: None };
    assert!(matches!(
        constant_pool_helper(&mut st, &slot),
        Err(VmError::ConstantTypeMismatch)
    ));
}

#[test]
fn a_load_outside_the_frame_is_fatal() {
    let m = method_with_code(vec![0x15, 0x09]);
    let mut st = stack_of(&[]);
    let mut pc: usize = 0;
    let locals = vec![1, 2];
    assert!(matches!(
        iload_helper(&mut st, &mut pc, &m, &locals),
        Err(VmError::InvalidLocalIndex)
    ));
}

#[test]
fn a_truncated_operand_is_fatal() {
    // bipush as the last byte of the code array has no operand byte.
    let m = method_with_code(vec![0x10]);
    let mut st = stack_of(&[]);
    let mut pc: usize = 0;
    assert!(matches!(
        minijvm::opcode::bipush_helper(&mut st, &mut pc, &m),
        Err(VmError::CodeOutOfBounds)
    ));
}

#[test]
fn reference_loads_and_stores_use_their_slots() {
    let mut st = stack_of(&[7]);
    let mut pc: usize = 0;
    let mut locals = vec![0, 0, 0, 0];
    astore_n_helper(jvm_instruction_t::i_astore_3, &mut st, &mut pc, &mut locals).unwrap();
    assert_eq!(locals, vec![0, 0, 0, 7]);
    aload_n_helper(jvm_instruction_t::i_aload_3, &mut st, &mut pc, &locals).unwrap();
    assert_eq!(st.contents, vec![7]);
}

#[test]
fn each_one_operand_condition_branches_on_its_sign() {
    // Branch at position 0 encoding offset 6.
    let m = method_with_code(vec![0x9a, 0x00, 0x06, 0x00, 0x00, 0x00, 0x00, 0xb1]);
    let cases: [(fn(&mut stack_t, &mut usize, &method_t) -> Result<(), VmError>, i32, bool); 8] = [
        (ifne_helper, 1, true),
        (ifne_helper, 0, false),
        (iflt_helper, -1, true),
        (iflt_helper, 0, false),
        (ifgt_helper, 1, true),
        (ifgt_helper, 0, false),
        (ifle_helper, 0, true),
        (ifle_helper, 1, false),
    ];
    for (helper, v, taken) in cases {
        let mut st = stack_of(&[v]);
        let mut pc: usize = 0;
        helper(&mut st, &mut pc, &m).unwrap();
        assert_eq!(pc, if taken { 6 } else { 3 });
        assert!(st.contents.is_empty());
    }
}

#[test]
fn comparison_branches_on_equality() {
    let m = method_with_code(vec![0x9f, 0x00, 0x06, 0x00, 0x00, 0x00, 0x00, 0xb1]);
    let mut st = stack_of(&[4, 4]);
    let mut pc: usize = 0;
    if_icmpeq_helper(&mut st, &mut pc, &m).unwrap();
    assert_eq!(pc, 6);
    st = stack_of(&[4, 5]);
    pc = 0;
    if_icmpne_helper(&mut st, &mut pc, &m).unwrap();
    assert_eq!(pc, 6);
}

#[test]
fn jump_offset_accounts_for_the_instruction_bytes() {
    // The two offset bytes encode 10; the helper hands back 10 - 3.
    let m = method_with_code(vec![0x00, 0x0a, 0x00, 0x00, 0x00, 0x00, 0x00, 0x00, 0x00, 0x00]);
    let mut pc: usize = 0;
    assert_eq!(jump_offset_helper(&mut pc, &m).unwrap(), 7);
    assert_eq!(pc, 2);
}

#[test]
fn areturn_records_a_reference() {
    let m = method_with_code(vec![0xb0]);
    let mut st = stack_of(&[2]);
    let mut pc: usize = 0;
    let mut result: Option<i32> = None;
    areturn_helper(&mut st, &mut pc, &m, &mut result).unwrap();
    assert_eq!(result, Some(2));
    assert_eq!(pc, 1);
}

#[test]
fn getstatic_advances_three_bytes() {
    let mut pc: usize = 4;
    getstatic_helper(&mut pc);
    assert_eq!(pc, 7);
}

#[test]
fn unsupported_instructions_report_themselves() {
    let mut pc: usize = 0;
    assert!(matches!(
        not_implemented_helper(&mut pc, &jvm_instruction_t::i_nop),
        Err(VmError::InvalidOpcode)
    ));
    assert_eq!(pc, 2);
}

#[test]
fn a_call_to_a_missing_method_is_fatal() {
    // A method reference whose name resolves to nothing in the table.
    let constant_pool = vec![
        cp_info {
            tag: cp_info_tag::CONSTANT_Utf8,
            info: Some(Box::new(cp_info_t::CONSTANT_Utf8_info {
                descriptor: String::from("absent"),
            })),
        },
        cp_info {
            tag: cp_info_tag::CONSTANT_Utf8,
            info: Some(Box::new(cp_info_t::CONSTANT_Utf8_info {
                descriptor: String::from("()V"),
            })),
        },
        cp_info {
            tag: cp_info_tag::CONSTANT_NameAndType,
            info: Some(Box::new(cp_info_t::CONSTANT_NameAndType_info {
                name_index: 1,
                descriptor_index: 2,
            })),
        },
        cp_info {
            tag: cp_info_tag::CONSTANT_Methodref,
            info: Some(Box::new(cp_info_t::CONSTANT_FieldOrMethodref_info {
                class_index: 0,
                name_and_type_index: 3,
            })),
        },
        cp_info { tag: cp_info_tag::CONSTANT_Integer, info: None },
    ];
    let caller = method_with_code(vec![0xb8, 0x00, 0x04, 0xb1]);
    let class = class_file_t {
        constant_pool,
        methods: vec![method_t {
            name: String::new(),
            descriptor: cp_info_t::CONSTANT_Utf8_info { descriptor: String::new() },
            code: code_t { max_stack: 0, max_locals: 0, code_length: 0, code: Vec::new() },
        }],
    };
    let mut st = stack_of(&[]);
    let mut pc: usize = 0;
    let mut heap: Vec<Vec<i32>> = Vec::new();
    let mut output: Vec<i32> = Vec::new();
    assert!(matches!(
        invokestatic_helper(&mut st, &mut pc, &caller, &class, &mut heap, &mut output, 100),
        Err(VmError::MethodNotFound)
    ));
}

#[test]
fn a_method_without_a_return_falls_through_to_void() {
    // iconst_1; istore_0: the counter walks off the end, returning void.
    let m = method_with_code(vec![0x04, 0x3b]);
    let class = empty_class();
    let mut locals = vec![0, 0, 0, 0];
    let mut heap: Vec<Vec<i32>> = Vec::new();
    let mut output: Vec<i32> = Vec::new();
    let r = execute(&m, &mut locals, &class, &mut heap, &mut output, 1000);
    assert_eq!(r.unwrap(), None);
    assert_eq!(locals[0], 1);
}
