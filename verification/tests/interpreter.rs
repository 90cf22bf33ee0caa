use minijvm::opcode::{
    arraylength_helper, bipush_helper, dup_helper, goto_helper, iadd_helper, iaload_helper,
    iand_helper, iastore_helper, iconst_helper, idiv_helper, if_icmplt_helper, ifeq_helper,
    iinc_helper, iload_n_helper, imul_helper, ineg_helper, invokevirtual_helper, ior_helper,
    irem_helper, ireturn_helper, ishl_helper, ishr_helper, istore_helper, isub_helper,
    iushr_helper, ixor_helper, jvm_instruction_t, ldc_helper, newarray_helper, return_helper,
    sipush_helper,
};
use minijvm::read_class::{class_file_t, code_t, cp_info, cp_info_t, cp_info_tag, method_t};
use minijvm::stack::{stack_init, stack_push, stack_t};
use minijvm::VmError;

fn method_with_code(code: Vec<u8>) -> method_t {
    method_t {
        name: String::from("f"),
        descriptor: cp_info_t::CONSTANT_Utf8_info { descriptor: String::from("()V") },
        code: code_t {
            max_stack: 8,
            max_locals: 4,
            code_length: code.len() as u32,
            code,
        },
    }
}

fn stack_of(values: &[i32]) -> stack_t {
    let mut st = stack_init(8);
    for v in values {
        assert!(stack_push(&mut st, *v));
    }
    st
}

#[test]
fn iconst_pushes_its_constant() {
    let mut st = stack_of(&[]);
    let mut pc: usize = 0;
    iconst_helper(jvm_instruction_t::i_iconst_m1, &mut st, &mut pc).unwrap();
    iconst_helper(jvm_instruction_t::i_iconst_5, &mut st, &mut pc).unwrap();
    assert_eq!(st.contents, vec![-1, 5]);
    assert_eq!(pc, 2);
}

#[test]
fn bipush_sign_extends_its_byte() {
    let mut st = stack_of(&[]);
    let mut pc: usize = 0;
    let m = method_with_code(vec![0x10, 0xfb]);
    bipush_helper(&mut st, &mut pc, &m).unwrap();
    assert_eq!(st.contents, vec![-5]);
    assert_eq!(pc, 2);
}

#[test]
fn sipush_sign_extends_its_two_bytes() {
    let mut st = stack_of(&[]);
    let mut pc: usize = 0;
    let m = method_with_code(vec![0x11, 0xfe, 0x0c]);
    sipush_helper(&mut st, &mut pc, &m).unwrap();
    assert_eq!(st.contents, vec![-500]);
    assert_eq!(pc, 3);
}

#[test]
fn ldc_pushes_the_pool_integer() {
    let mut st = stack_of(&[]);
    let mut pc: usize = 0;
    let m = method_with_code(vec![0x12, 0x01]);
    let class = class_file_t {
        constant_pool: vec![
            cp_info {
                tag: cp_info_tag::CONSTANT_Integer,
                info: Some(Box::new(cp_info_t::CONSTANT_Integer_info { bytes: 100000 })),
            },
            cp_info { tag: cp_info_tag::CONSTANT_Integer, info: None },
        ],
        methods: vec![],
    };
    ldc_helper(&mut st, &mut pc, &m, &class).unwrap();
    assert_eq!(st.contents, vec![100000]);
    assert_eq!(pc, 2);
}

#[test]
fn iadd_wraps_on_overflow() {
    let mut st = stack_of(&[2147483647, 1]);
    let mut pc: usize = 0;
    iadd_helper(&mut st, &mut pc).unwrap();
    assert_eq!(st.contents, vec![-2147483648]);
}

#[test]
fn isub_wraps_on_overflow() {
    let mut st = stack_of(&[-2147483648, 1]);
    let mut pc: usize = 0;
    isub_helper(&mut st, &mut pc).unwrap();
    assert_eq!(st.contents, vec![2147483647]);
}

#[test]
fn imul_wraps_on_overflow() {
    let mut st = stack_of(&[65536, 65536]);
    let mut pc: usize = 0;
    imul_helper(&mut st, &mut pc).unwrap();
    assert_eq!(st.contents, vec![0]);
}

#[test]
fn ineg_wraps_on_the_minimum() {
    let mut st = stack_of(&[-2147483648]);
    let mut pc: usize = 0;
    ineg_helper(&mut st, &mut pc).unwrap();
    assert_eq!(st.contents, vec![-2147483648]);
    st = stack_of(&[7]);
    ineg_helper(&mut st, &mut pc).unwrap();
    assert_eq!(st.contents, vec![-7]);
}

#[test]
fn idiv_truncates_toward_zero() {
    let mut st = stack_of(&[7, 2]);
    let mut pc: usize = 0;
    idiv_helper(&mut st, &mut pc).unwrap();
    assert_eq!(st.contents, vec![3]);
    st = stack_of(&[-7, 2]);
    idiv_helper(&mut st, &mut pc).unwrap();
    assert_eq!(st.contents, vec![-3]);
    st = stack_of(&[-2147483648, -1]);
    idiv_helper(&mut st, &mut pc).unwrap();
    assert_eq!(st.contents, vec![-2147483648]);
}

#[test]
fn idiv_by_zero_is_fatal() {
    let mut st = stack_of(&[5, 0]);
    let mut pc: usize = 0;
    assert!(matches!(idiv_helper(&mut st, &mut pc), Err(VmError::DivisionByZero)));
    assert_eq!(st.contents, vec![5, 0]);
}

#[test]
fn irem_carries_the_dividend_sign() {
    let mut st = stack_of(&[-7, 2]);
    let mut pc: usize = 0;
    irem_helper(&mut st, &mut pc).unwrap();
    assert_eq!(st.contents, vec![-1]);
    st = stack_of(&[7, -2]);
    irem_helper(&mut st, &mut pc).unwrap();
    assert_eq!(st.contents, vec![1]);
}

#[test]
fn irem_by_zero_is_fatal() {
    let mut st = stack_of(&[5, 0]);
    let mut pc: usize = 0;
    assert!(matches!(irem_helper(&mut st, &mut pc), Err(VmError::DivisionByZero)));
}

#[test]
fn shifts_follow_two_complement_rules() {
    let mut pc: usize = 0;
    let mut st = stack_of(&[1, 31]);
    ishl_helper(&mut st, &mut pc).unwrap();
    assert_eq!(st.contents, vec![-2147483648]);
    st = stack_of(&[-8, 1]);
    ishr_helper(&mut st, &mut pc).unwrap();
    assert_eq!(st.contents, vec![-4]);
    st = stack_of(&[-1, 28]);
    iushr_helper(&mut st, &mut pc).unwrap();
    assert_eq!(st.contents, vec![15]);
}

#[test]
fn unmasked_shift_amount_is_fatal() {
    let mut pc: usize = 0;
    let mut st = stack_of(&[1, 32]);
    assert!(matches!(ishl_helper(&mut st, &mut pc), Err(VmError::ShiftOutOfRange)));
    st = stack_of(&[1, -1]);
    assert!(matches!(ishr_helper(&mut st, &mut pc), Err(VmError::ShiftOutOfRange)));
    st = stack_of(&[1, 32]);
    assert!(matches!(iushr_helper(&mut st, &mut pc), Err(VmError::ShiftOutOfRange)));
}

#[test]
fn bitwise_operators_compute_exactly() {
    let mut pc: usize = 0;
    let mut st = stack_of(&[0b1100, 0b1010]);
    iand_helper(&mut st, &mut pc).unwrap();
    assert_eq!(st.contents, vec![0b1000]);
    st = stack_of(&[0b1100, 0b1010]);
    ior_helper(&mut st, &mut pc).unwrap();
    assert_eq!(st.contents, vec![0b1110]);
    st = stack_of(&[0b1100, 0b1010]);
    ixor_helper(&mut st, &mut pc).unwrap();
    assert_eq!(st.contents, vec![0b0110]);
}

#[test]
fn dup_duplicates_the_top() {
    let mut st = stack_of(&[4]);
    let mut pc: usize = 0;
    dup_helper(&mut st, &mut pc).unwrap();
    assert_eq!(st.contents, vec![4, 4]);
}

#[test]
fn locals_store_and_load_round_trip() {
    let m = method_with_code(vec![0x36, 0x02]);
    let mut st = stack_of(&[41]);
    let mut pc: usize = 0;
    let mut locals = vec![0; 4];
    istore_helper(&mut st, &mut pc, &m, &mut locals).unwrap();
    assert_eq!(locals, vec![0, 0, 41, 0]);
    assert!(st.contents.is_empty());
    iload_n_helper(jvm_instruction_t::i_iload_2, &mut st, &mut pc, &locals).unwrap();
    assert_eq!(st.contents, vec![41]);
}

#[test]
fn iinc_adds_a_signed_immediate_with_wrap() {
    let m = method_with_code(vec![0x84, 0x00, 0xfe]);
    let mut pc: usize = 0;
    let mut locals = vec![10, 0, 0, 0];
    iinc_helper(&mut pc, &m, &mut locals).unwrap();
    assert_eq!(locals[0], 8);
    assert_eq!(pc, 3);
    let m2 = method_with_code(vec![0x84, 0x00, 0x01]);
    pc = 0;
    let mut locals2 = vec![2147483647];
    iinc_helper(&mut pc, &m2, &mut locals2).unwrap();
    assert_eq!(locals2[0], -2147483648);
}

#[test]
fn newarray_then_arraylength_returns_the_count() {
    let m = method_with_code(vec![0xbc, 10]);
    let mut st = stack_of(&[3]);
    let mut pc: usize = 0;
    let mut heap: Vec<Vec<i32>> = Vec::new();
    newarray_helper(&mut st, &mut pc, &m, &mut heap).unwrap();
    assert_eq!(heap, vec![vec![0, 0, 0]]);
    assert_eq!(st.contents, vec![0]);
    arraylength_helper(&mut st, &mut pc, &mut heap).unwrap();
    assert_eq!(st.contents, vec![3]);
}

#[test]
fn newarray_rejects_a_wrong_type_tag() {
    let m = method_with_code(vec![0xbc, 9]);
    let mut st = stack_of(&[3]);
    let mut pc: usize = 0;
    let mut heap: Vec<Vec<i32>> = Vec::new();
    assert!(matches!(
        newarray_helper(&mut st, &mut pc, &m, &mut heap),
        Err(VmError::BadArrayType)
    ));
}

#[test]
fn newarray_rejects_a_negative_count() {
    let m = method_with_code(vec![0xbc, 10]);
    let mut st = stack_of(&[-1]);
    let mut pc: usize = 0;
    let mut heap: Vec<Vec<i32>> = Vec::new();
    assert!(matches!(
        newarray_helper(&mut st, &mut pc, &m, &mut heap),
        Err(VmError::NegativeArraySize)
    ));
}

#[test]
fn iastore_then_iaload_returns_the_stored_value() {
    let mut heap: Vec<Vec<i32>> = vec![vec![0, 0, 0]];
    let mut pc: usize = 0;
    let mut st = stack_of(&[0, 1, 42]);
    iastore_helper(&mut st, &mut pc, &mut heap).unwrap();
    assert_eq!(heap, vec![vec![0, 42, 0]]);
    assert!(st.contents.is_empty());
    st = stack_of(&[0, 1]);
    iaload_helper(&mut st, &mut pc, &mut heap).unwrap();
    assert_eq!(st.contents, vec![42]);
}

#[test]
fn out_of_range_array_access_is_fatal_never_clamped() {
    let mut heap: Vec<Vec<i32>> = vec![vec![5, 6, 7]];
    let mut pc: usize = 0;
    let mut st = stack_of(&[0, 3]);
    assert!(matches!(
        iaload_helper(&mut st, &mut pc, &mut heap),
        Err(VmError::ArrayIndexOutOfBounds)
    ));
    st = stack_of(&[0, -1]);
    assert!(matches!(
        iaload_helper(&mut st, &mut pc, &mut heap),
        Err(VmError::ArrayIndexOutOfBounds)
    ));
    st = stack_of(&[0, 3, 9]);
    assert!(matches!(
        iastore_helper(&mut st, &mut pc, &mut heap),
        Err(VmError::ArrayIndexOutOfBounds)
    ));
    st = stack_of(&[1, 0]);
    assert!(matches!(
        iaload_helper(&mut st, &mut pc, &mut heap),
        Err(VmError::InvalidReference)
    ));
    assert_eq!(heap, vec![vec![5, 6, 7]]);
}

#[test]
fn taken_branch_lands_at_opcode_position_plus_offset() {
    // A conditional branch at position 2 encoding the offset 6.
    let m = method_with_code(vec![0x00, 0x00, 0x99, 0x00, 0x06, 0x00, 0x00, 0x00, 0xb1]);
    let mut st = stack_of(&[0]);
    let mut pc: usize = 2;
    ifeq_helper(&mut st, &mut pc, &m).unwrap();
    assert_eq!(pc, 8);
}

#[test]
fn untaken_branch_falls_through_three_bytes() {
    let m = method_with_code(vec![0x00, 0x00, 0x99, 0x00, 0x06, 0x00, 0x00, 0x00, 0xb1]);
    let mut st = stack_of(&[7]);
    let mut pc: usize = 2;
    ifeq_helper(&mut st, &mut pc, &m).unwrap();
    assert_eq!(pc, 5);
}

#[test]
fn backward_branch_subtracts_the_offset() {
    // An unconditional branch at position 5 encoding the offset -5.
    let m = method_with_code(vec![0x00, 0x00, 0x00, 0x00, 0x00, 0xa7, 0xff, 0xfb, 0xb1]);
    let mut pc: usize = 5;
    goto_helper(&mut pc, &m).unwrap();
    assert_eq!(pc, 0);
}

#[test]
fn branch_before_the_code_start_is_fatal() {
    // An unconditional branch at position 0 encoding the offset -4.
    let m = method_with_code(vec![0xa7, 0xff, 0xfc, 0xb1]);
    let mut pc: usize = 0;
    assert!(matches!(goto_helper(&mut pc, &m), Err(VmError::BranchOutOfRange)));
}

#[test]
fn comparison_branch_pops_right_then_left() {
    // if_icmplt at position 0 with offset 7: 3 < 5, so the branch is taken.
    let m = method_with_code(vec![0xa1, 0x00, 0x07, 0x00, 0x00, 0x00, 0x00, 0xb1]);
    let mut st = stack_of(&[3, 5]);
    let mut pc: usize = 0;
    if_icmplt_helper(&mut st, &mut pc, &m).unwrap();
    assert_eq!(pc, 7);
    // 5 < 3 is false, so this one falls through.
    st = stack_of(&[5, 3]);
    pc = 0;
    if_icmplt_helper(&mut st, &mut pc, &m).unwrap();
    assert_eq!(pc, 3);
}

#[test]
fn ireturn_records_the_value_and_stops() {
    let m = method_with_code(vec![0xac]);
    let mut st = stack_of(&[123]);
    let mut pc: usize = 0;
    let mut result: Option<i32> = None;
    ireturn_helper(&mut st, &mut pc, &m, &mut result).unwrap();
    assert_eq!(result, Some(123));
    assert_eq!(pc, 1);
}

#[test]
fn return_stops_without_a_value() {
    let m = method_with_code(vec![0x00, 0x00, 0xb1]);
    let mut pc: usize = 2;
    return_helper(&mut pc, &m);
    assert_eq!(pc, 3);
}

#[test]
fn invokevirtual_prints_the_top_of_stack() {
    let mut st = stack_of(&[55]);
    let mut pc: usize = 0;
    let mut output: Vec<i32> = Vec::new();
    invokevirtual_helper(&mut st, &mut pc, &mut output).unwrap();
    assert_eq!(output, vec![55]);
    assert!(st.contents.is_empty());
    assert_eq!(pc, 3);
}

#[test]
fn underflow_is_detected() {
    let mut st = stack_of(&[1]);
    let mut pc: usize = 0;
    assert!(matches!(iadd_helper(&mut st, &mut pc), Err(VmError::StackUnderflow)));
}

#[test]
fn overflow_is_detected() {
    let mut st = stack_init(1);
    assert!(stack_push(&mut st, 9));
    let mut pc: usize = 0;
    assert!(matches!(dup_helper(&mut st, &mut pc), Err(VmError::StackOverflow)));
}
