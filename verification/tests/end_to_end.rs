use minijvm::jvm::{execute, run_main};
use minijvm::read_class::{class_file_t, code_t, cp_info, cp_info_t, cp_info_tag, get_class, method_t, ClassFile};
use minijvm::VmError;

const FUEL: u64 = 1_000_000;

fn push_u16(out: &mut Vec<u8>, v: u16) {
    out.push((v >> 8) as u8);
    out.push(v as u8);
}

fn push_u32(out: &mut Vec<u8>, v: u32) {
    out.push((v >> 24) as u8);
    out.push((v >> 16) as u8);
    out.push((v >> 8) as u8);
    out.push(v as u8);
}

fn push_utf8(out: &mut Vec<u8>, s: &str) {
    out.push(1);
    push_u16(out, s.len() as u16);
    out.extend_from_slice(s.as_bytes());
}

/// A class file with one static `main([Ljava/lang/String;)V` whose code is
/// given.
fn main_only_class_bytes(code: &[u8]) -> Vec<u8> {
    let mut bytes: Vec<u8> = Vec::new();
    push_u32(&mut bytes, 0xcafebabe);
    push_u16(&mut bytes, 0); // minor version
    push_u16(&mut bytes, 55); // major version
    push_u16(&mut bytes, 4); // pool count: three records
    push_utf8(&mut bytes, "main"); // 1
    push_utf8(&mut bytes, "([Ljava/lang/String;)V"); // 2
    push_utf8(&mut bytes, "Code"); // 3
    push_u16(&mut bytes, 0x21); // access flags
    push_u16(&mut bytes, 1); // this class
    push_u16(&mut bytes, 0); // super class
    push_u16(&mut bytes, 0); // interfaces
    push_u16(&mut bytes, 0); // fields
    push_u16(&mut bytes, 1); // one method
    push_u16(&mut bytes, 0x9); // public static
    push_u16(&mut bytes, 1); // name: main
    push_u16(&mut bytes, 2); // descriptor
    push_u16(&mut bytes, 1); // one attribute
    push_u16(&mut bytes, 3); // attribute name: Code
    push_u32(&mut bytes, 8 + code.len() as u32);
    push_u16(&mut bytes, 8); // max stack
    push_u16(&mut bytes, 4); // max locals
    push_u32(&mut bytes, code.len() as u32);
    bytes.extend_from_slice(code);
    bytes
}

#[test]
fn main_printing_a_sum_prints_five() {
    // iconst_2; iconst_3; iadd; invokevirtual <println>; return
    let bytes = main_only_class_bytes(&[0x05, 0x06, 0x60, 0xb6, 0x00, 0x00, 0xb1]);
    let mut r = ClassFile::new(bytes);
    let class = get_class(&mut r).unwrap();
    let output = run_main(&class, FUEL).unwrap();
    assert_eq!(output, vec![5]);
}

#[test]
fn main_returning_a_value_is_fatal() {
    // iconst_0; ireturn
    let bytes = main_only_class_bytes(&[0x03, 0xac]);
    let mut r = ClassFile::new(bytes);
    let class = get_class(&mut r).unwrap();
    assert!(matches!(run_main(&class, FUEL), Err(VmError::MainReturnedValue)));
}

#[test]
fn a_class_without_main_is_fatal() {
    let mut bytes: Vec<u8> = Vec::new();
    push_u32(&mut bytes, 0xcafebabe);
    push_u16(&mut bytes, 0);
    push_u16(&mut bytes, 55);
    push_u16(&mut bytes, 1); // empty pool
    push_u16(&mut bytes, 0x21);
    push_u16(&mut bytes, 0);
    push_u16(&mut bytes, 0);
    push_u16(&mut bytes, 0);
    push_u16(&mut bytes, 0);
    push_u16(&mut bytes, 0); // no methods
    let mut r = ClassFile::new(bytes);
    let class = get_class(&mut r).unwrap();
    assert!(matches!(run_main(&class, FUEL), Err(VmError::MissingMain)));
}

fn utf8_slot(s: &str) -> cp_info {
    cp_info {
        tag: cp_info_tag::CONSTANT_Utf8,
        info: Some(Box::new(cp_info_t::CONSTANT_Utf8_info { descriptor: String::from(s) })),
    }
}

/// A class whose `main` pushes two constants, calls the static method
/// `add(II)I` through the constant pool, prints the result, and returns.
fn class_with_static_add() -> class_file_t {
    let constant_pool = vec![
        utf8_slot("add"), // 1
        utf8_slot("(II)I"), // 2
        cp_info {
            tag: cp_info_tag::CONSTANT_NameAndType,
            info: Some(Box::new(cp_info_t::CONSTANT_NameAndType_info {
                name_index: 1,
                descriptor_index: 2,
            })),
        }, // 3
        cp_info {
            tag: cp_info_tag::CONSTANT_Methodref,
            info: Some(Box::new(cp_info_t::CONSTANT_FieldOrMethodref_info {
                class_index: 0,
                name_and_type_index: 3,
            })),
        }, // 4
        cp_info { tag: cp_info_tag::CONSTANT_Integer, info: None }, // the sentinel
    ];
    let add = method_t_of(
        "add",
        "(II)I",
        2,
        2,
        // iload_0; iload_1; iadd; ireturn
        vec![0x1a, 0x1b, 0x60, 0xac],
    );
    let main = method_t_of(
        "main",
        "([Ljava/lang/String;)V",
        4,
        1,
        // iconst_2; iconst_3; invokestatic #4; invokevirtual; return
        vec![0x05, 0x06, 0xb8, 0x00, 0x04, 0xb6, 0x00, 0x00, 0xb1],
    );
    let sentinel = method_t_of("", "", 0, 0, vec![]);
    class_file_t { constant_pool, methods: vec![add, main, sentinel] }
}

fn method_t_of(name: &str, descriptor: &str, max_stack: u16, max_locals: u16, code: Vec<u8>)
    -> method_t {
    method_t {
        name: String::from(name),
        descriptor: cp_info_t::CONSTANT_Utf8_info { descriptor: String::from(descriptor) },
        code: code_t { max_stack, max_locals, code_length: code.len() as u32, code },
    }
}


#[test]
fn invokestatic_marshals_arguments_and_returns_the_sum() {
    let class = class_with_static_add();
    let output = run_main(&class, FUEL).unwrap();
    assert_eq!(output, vec![5]);
}

#[test]
fn execute_returns_the_value_of_a_static_method() {
    let class = class_with_static_add();
    let mut locals = vec![19, 23];
    let mut heap: Vec<Vec<i32>> = Vec::new();
    let mut output: Vec<i32> = Vec::new();
    let r = execute(&class.methods[0], &mut locals, &class, &mut heap, &mut output, FUEL);
    assert_eq!(r.unwrap(), Some(42));
    assert!(output.is_empty());
}

#[test]
fn recursion_through_invokestatic_terminates() {
    // dec(I)I: if the argument is zero return it, else recurse on one less.
    //   iload_0; ifne +5; iload_0; ireturn; iload_0; iconst_m1; iadd;
    //   invokestatic #4; ireturn
    let constant_pool = vec![
        utf8_slot("dec"), // 1
        utf8_slot("(I)I"), // 2
        cp_info {
            tag: cp_info_tag::CONSTANT_NameAndType,
            info: Some(Box::new(cp_info_t::CONSTANT_NameAndType_info {
                name_index: 1,
                descriptor_index: 2,
            })),
        }, // 3
        cp_info {
            tag: cp_info_tag::CONSTANT_Methodref,
            info: Some(Box::new(cp_info_t::CONSTANT_FieldOrMethodref_info {
                class_index: 0,
                name_and_type_index: 3,
            })),
        }, // 4
        cp_info { tag: cp_info_tag::CONSTANT_Integer, info: None },
    ];
    let dec = method_t_of(
        "dec",
        "(I)I",
        4,
        1,
        vec![
            0x1a, // 0: iload_0
            0x9a, 0x00, 0x05, // 1: ifne -> 6
            0x1a, // 4: iload_0
            0xac, // 5: ireturn
            0x1a, // 6: iload_0
            0x02, // 7: iconst_m1
            0x60, // 8: iadd
            0xb8, 0x00, 0x04, // 9: invokestatic dec
            0xac, // 12: ireturn
        ],
    );
    let sentinel = method_t_of("", "", 0, 0, vec![]);
    let class = class_file_t { constant_pool, methods: vec![dec, sentinel] };
    let mut locals = vec![100];
    let mut heap: Vec<Vec<i32>> = Vec::new();
    let mut output: Vec<i32> = Vec::new();
    let r = execute(&class.methods[0], &mut locals, &class, &mut heap, &mut output, FUEL);
    assert_eq!(r.unwrap(), Some(0));
}

#[test]
fn an_endless_loop_runs_out_of_fuel() {
    // goto 0, forever.
    let bytes = main_only_class_bytes(&[0xa7, 0x00, 0x00]);
    let mut r = ClassFile::new(bytes);
    let class = get_class(&mut r).unwrap();
    assert!(matches!(run_main(&class, 1000), Err(VmError::OutOfFuel)));
}

#[test]
fn a_loop_summing_with_arrays_prints_the_sum() {
    // main:
    //   bipush 5; newarray int; astore_0        -- a = new int[5]
    //   iconst_0; istore_1                      -- i = 0
    // loop (pc 7):
    //   iload_1; iconst_5; if_icmpge +13 (-> 22)
    //   aload_0; iload_1; iload_1; iastore      -- a[i] = i
    //   iinc 1 1; goto -15 (-> 7)
    // done (pc 22):
    //   aload_0; iconst_3; iaload               -- a[3]
    //   invokevirtual; return
    let code: Vec<u8> = vec![
        0x10, 0x05, // 0: bipush 5
        0xbc, 0x0a, // 2: newarray int
        0x4b, // 4: astore_0
        0x03, // 5: iconst_0
        0x3c, // 6: istore_1
        0x1b, // 7: iload_1
        0x08, // 8: iconst_5
        0xa2, 0x00, 0x0d, // 9: if_icmpge -> 22
        0x2a, // 12: aload_0
        0x1b, // 13: iload_1
        0x1b, // 14: iload_1
        0x4f, // 15: iastore
        0x84, 0x01, 0x01, // 16: iinc 1 by 1
        0xa7, 0xff, 0xf4, // 19: goto back to 7
        0x2a, // 22: aload_0
        0x06, // 23: iconst_3
        0x2e, // 24: iaload
        0xb6, 0x00, 0x00, // 25: invokevirtual
        0xb1, // 28: return
    ];
    let bytes = main_only_class_bytes(&code);
    let mut r = ClassFile::new(bytes);
    let class = get_class(&mut r).unwrap();
    let output = run_main(&class, FUEL).unwrap();
    assert_eq!(output, vec![3]);
}

#[test]
fn division_by_zero_aborts_the_whole_run() {
    // iconst_1; iconst_0; idiv; invokevirtual; return
    let bytes = main_only_class_bytes(&[0x04, 0x03, 0x6c, 0xb6, 0x00, 0x00, 0xb1]);
    let mut r = ClassFile::new(bytes);
    let class = get_class(&mut r).unwrap();
    assert!(matches!(run_main(&class, FUEL), Err(VmError::DivisionByZero)));
}

#[test]
fn getstatic_is_a_pure_skip() {
    // getstatic #0; iconst_4; invokevirtual; return
    let bytes = main_only_class_bytes(&[0xb2, 0x00, 0x00, 0x07, 0xb6, 0x00, 0x00, 0xb1]);
    let mut r = ClassFile::new(bytes);
    let class = get_class(&mut r).unwrap();
    let output = run_main(&class, FUEL).unwrap();
    assert_eq!(output, vec![4]);
}

#[test]
fn unknown_opcode_is_fatal() {
    let bytes = main_only_class_bytes(&[0xcb, 0xb1]);
    let mut r = ClassFile::new(bytes);
    let class = get_class(&mut r).unwrap();
    assert!(matches!(run_main(&class, FUEL), Err(VmError::InvalidOpcode)));
}

#[test]
fn stack_deeper_than_max_stack_is_fatal() {
    // max_stack is 8 in these fixtures: push nine constants.
    let mut code = vec![0x04; 9];
    code.push(0xb1);
    let bytes = main_only_class_bytes(&code);
    let mut r = ClassFile::new(bytes);
    let class = get_class(&mut r).unwrap();
    assert!(matches!(run_main(&class, FUEL), Err(VmError::StackOverflow)));
}
