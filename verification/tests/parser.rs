use minijvm::read_class::{
    constant_pool_size, cp_info, cp_info_t, cp_info_tag, get_class, get_class_header,
    get_class_info, get_constant, get_constant_pool, get_method_name_and_type,
    get_number_of_parameters, read_bytes, read_u16, read_u32, read_u8, ClassFile, code_t,
    find_method, class_file_t, method_t,
};
use minijvm::VmError;

fn push_u16(out: &mut Vec<u8>, v: u16) {
    out.push((v >> 8) as u8);
    out.push(v as u8);
}

fn push_u32(out: &mut Vec<u8>, v: u32) {
    out.push((v >> 24) as u8);
    out.push((v >> 16) as u8);
    out.push((v >> 8) as u8);
    out.push(v as u8);
}

fn push_utf8(out: &mut Vec<u8>, s: &str) {
    out.push(1);
    push_u16(out, s.len() as u16);
    out.extend_from_slice(s.as_bytes());
}

#[test]
fn reader_is_big_endian() {
    let mut r = ClassFile::new(vec![0x12, 0x34, 0x56, 0x78, 0xff, 0x01]);
    assert_eq!(read_u16(&mut r).unwrap(), 0x1234);
    assert_eq!(read_u32(&mut r).unwrap(), 0x5678ff01);
    assert!(matches!(read_u8(&mut r), Err(VmError::UnexpectedEnd)));
}

#[test]
fn reader_read_bytes_takes_exactly_length() {
    let mut r = ClassFile::new(vec![9, 8, 7, 6]);
    assert_eq!(read_bytes(&mut r, 3).unwrap(), vec![9, 8, 7]);
    assert!(matches!(read_bytes(&mut r, 2), Err(VmError::UnexpectedEnd)));
    assert_eq!(read_bytes(&mut r, 1).unwrap(), vec![6]);
}

#[test]
fn header_rejects_wrong_magic() {
    let mut bytes: Vec<u8> = Vec::new();
    push_u32(&mut bytes, 0xcafebabf);
    push_u16(&mut bytes, 0);
    push_u16(&mut bytes, 55);
    let mut r = ClassFile::new(bytes);
    assert!(matches!(get_class_header(&mut r), Err(VmError::BadMagic)));
}

#[test]
fn header_accepts_magic_and_reads_versions() {
    let mut bytes: Vec<u8> = Vec::new();
    push_u32(&mut bytes, 0xcafebabe);
    push_u16(&mut bytes, 55);
    push_u16(&mut bytes, 3);
    let mut r = ClassFile::new(bytes);
    let h = get_class_header(&mut r).unwrap();
    assert_eq!(h.magic, 0xcafebabe);
    assert_eq!(h.major_version, 55);
    assert_eq!(h.minor_version, 3);
}

#[test]
fn class_info_rejects_interfaces() {
    let mut bytes: Vec<u8> = Vec::new();
    push_u16(&mut bytes, 0x21); // access flags
    push_u16(&mut bytes, 1); // this class
    push_u16(&mut bytes, 2); // super class
    push_u16(&mut bytes, 1); // one interface
    push_u16(&mut bytes, 0);
    let mut r = ClassFile::new(bytes);
    assert!(matches!(get_class_info(&mut r), Err(VmError::InterfacesUnsupported)));
}

#[test]
fn class_info_rejects_fields() {
    let mut bytes: Vec<u8> = Vec::new();
    push_u16(&mut bytes, 0x21);
    push_u16(&mut bytes, 1);
    push_u16(&mut bytes, 2);
    push_u16(&mut bytes, 0);
    push_u16(&mut bytes, 2); // two fields
    let mut r = ClassFile::new(bytes);
    assert!(matches!(get_class_info(&mut r), Err(VmError::FieldsUnsupported)));
}

#[test]
fn constant_pool_parses_every_record_kind() {
    let mut bytes: Vec<u8> = Vec::new();
    push_u16(&mut bytes, 6); // count: five records
    push_utf8(&mut bytes, "add"); // 1: text
    bytes.push(3); // 2: integer
    push_u32(&mut bytes, 0xfffffff6); // -10
    bytes.push(7); // 3: class
    push_u16(&mut bytes, 1);
    bytes.push(10); // 4: method reference
    push_u16(&mut bytes, 3);
    push_u16(&mut bytes, 5);
    bytes.push(12); // 5: name and type
    push_u16(&mut bytes, 1);
    push_u16(&mut bytes, 1);
    let mut r = ClassFile::new(bytes);
    let pool = get_constant_pool(&mut r).unwrap();
    assert_eq!(pool.len(), 6); // five records plus the sentinel
    assert_eq!(constant_pool_size(&pool), 5);
    match pool[0].info.as_deref() {
        Some(cp_info_t::CONSTANT_Utf8_info { descriptor }) => assert_eq!(descriptor, "add"),
        other => panic!("expected text constant, got {:?}", other),
    }
    match pool[1].info.as_deref() {
        Some(cp_info_t::CONSTANT_Integer_info { bytes }) => assert_eq!(*bytes, -10),
        other => panic!("expected integer constant, got {:?}", other),
    }
    match pool[3].info.as_deref() {
        Some(cp_info_t::CONSTANT_FieldOrMethodref_info { class_index, name_and_type_index }) => {
            assert_eq!(*class_index, 3);
            assert_eq!(*name_and_type_index, 5);
        },
        other => panic!("expected method reference, got {:?}", other),
    }
    assert!(pool[5].info.is_none());
}

#[test]
fn constant_pool_rejects_unknown_tag() {
    let mut bytes: Vec<u8> = Vec::new();
    push_u16(&mut bytes, 2);
    bytes.push(6); // no such tag
    push_u16(&mut bytes, 0);
    let mut r = ClassFile::new(bytes);
    assert!(matches!(get_constant_pool(&mut r), Err(VmError::UnknownConstantTag)));
}

#[test]
fn constant_pool_rejects_non_ascii_text() {
    let mut bytes: Vec<u8> = Vec::new();
    push_u16(&mut bytes, 2);
    bytes.push(1);
    push_u16(&mut bytes, 2);
    bytes.push(0xc3);
    bytes.push(0xa9);
    let mut r = ClassFile::new(bytes);
    assert!(matches!(get_constant_pool(&mut r), Err(VmError::NonAsciiText)));
}

fn two_entry_pool() -> Vec<cp_info> {
    vec![
        cp_info {
            tag: cp_info_tag::CONSTANT_Integer,
            info: Some(Box::new(cp_info_t::CONSTANT_Integer_info { bytes: 5 })),
        },
        cp_info {
            tag: cp_info_tag::CONSTANT_Class,
            info: Some(Box::new(cp_info_t::CONSTANT_Class_info { string_index: 1 })),
        },
        cp_info { tag: cp_info_tag::CONSTANT_Integer, info: None },
    ]
}

#[test]
fn resolve_succeeds_on_every_index_in_range() {
    let pool = two_entry_pool();
    assert_eq!(constant_pool_size(&pool), 2);
    for i in 1..=2u16 {
        assert!(get_constant(&pool, i).is_ok());
    }
}

#[test]
fn resolve_fails_on_every_index_out_of_range() {
    let pool = two_entry_pool();
    assert!(matches!(get_constant(&pool, 0), Err(VmError::InvalidConstantIndex)));
    assert!(matches!(get_constant(&pool, 3), Err(VmError::InvalidConstantIndex)));
    assert!(matches!(get_constant(&pool, 65535), Err(VmError::InvalidConstantIndex)));
}

#[test]
fn method_name_and_type_follows_the_reference() {
    let pool = vec![
        cp_info {
            tag: cp_info_tag::CONSTANT_Methodref,
            info: Some(Box::new(cp_info_t::CONSTANT_FieldOrMethodref_info {
                class_index: 9,
                name_and_type_index: 2,
            })),
        },
        cp_info {
            tag: cp_info_tag::CONSTANT_NameAndType,
            info: Some(Box::new(cp_info_t::CONSTANT_NameAndType_info {
                name_index: 7,
                descriptor_index: 8,
            })),
        },
        cp_info { tag: cp_info_tag::CONSTANT_Integer, info: None },
    ];
    match *get_method_name_and_type(&pool, 1).unwrap() {
        cp_info_t::CONSTANT_NameAndType_info { name_index, descriptor_index } => {
            assert_eq!(name_index, 7);
            assert_eq!(descriptor_index, 8);
        },
        ref other => panic!("expected a name and type, got {:?}", other),
    }
}

#[test]
fn method_name_and_type_rejects_wrong_tag() {
    let pool = two_entry_pool();
    assert!(matches!(
        get_method_name_and_type(&pool, 1),
        Err(VmError::ConstantTypeMismatch)
    ));
}

fn method_with_descriptor(d: &str) -> method_t {
    method_t {
        name: String::from("f"),
        descriptor: cp_info_t::CONSTANT_Utf8_info { descriptor: String::from(d) },
        code: code_t { max_stack: 0, max_locals: 0, code_length: 0, code: Vec::new() },
    }
}

#[test]
fn parameter_count_counts_base_types() {
    assert_eq!(get_number_of_parameters(&method_with_descriptor("(II)I")).unwrap(), 2);
    assert_eq!(get_number_of_parameters(&method_with_descriptor("()V")).unwrap(), 0);
    assert_eq!(get_number_of_parameters(&method_with_descriptor("(I)I")).unwrap(), 1);
}

#[test]
fn parameter_count_skips_array_markers() {
    assert_eq!(get_number_of_parameters(&method_with_descriptor("([II)I")).unwrap(), 2);
    assert_eq!(get_number_of_parameters(&method_with_descriptor("([I)V")).unwrap(), 1);
}

#[test]
fn parameter_count_rejects_missing_parens() {
    assert!(matches!(
        get_number_of_parameters(&method_with_descriptor("II")),
        Err(VmError::BadDescriptor)
    ));
}

fn simple_method(name: &str, descriptor: &str) -> method_t {
    method_t {
        name: String::from(name),
        descriptor: cp_info_t::CONSTANT_Utf8_info { descriptor: String::from(descriptor) },
        code: code_t { max_stack: 1, max_locals: 1, code_length: 1, code: vec![0xb1] },
    }
}

fn sentinel_method() -> method_t {
    method_t {
        name: String::new(),
        descriptor: cp_info_t::CONSTANT_Utf8_info { descriptor: String::new() },
        code: code_t { max_stack: 0, max_locals: 0, code_length: 0, code: Vec::new() },
    }
}

#[test]
fn find_method_scans_by_name_and_descriptor() {
    let class = class_file_t {
        constant_pool: vec![cp_info { tag: cp_info_tag::CONSTANT_Integer, info: None }],
        methods: vec![
            simple_method("add", "(II)I"),
            simple_method("add", "(I)I"),
            sentinel_method(),
        ],
    };
    let found = find_method("add", "(I)I", &class).unwrap();
    assert_eq!(found.name, "add");
    match &found.descriptor {
        cp_info_t::CONSTANT_Utf8_info { descriptor } => assert_eq!(descriptor, "(I)I"),
        other => panic!("expected a text descriptor, got {:?}", other),
    }
    assert!(find_method("sub", "(II)I", &class).is_none());
}

#[test]
fn find_method_stops_at_the_sentinel() {
    let class = class_file_t {
        constant_pool: vec![cp_info { tag: cp_info_tag::CONSTANT_Integer, info: None }],
        methods: vec![
            sentinel_method(),
            simple_method("hidden", "()V"),
        ],
    };
    assert!(find_method("hidden", "()V", &class).is_none());
}

#[test]
fn whole_class_file_parses_and_skips_unknown_attributes() {
    let mut bytes: Vec<u8> = Vec::new();
    push_u32(&mut bytes, 0xcafebabe);
    push_u16(&mut bytes, 0); // minor
    push_u16(&mut bytes, 55); // major
    push_u16(&mut bytes, 5); // pool count: four records
    push_utf8(&mut bytes, "main"); // 1
    push_utf8(&mut bytes, "([Ljava/lang/String;)V"); // 2
    push_utf8(&mut bytes, "Code"); // 3
    push_utf8(&mut bytes, "LineNumberTable"); // 4
    push_u16(&mut bytes, 0x21); // access flags
    push_u16(&mut bytes, 1); // this class
    push_u16(&mut bytes, 0); // super class
    push_u16(&mut bytes, 0); // interfaces
    push_u16(&mut bytes, 0); // fields
    push_u16(&mut bytes, 1); // one method
    push_u16(&mut bytes, 0x9); // public static
    push_u16(&mut bytes, 1); // name: main
    push_u16(&mut bytes, 2); // descriptor
    push_u16(&mut bytes, 2); // two attributes
    push_u16(&mut bytes, 4); // unknown attribute name
    push_u32(&mut bytes, 3); // three bytes to skip
    bytes.extend_from_slice(&[1, 2, 3]);
    push_u16(&mut bytes, 3); // the code attribute
    push_u32(&mut bytes, 9); // 8 fixed bytes + 1 code byte
    push_u16(&mut bytes, 2); // max stack
    push_u16(&mut bytes, 1); // max locals
    push_u32(&mut bytes, 1); // code length
    bytes.push(0xb1); // return
    let mut r = ClassFile::new(bytes);
    let class = get_class(&mut r).unwrap();
    assert_eq!(class.methods.len(), 2); // the method plus the sentinel
    let m = &class.methods[0];
    assert_eq!(m.name, "main");
    assert_eq!(m.code.max_stack, 2);
    assert_eq!(m.code.max_locals, 1);
    assert_eq!(m.code.code, vec![0xb1]);
    assert!(class.methods[1].name.is_empty());
}

#[test]
fn method_without_code_attribute_is_fatal() {
    let mut bytes: Vec<u8> = Vec::new();
    push_u32(&mut bytes, 0xcafebabe);
    push_u16(&mut bytes, 0);
    push_u16(&mut bytes, 55);
    push_u16(&mut bytes, 3);
    push_utf8(&mut bytes, "main");
    push_utf8(&mut bytes, "()V");
    push_u16(&mut bytes, 0x21);
    push_u16(&mut bytes, 1);
    push_u16(&mut bytes, 0);
    push_u16(&mut bytes, 0);
    push_u16(&mut bytes, 0);
    push_u16(&mut bytes, 1);
    push_u16(&mut bytes, 0x9);
    push_u16(&mut bytes, 1);
    push_u16(&mut bytes, 2);
    push_u16(&mut bytes, 0); // no attributes at all
    let mut r = ClassFile::new(bytes);
    assert!(matches!(get_class(&mut r), Err(VmError::MissingCode)));
}

#[test]
fn duplicate_code_attribute_is_fatal() {
    let mut bytes: Vec<u8> = Vec::new();
    push_u32(&mut bytes, 0xcafebabe);
    push_u16(&mut bytes, 0);
    push_u16(&mut bytes, 55);
    push_u16(&mut bytes, 4);
    push_utf8(&mut bytes, "main");
    push_utf8(&mut bytes, "()V");
    push_utf8(&mut bytes, "Code");
    push_u16(&mut bytes, 0x21);
    push_u16(&mut bytes, 1);
    push_u16(&mut bytes, 0);
    push_u16(&mut bytes, 0);
    push_u16(&mut bytes, 0);
    push_u16(&mut bytes, 1);
    push_u16(&mut bytes, 0x9);
    push_u16(&mut bytes, 1);
    push_u16(&mut bytes, 2);
    push_u16(&mut bytes, 2); // two attributes, both named Code
    for _ in 0..2 {
        push_u16(&mut bytes, 3);
        push_u32(&mut bytes, 9);
        push_u16(&mut bytes, 1);
        push_u16(&mut bytes, 1);
        push_u32(&mut bytes, 1);
        bytes.push(0xb1);
    }
    let mut r = ClassFile::new(bytes);
    assert!(matches!(get_class(&mut r), Err(VmError::DuplicateCode)));
}

#[test]
fn non_static_method_is_fatal() {
    let mut bytes: Vec<u8> = Vec::new();
    push_u32(&mut bytes, 0xcafebabe);
    push_u16(&mut bytes, 0);
    push_u16(&mut bytes, 55);
    push_u16(&mut bytes, 3);
    push_utf8(&mut bytes, "main");
    push_utf8(&mut bytes, "()V");
    push_u16(&mut bytes, 0x21);
    push_u16(&mut bytes, 1);
    push_u16(&mut bytes, 0);
    push_u16(&mut bytes, 0);
    push_u16(&mut bytes, 0);
    push_u16(&mut bytes, 1);
    push_u16(&mut bytes, 0x1); // public, not static
    push_u16(&mut bytes, 1);
    push_u16(&mut bytes, 2);
    push_u16(&mut bytes, 0);
    let mut r = ClassFile::new(bytes);
    assert!(matches!(get_class(&mut r), Err(VmError::NonStaticMethod)));
}

#[test]
fn constructor_may_be_non_static() {
    let mut bytes: Vec<u8> = Vec::new();
    push_u32(&mut bytes, 0xcafebabe);
    push_u16(&mut bytes, 0);
    push_u16(&mut bytes, 55);
    push_u16(&mut bytes, 4);
    push_utf8(&mut bytes, "<init>");
    push_utf8(&mut bytes, "()V");
    push_utf8(&mut bytes, "Code");
    push_u16(&mut bytes, 0x21);
    push_u16(&mut bytes, 1);
    push_u16(&mut bytes, 0);
    push_u16(&mut bytes, 0);
    push_u16(&mut bytes, 0);
    push_u16(&mut bytes, 1);
    push_u16(&mut bytes, 0x1); // public, not static
    push_u16(&mut bytes, 1);
    push_u16(&mut bytes, 2);
    push_u16(&mut bytes, 1);
    push_u16(&mut bytes, 3);
    push_u32(&mut bytes, 9);
    push_u16(&mut bytes, 1);
    push_u16(&mut bytes, 1);
    push_u32(&mut bytes, 1);
    bytes.push(0xb1);
    let mut r = ClassFile::new(bytes);
    let class = get_class(&mut r).unwrap();
    assert_eq!(class.methods[0].name, "<init>");
}
