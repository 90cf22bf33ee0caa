//! The class-file parser: types for the constant pool and the method table,
//! a sequential big-endian byte reader, and the loader that builds a
//! [`class_file_t`] from a byte stream.
//!
//! The file format is fixed: a magic header, a 16-bit-counted constant pool of
//! tag-discriminated records, a class-info block that must declare no
//! interfaces and no fields, and a method table in which every method (other
//! than a constructor) is static and carries exactly one code attribute.
//! Constant-pool indices are 1-based in the format; the in-memory table is
//! 0-based, so every lookup subtracts one.

use vstd::prelude::*;

use crate::VmError;

verus! {

/// The magic value that must open every class file.
pub const CLASS_MAGIC: u32 = 0xcafebabe;

/// The access-flag bit that marks a method as static.
pub const IS_STATIC: u16 = 0x8;

// ---------------------------------------------------------------------------
// Data types
// ---------------------------------------------------------------------------

/// The leading header of a class file.
#[derive(Clone, Copy, Debug, PartialEq, Eq, Structural)]
pub struct class_header_t {
    pub magic: u32,
    pub minor_version: u16,
    pub major_version: u16,
}

/// The class-info block that follows the constant pool.
#[derive(Clone, Copy, Debug, PartialEq, Eq, Structural)]
pub struct class_info_t {
    pub access_flags: u16,
    pub this_class: u16,
    pub super_class: u16,
}

/// The fixed-size leading fields of one method record.
#[derive(Clone, Copy, Debug, PartialEq, Eq, Structural)]
pub struct method_info {
    pub access_flags: u16,
    pub name_index: u16,
    pub descriptor_index: u16,
    pub attributes_count: u16,
}

/// The fixed-size leading fields of one attribute record.
#[derive(Clone, Copy, Debug, PartialEq, Eq, Structural)]
pub struct attribute_info {
    pub attribute_name_index: u16,
    pub attribute_length: u32,
}

/// The body of a code attribute: stack and frame sizes plus the raw
/// instruction bytes.
#[derive(Debug)]
pub struct code_t {
    pub max_stack: u16,
    pub max_locals: u16,
    pub code_length: u32,
    pub code: Vec<u8>,
}

/// The tag byte of a constant-pool record.
#[derive(Clone, Copy, Debug, PartialEq, Eq, Structural)]
pub enum cp_info_tag {
    CONSTANT_NameAndType,
    CONSTANT_Methodref,
    CONSTANT_Fieldref,
    CONSTANT_Class,
    CONSTANT_Integer,
    CONSTANT_Utf8,
}

/// The payload of a constant-pool record, one variant per supported tag.
/// Field and method references share one shape.
#[derive(Debug)]
pub enum cp_info_t {
    CONSTANT_Integer_info { bytes: i32 },
    CONSTANT_Class_info { string_index: u16 },
    CONSTANT_FieldOrMethodref_info { class_index: u16, name_and_type_index: u16 },
    CONSTANT_NameAndType_info { name_index: u16, descriptor_index: u16 },
    CONSTANT_Utf8_info { descriptor: String },
}

/// One constant-pool slot: a tag plus its payload.  The table is terminated
/// by a sentinel slot whose `info` is `None`.
#[derive(Debug)]
pub struct cp_info {
    pub tag: cp_info_tag,
    pub info: Option<Box<cp_info_t>>,
}

/// One entry of the method table.  The table is terminated by a sentinel
/// entry with an empty name.
#[derive(Debug)]
pub struct method_t {
    pub name: String,
    pub descriptor: cp_info_t,
    pub code: code_t,
}

/// A parsed class file: its constant pool and its method table.
#[derive(Debug)]
pub struct class_file_t {
    pub constant_pool: Vec<cp_info>,
    pub methods: Vec<method_t>,
}

// ---------------------------------------------------------------------------
// Mathematical views of the data types
// ---------------------------------------------------------------------------

/// The mathematical value of a constant-pool payload.
pub enum CpEntryView {
    Utf8(Seq<char>),
    Integer(i32),
    Class(u16),
    FieldOrMethodRef(u16, u16),
    NameAndType(u16, u16),
}

/// The mathematical value of one constant-pool slot.
pub struct CpInfoView {
    pub tag: cp_info_tag,
    pub info: Option<CpEntryView>,
}

/// The mathematical value of a code attribute.
pub struct CodeView {
    pub max_stack: u16,
    pub max_locals: u16,
    pub code_length: u32,
    pub code: Seq<u8>,
}

/// The mathematical value of one method-table entry.
pub struct MethodView {
    pub name: Seq<char>,
    pub descriptor: CpEntryView,
    pub code: CodeView,
}

/// The mathematical value of a parsed class file.
pub struct ClassView {
    pub constant_pool: Seq<CpInfoView>,
    pub methods: Seq<MethodView>,
}

impl View for cp_info_t {
    type V = CpEntryView;

    open spec fn view(&self) -> CpEntryView {
        match self {
            cp_info_t::CONSTANT_Integer_info { bytes } => CpEntryView::Integer(*bytes),
            cp_info_t::CONSTANT_Class_info { string_index } => CpEntryView::Class(*string_index),
            cp_info_t::CONSTANT_FieldOrMethodref_info { class_index, name_and_type_index } => (
            CpEntryView::FieldOrMethodRef(*class_index, *name_and_type_index)),
            cp_info_t::CONSTANT_NameAndType_info { name_index, descriptor_index } => (
            CpEntryView::NameAndType(*name_index, *descriptor_index)),
            cp_info_t::CONSTANT_Utf8_info { descriptor } => CpEntryView::Utf8(descriptor@),
        }
    }
}

impl View for cp_info {
    type V = CpInfoView;

    open spec fn view(&self) -> CpInfoView {
        CpInfoView {
            tag: self.tag,
            info: match self.info {
                Some(b) => Some(b@),
                None => None,
            },
        }
    }
}

impl View for code_t {
    type V = CodeView;

    open spec fn view(&self) -> CodeView {
        CodeView {
            max_stack: self.max_stack,
            max_locals: self.max_locals,
            code_length: self.code_length,
            code: self.code@,
        }
    }
}

impl View for method_t {
    type V = MethodView;

    open spec fn view(&self) -> MethodView {
        MethodView { name: self.name@, descriptor: self.descriptor@, code: self.code@ }
    }
}

impl View for class_file_t {
    type V = ClassView;

    open spec fn view(&self) -> ClassView {
        ClassView {
            constant_pool: pool_view(self.constant_pool@),
            methods: self.methods@.map_values(|m: method_t| m@),
        }
    }
}

/// The slot-wise view of a constant pool.
pub open spec fn pool_view(pool: Seq<cp_info>) -> Seq<CpInfoView> {
    pool.map_values(|c: cp_info| c@)
}

impl Clone for cp_info_t {
    /// Cloning preserves the mathematical value.
    fn clone(&self) -> (res: Self)
        ensures
            res@ == self@,
    {
        match self {
            cp_info_t::CONSTANT_Integer_info { bytes } => {
                cp_info_t::CONSTANT_Integer_info { bytes: *bytes }
            },
            cp_info_t::CONSTANT_Class_info { string_index } => {
                cp_info_t::CONSTANT_Class_info { string_index: *string_index }
            },
            cp_info_t::CONSTANT_FieldOrMethodref_info { class_index, name_and_type_index } => {
                cp_info_t::CONSTANT_FieldOrMethodref_info {
                    class_index: *class_index,
                    name_and_type_index: *name_and_type_index,
                }
            },
            cp_info_t::CONSTANT_NameAndType_info { name_index, descriptor_index } => {
                cp_info_t::CONSTANT_NameAndType_info {
                    name_index: *name_index,
                    descriptor_index: *descriptor_index,
                }
            },
            cp_info_t::CONSTANT_Utf8_info { descriptor } => {
                cp_info_t::CONSTANT_Utf8_info { descriptor: descriptor.clone() }
            },
        }
    }
}

impl Clone for cp_info {
    /// Cloning preserves the mathematical value.
    fn clone(&self) -> (res: Self)
        ensures
            res@ == self@,
    {
        cp_info {
            tag: self.tag,
            info: match &self.info {
                Some(b) => Some(Box::new((**b).clone())),
                None => None,
            },
        }
    }
}

impl Clone for code_t {
    /// Cloning preserves the mathematical value.
    fn clone(&self) -> (res: Self)
        ensures
            res@ == self@,
    {
        code_t {
            max_stack: self.max_stack,
            max_locals: self.max_locals,
            code_length: self.code_length,
            code: clone_bytes(&self.code),
        }
    }
}

impl Clone for method_t {
    /// Cloning preserves the mathematical value.
    fn clone(&self) -> (res: Self)
        ensures
            res@ == self@,
    {
        method_t {
            name: self.name.clone(),
            descriptor: self.descriptor.clone(),
            code: self.code.clone(),
        }
    }
}

/// Copies a byte vector element by element.
fn clone_bytes(v: &Vec<u8>) -> (res: Vec<u8>)
    ensures
        res@ == v@,
{
    let mut out: Vec<u8> = Vec::new();
    let mut i: usize = 0;
    while i < v.len()
        invariant
            i <= v@.len(),
            out@ == v@.subrange(0, i as int),
        decreases v@.len() - i,
    {
        out.push(v[i]);
        i = i + 1;
        proof {
            assert(out@ =~= v@.subrange(0, i as int));
        }
    }
    proof {
        assert(out@ =~= v@);
    }
    out
}

// ---------------------------------------------------------------------------
// The byte reader
// ---------------------------------------------------------------------------

/// A sequential reader over the bytes of a class file.
#[derive(Debug)]
pub struct ClassFile {
    pub bytes: Vec<u8>,
    pub pos: usize,
}

impl ClassFile {
    /// Wraps a byte vector for reading from the start.
    pub fn new(bytes: Vec<u8>) -> (r: ClassFile)
        ensures
            r.bytes@ == bytes@,
            r.pos == 0,
    {
        ClassFile { bytes, pos: 0 }
    }
}

/// The big-endian value of the two bytes at `i`.
pub open spec fn be16(b: Seq<u8>, i: int) -> int {
    b[i] * 0x100 + b[i + 1]
}

/// The big-endian value of the four bytes at `i`.
pub open spec fn be32(b: Seq<u8>, i: int) -> int {
    b[i] * 0x1000000 + b[i + 1] * 0x10000 + b[i + 2] * 0x100 + b[i + 3]
}

/// The signed 32-bit value whose two's-complement image is the 32-bit
/// unsigned value `v`.
pub open spec fn i32_of_u32(v: int) -> int {
    if v >= 0x8000_0000 {
        v - 0x1_0000_0000
    } else {
        v
    }
}

/// Reads one byte and advances past it.
pub fn read_u8(class_file: &mut ClassFile) -> (r: Result<u8, VmError>)
    ensures
        final(class_file).bytes@ == old(class_file).bytes@,
        r is Ok <==> old(class_file).pos + 1 <= old(class_file).bytes@.len(),
        r is Ok ==> r->Ok_0 == old(class_file).bytes@[old(class_file).pos as int]
            && final(class_file).pos == old(class_file).pos + 1,
        r is Err ==> r == Result::<u8, VmError>::Err(VmError::UnexpectedEnd)
            && final(class_file).pos == old(class_file).pos,
{
    if class_file.pos < class_file.bytes.len() {
        let b = class_file.bytes[class_file.pos];
        class_file.pos = class_file.pos + 1;
        Ok(b)
    } else {
        Err(VmError::UnexpectedEnd)
    }
}

/// Reads two bytes as a big-endian unsigned value and advances past them.
pub fn read_u16(class_file: &mut ClassFile) -> (r: Result<u16, VmError>)
    ensures
        final(class_file).bytes@ == old(class_file).bytes@,
        r is Ok <==> old(class_file).pos + 2 <= old(class_file).bytes@.len(),
        r is Ok ==> r->Ok_0 == be16(old(class_file).bytes@, old(class_file).pos as int)
            && final(class_file).pos == old(class_file).pos + 2,
        r is Err ==> r == Result::<u16, VmError>::Err(VmError::UnexpectedEnd)
            && final(class_file).pos == old(class_file).pos,
{
    if class_file.pos < class_file.bytes.len() && class_file.bytes.len() - class_file.pos >= 2 {
        let b0 = class_file.bytes[class_file.pos];
        let b1 = class_file.bytes[class_file.pos + 1];
        class_file.pos = class_file.pos + 2;
        Ok((b0 as u16) * 0x100 + (b1 as u16))
    } else {
        Err(VmError::UnexpectedEnd)
    }
}

/// Reads four bytes as a big-endian unsigned value and advances past them.
pub fn read_u32(class_file: &mut ClassFile) -> (r: Result<u32, VmError>)
    ensures
        final(class_file).bytes@ == old(class_file).bytes@,
        r is Ok <==> old(class_file).pos + 4 <= old(class_file).bytes@.len(),
        r is Ok ==> r->Ok_0 == be32(old(class_file).bytes@, old(class_file).pos as int)
            && final(class_file).pos == old(class_file).pos + 4,
        r is Err ==> r == Result::<u32, VmError>::Err(VmError::UnexpectedEnd)
            && final(class_file).pos == old(class_file).pos,
{
    if class_file.pos < class_file.bytes.len() && class_file.bytes.len() - class_file.pos >= 4 {
        let b0 = class_file.bytes[class_file.pos];
        let b1 = class_file.bytes[class_file.pos + 1];
        let b2 = class_file.bytes[class_file.pos + 2];
        let b3 = class_file.bytes[class_file.pos + 3];
        class_file.pos = class_file.pos + 4;
        Ok((b0 as u32) * 0x1000000 + (b1 as u32) * 0x10000 + (b2 as u32) * 0x100 + (b3 as u32))
    } else {
        Err(VmError::UnexpectedEnd)
    }
}

/// Reads `length` bytes and advances past them.
pub fn read_bytes(class_file: &mut ClassFile, length: usize) -> (r: Result<Vec<u8>, VmError>)
    ensures
        final(class_file).bytes@ == old(class_file).bytes@,
        r is Ok <==> old(class_file).pos + length <= old(class_file).bytes@.len(),
        r is Ok ==> r->Ok_0@ == old(class_file).bytes@.subrange(
            old(class_file).pos as int,
            old(class_file).pos + length,
        ) && final(class_file).pos == old(class_file).pos + length,
        r is Err ==> r == Result::<Vec<u8>, VmError>::Err(VmError::UnexpectedEnd)
            && final(class_file).pos == old(class_file).pos,
{
    if length <= class_file.bytes.len() && class_file.pos <= class_file.bytes.len() - length {
        let start = class_file.pos;
        let mut out: Vec<u8> = Vec::new();
        let mut i: usize = 0;
        while i < length
            invariant
                i <= length,
                start + length <= class_file.bytes@.len(),
                class_file.bytes@.len() <= usize::MAX,
                out@ == class_file.bytes@.subrange(start as int, start + i),
            decreases length - i,
        {
            out.push(class_file.bytes[start + i]);
            i = i + 1;
            proof {
                assert(out@ =~= class_file.bytes@.subrange(start as int, start + i));
            }
        }
        class_file.pos = start + length;
        Ok(out)
    } else {
        Err(VmError::UnexpectedEnd)
    }
}

// ---------------------------------------------------------------------------
// Pool size and resolution
// ---------------------------------------------------------------------------

/// The number of live entries before the sentinel slot (the first slot whose
/// payload is absent), or the whole length when no sentinel exists.
pub open spec fn spec_pool_size(pool: Seq<CpInfoView>) -> int
    decreases pool.len(),
{
    if pool.len() == 0 {
        0
    } else if pool[0].info is None {
        0
    } else {
        1 + spec_pool_size(pool.drop_first())
    }
}

/// The pool size never exceeds the pool length; every slot before it holds a
/// payload; the slot at the size, when it exists, is the sentinel.
pub proof fn lemma_pool_size_bounds(pool: Seq<CpInfoView>)
    ensures
        0 <= spec_pool_size(pool) <= pool.len(),
        forall|j: int| 0 <= j < spec_pool_size(pool) ==> pool[j].info is Some,
        spec_pool_size(pool) < pool.len() ==> pool[spec_pool_size(pool)].info is None,
    decreases pool.len(),
{
    if pool.len() == 0 {
    } else if pool[0].info is None {
    } else {
        lemma_pool_size_bounds(pool.drop_first());
        assert forall|j: int| 0 <= j < spec_pool_size(pool) implies pool[j].info is Some by {
            if j > 0 {
                assert(pool.drop_first()[j - 1] == pool[j]);
            }
        }
        if spec_pool_size(pool) < pool.len() {
            assert(pool.drop_first()[spec_pool_size(pool) - 1] == pool[spec_pool_size(pool)]);
        }
    }
}

/// Counts the live entries of a constant pool: those before the sentinel
/// slot whose payload is absent.
pub fn constant_pool_size(constant_pool: &Vec<cp_info>) -> (n: u16)
    requires
        spec_pool_size(pool_view(constant_pool@)) <= u16::MAX,
    ensures
        n == spec_pool_size(pool_view(constant_pool@)),
{
    proof {
        lemma_pool_size_bounds(pool_view(constant_pool@));
    }
    let ghost pv = pool_view(constant_pool@);
    proof {
        assert(pv.skip(0) =~= pv);
    }
    let mut i: usize = 0;
    while i < constant_pool.len() && constant_pool[i].info.is_some()
        invariant
            0 <= i <= constant_pool@.len(),
            spec_pool_size(pv) <= u16::MAX,
            pv == pool_view(constant_pool@),
            spec_pool_size(pv) == i + spec_pool_size(pv.skip(i as int)),
            forall|j: int| 0 <= j < i ==> pv[j].info is Some,
        decreases constant_pool@.len() - i,
    {
        proof {
            assert(pv.skip(i as int)[0] == pv[i as int]);
            assert(pv.skip(i as int).drop_first() =~= pv.skip(i + 1));
            lemma_pool_size_bounds(pv.skip(i + 1));
        }
        i = i + 1;
    }
    proof {
        if i < constant_pool@.len() {
            assert(pv.skip(i as int)[0] == pv[i as int]);
            assert(spec_pool_size(pv.skip(i as int)) == 0);
        } else {
            assert(pv.skip(i as int) =~= Seq::<CpInfoView>::empty());
        }
    }
    i as u16
}

/// Resolves the 1-based constant-pool index `index`.  Resolution succeeds
/// exactly when `1 <= index <= spec_pool_size(..)`; any other index is
/// rejected, never read out of bounds.
pub fn get_constant(constant_pool: &Vec<cp_info>, index: u16) -> (r: Result<cp_info, VmError>)
    requires
        spec_pool_size(pool_view(constant_pool@)) <= u16::MAX,
    ensures
        r is Ok <==> 1 <= index <= spec_pool_size(pool_view(constant_pool@)),
        r is Ok ==> r->Ok_0@ == pool_view(constant_pool@)[index - 1],
        r is Err ==> r == Result::<cp_info, VmError>::Err(VmError::InvalidConstantIndex),
{
    let const_size = constant_pool_size(constant_pool);
    proof {
        lemma_pool_size_bounds(pool_view(constant_pool@));
    }
    if 0 < index && index <= const_size {
        let c = &constant_pool[(index - 1) as usize];
        Ok(c.clone())
    } else {
        Err(VmError::InvalidConstantIndex)
    }
}

// ---------------------------------------------------------------------------
// Parsing the constant pool
// ---------------------------------------------------------------------------

/// The constant kind a tag byte selects, if any.
pub open spec fn tag_of_byte(v: u8) -> Option<cp_info_tag> {
    if v == 1 {
        Some(cp_info_tag::CONSTANT_Utf8)
    } else if v == 3 {
        Some(cp_info_tag::CONSTANT_Integer)
    } else if v == 7 {
        Some(cp_info_tag::CONSTANT_Class)
    } else if v == 9 {
        Some(cp_info_tag::CONSTANT_Fieldref)
    } else if v == 10 {
        Some(cp_info_tag::CONSTANT_Methodref)
    } else if v == 12 {
        Some(cp_info_tag::CONSTANT_NameAndType)
    } else {
        None
    }
}

impl cp_info_tag {
    /// Decodes a tag byte; bytes outside the supported set yield `None`.
    pub fn try_from(v: u8) -> (r: Option<cp_info_tag>)
        ensures
            r == tag_of_byte(v),
    {
        if v == 1 {
            Some(cp_info_tag::CONSTANT_Utf8)
        } else if v == 3 {
            Some(cp_info_tag::CONSTANT_Integer)
        } else if v == 7 {
            Some(cp_info_tag::CONSTANT_Class)
        } else if v == 9 {
            Some(cp_info_tag::CONSTANT_Fieldref)
        } else if v == 10 {
            Some(cp_info_tag::CONSTANT_Methodref)
        } else if v == 12 {
            Some(cp_info_tag::CONSTANT_NameAndType)
        } else {
            None
        }
    }
}

/// True when every byte is in the ASCII range.
pub open spec fn all_ascii(b: Seq<u8>) -> bool {
    forall|i: int| 0 <= i < b.len() ==> b[i] < 0x80
}

/// The characters denoted by a sequence of ASCII bytes, one per byte.
pub open spec fn ascii_chars(b: Seq<u8>) -> Seq<char> {
    b.map_values(|x: u8| x as char)
}

/// Relies on `String::from_utf8`: bytes below 0x80 are valid UTF-8 and decode
/// to exactly one character per byte, the character with that code.
#[verifier::external_body]
fn ascii_to_string(bytes: Vec<u8>) -> (r: String)
    requires
        all_ascii(bytes@),
    ensures
        r@ == ascii_chars(bytes@),
{
    String::from_utf8(bytes).unwrap()
}

/// Reports whether every byte of `bytes` is in the ASCII range.
fn check_ascii(bytes: &Vec<u8>) -> (r: bool)
    ensures
        r == all_ascii(bytes@),
{
    let mut i: usize = 0;
    while i < bytes.len()
        invariant
            i <= bytes@.len(),
            forall|j: int| 0 <= j < i ==> bytes@[j] < 0x80,
        decreases bytes@.len() - i,
    {
        if bytes[i] >= 0x80 {
            return false;
        }
        i = i + 1;
    }
    true
}

/// The constant-pool record at `pos`, and the position just past it, when the
/// bytes from `pos` form one: a supported tag byte followed by the payload the
/// tag selects, with text payloads confined to ASCII.
pub open spec fn spec_parse_entry(b: Seq<u8>, pos: int) -> Option<(CpInfoView, int)> {
    if !(0 <= pos && pos + 1 <= b.len()) {
        None
    } else {
        match tag_of_byte(b[pos]) {
            None => None,
            Some(tag) => match tag {
                cp_info_tag::CONSTANT_Utf8 => {
                    if pos + 3 <= b.len() {
                        let n = be16(b, pos + 1);
                        if pos + 3 + n <= b.len() && all_ascii(b.subrange(pos + 3, pos + 3 + n)) {
                            Some(
                                (
                                    CpInfoView {
                                        tag,
                                        info: Some(
                                            CpEntryView::Utf8(
                                                ascii_chars(b.subrange(pos + 3, pos + 3 + n)),
                                            ),
                                        ),
                                    },
                                    pos + 3 + n,
                                ),
                            )
                        } else {
                            None
                        }
                    } else {
                        None
                    }
                },
                cp_info_tag::CONSTANT_Integer => {
                    if pos + 5 <= b.len() {
                        Some(
                            (
                                CpInfoView {
                                    tag,
                                    info: Some(
                                        CpEntryView::Integer(
                                            i32_of_u32(be32(b, pos + 1)) as i32,
                                        ),
                                    ),
                                },
                                pos + 5,
                            ),
                        )
                    } else {
                        None
                    }
                },
                cp_info_tag::CONSTANT_Class => {
                    if pos + 3 <= b.len() {
                        Some(
                            (
                                CpInfoView {
                                    tag,
                                    info: Some(CpEntryView::Class(be16(b, pos + 1) as u16)),
                                },
                                pos + 3,
                            ),
                        )
                    } else {
                        None
                    }
                },
                cp_info_tag::CONSTANT_Fieldref | cp_info_tag::CONSTANT_Methodref => {
                    if pos + 5 <= b.len() {
                        Some(
                            (
                                CpInfoView {
                                    tag,
                                    info: Some(
                                        CpEntryView::FieldOrMethodRef(
                                            be16(b, pos + 1) as u16,
                                            be16(b, pos + 3) as u16,
                                        ),
                                    ),
                                },
                                pos + 5,
                            ),
                        )
                    } else {
                        None
                    }
                },
                cp_info_tag::CONSTANT_NameAndType => {
                    if pos + 5 <= b.len() {
                        Some(
                            (
                                CpInfoView {
                                    tag,
                                    info: Some(
                                        CpEntryView::NameAndType(
                                            be16(b, pos + 1) as u16,
                                            be16(b, pos + 3) as u16,
                                        ),
                                    ),
                                },
                                pos + 5,
                            ),
                        )
                    } else {
                        None
                    }
                },
            },
        }
    }
}

/// `n` constant-pool records in a row starting at `pos`, and the position
/// just past the last, when all of them parse.
pub open spec fn spec_parse_entries(b: Seq<u8>, pos: int, n: int) -> Option<
    (Seq<CpInfoView>, int),
>
    decreases n,
{
    if n <= 0 {
        Some((Seq::<CpInfoView>::empty(), pos))
    } else {
        match spec_parse_entry(b, pos) {
            None => None,
            Some((v, p)) => match spec_parse_entries(b, p, n - 1) {
                None => None,
                Some((vs, q)) => Some((seq![v] + vs, q)),
            },
        }
    }
}

/// Reads one constant-pool record.
fn parse_constant(class_file: &mut ClassFile) -> (r: Result<cp_info, VmError>)
    ensures
        final(class_file).bytes@ == old(class_file).bytes@,
        r is Ok <==> spec_parse_entry(old(class_file).bytes@, old(class_file).pos as int) is Some,
        r is Ok ==> {
            let (v, p) = spec_parse_entry(old(class_file).bytes@, old(class_file).pos as int)->0;
            r->Ok_0@ == v && final(class_file).pos == p
        },
        r is Err ==> (r->Err_0 == VmError::UnexpectedEnd || r->Err_0
            == VmError::UnknownConstantTag || r->Err_0 == VmError::NonAsciiText),
{
    let tag_byte = match read_u8(class_file) {
        Ok(b) => b,
        Err(e) => {
            return Err(e);
        },
    };
    let tag = match cp_info_tag::try_from(tag_byte) {
        Some(t) => t,
        None => {
            return Err(VmError::UnknownConstantTag);
        },
    };
    match tag {
        cp_info_tag::CONSTANT_Utf8 => {
            let length = match read_u16(class_file) {
                Ok(n) => n,
                Err(e) => {
                    return Err(e);
                },
            };
            let raw = match read_bytes(class_file, length as usize) {
                Ok(v) => v,
                Err(e) => {
                    return Err(e);
                },
            };
            if !check_ascii(&raw) {
                return Err(VmError::NonAsciiText);
            }
            let descriptor = ascii_to_string(raw);
            Ok(
                cp_info {
                    tag,
                    info: Some(Box::new(cp_info_t::CONSTANT_Utf8_info { descriptor })),
                },
            )
        },
        cp_info_tag::CONSTANT_Integer => {
            let v = match read_u32(class_file) {
                Ok(n) => n,
                Err(e) => {
                    return Err(e);
                },
            };
            let value: i32 = if v >= 0x8000_0000 {
                proof {
                    assert(v - 0x1_0000_0000 == i32_of_u32(v as int));
                }
                (((v as i64) - 0x1_0000_0000) as i32)
            } else {
                v as i32
            };
            Ok(
                cp_info {
                    tag,
                    info: Some(Box::new(cp_info_t::CONSTANT_Integer_info { bytes: value })),
                },
            )
        },
        cp_info_tag::CONSTANT_Class => {
            let idx = match read_u16(class_file) {
                Ok(n) => n,
                Err(e) => {
                    return Err(e);
                },
            };
            Ok(
                cp_info {
                    tag,
                    info: Some(Box::new(cp_info_t::CONSTANT_Class_info { string_index: idx })),
                },
            )
        },
        cp_info_tag::CONSTANT_Fieldref | cp_info_tag::CONSTANT_Methodref => {
            let class_index = match read_u16(class_file) {
                Ok(n) => n,
                Err(e) => {
                    return Err(e);
                },
            };
            let name_and_type_index = match read_u16(class_file) {
                Ok(n) => n,
                Err(e) => {
                    return Err(e);
                },
            };
            Ok(
                cp_info {
                    tag,
                    info: Some(
                        Box::new(
                            cp_info_t::CONSTANT_FieldOrMethodref_info {
                                class_index,
                                name_and_type_index,
                            },
                        ),
                    ),
                },
            )
        },
        cp_info_tag::CONSTANT_NameAndType => {
            let name_index = match read_u16(class_file) {
                Ok(n) => n,
                Err(e) => {
                    return Err(e);
                },
            };
            let descriptor_index = match read_u16(class_file) {
                Ok(n) => n,
                Err(e) => {
                    return Err(e);
                },
            };
            Ok(
                cp_info {
                    tag,
                    info: Some(
                        Box::new(
                            cp_info_t::CONSTANT_NameAndType_info { name_index, descriptor_index },
                        ),
                    ),
                },
            )
        },
    }
}

/// The view of the sentinel slot that terminates the in-memory pool.
pub open spec fn sentinel_slot_view() -> CpInfoView {
    CpInfoView { tag: cp_info_tag::CONSTANT_Integer, info: None }
}

/// The declared number of records of a pool whose 16-bit count field is `c`:
/// one less than the count, with the wrap-around of unsigned arithmetic when
/// the count is zero.
pub open spec fn spec_pool_count(c: int) -> int {
    if c == 0 {
        0xffff
    } else {
        c - 1
    }
}

/// Reads the constant pool: a 16-bit count `c`, then `c - 1` records.  The
/// returned table carries the records in order followed by the sentinel slot.
pub fn get_constant_pool(class_file: &mut ClassFile) -> (r: Result<Vec<cp_info>, VmError>)
    ensures
        final(class_file).bytes@ == old(class_file).bytes@,
        r is Ok <==> (old(class_file).pos + 2 <= old(class_file).bytes@.len()
            && spec_parse_entries(
            old(class_file).bytes@,
            old(class_file).pos + 2,
            spec_pool_count(be16(old(class_file).bytes@, old(class_file).pos as int)),
        ) is Some),
        r is Ok ==> {
            let (vs, p) = spec_parse_entries(
                old(class_file).bytes@,
                old(class_file).pos + 2,
                spec_pool_count(be16(old(class_file).bytes@, old(class_file).pos as int)),
            )->0;
            pool_view(r->Ok_0@) == vs.push(sentinel_slot_view()) && final(class_file).pos == p
        },
{
    let ghost b = class_file.bytes@;
    let count_field = match read_u16(class_file) {
        Ok(n) => n,
        Err(e) => {
            return Err(e);
        },
    };
    let mut remaining: u16 = count_field.wrapping_sub(1);
    let ghost total = spec_pool_count(count_field as int);
    proof {
        assert(remaining == total);
    }
    let ghost start = old(class_file).pos + 2;
    let mut constant_pool: Vec<cp_info> = Vec::new();
    while remaining > 0
        invariant
            class_file.bytes@ == b,
            b == old(class_file).bytes@,
            start == old(class_file).pos + 2,
            total == spec_pool_count(be16(b, old(class_file).pos as int)),
            old(class_file).pos + 2 <= b.len(),
            remaining <= total,
            (spec_parse_entries(b, start, total) is Some) == (spec_parse_entries(
                b,
                class_file.pos as int,
                remaining as int,
            ) is Some),
            spec_parse_entries(b, start, total) is Some ==> {
                let (vs, p) = spec_parse_entries(b, start, total)->0;
                let (ws, q) = spec_parse_entries(b, class_file.pos as int, remaining as int)->0;
                vs == pool_view(constant_pool@) + ws && p == q
            },
        decreases remaining,
    {
        let ghost pos0 = class_file.pos as int;
        let constant = match parse_constant(class_file) {
            Ok(c) => c,
            Err(e) => {
                proof {
                    assert(spec_parse_entries(b, pos0, remaining as int) is None);
                }
                return Err(e);
            },
        };
        constant_pool.push(constant);
        proof {
            let (v, p1) = spec_parse_entry(b, pos0)->0;
            if spec_parse_entries(b, p1, remaining - 1) is Some {
                let (ws2, q2) = spec_parse_entries(b, p1, remaining - 1)->0;
                let (ws, q) = spec_parse_entries(b, pos0, remaining as int)->0;
                assert(ws == seq![v] + ws2);
                assert(pool_view(constant_pool@) =~= pool_view(constant_pool@.drop_last()).push(
                    constant_pool@.last()@,
                ));
                assert(pool_view(constant_pool@.drop_last()) + (seq![v] + ws2) =~= pool_view(
                    constant_pool@,
                ) + ws2);
            }
        }
        remaining = remaining - 1;
    }
    // Mark the end of the table with a payload-free slot.
    constant_pool.push(cp_info { tag: cp_info_tag::CONSTANT_Integer, info: None });
    proof {
        assert(spec_parse_entries(b, class_file.pos as int, 0) == Some(
            (Seq::<CpInfoView>::empty(), class_file.pos as int),
        ));
        let (vs, p) = spec_parse_entries(b, start, total)->0;
        assert(vs == pool_view(constant_pool@.drop_last()) + Seq::<CpInfoView>::empty());
        assert(vs =~= pool_view(constant_pool@.drop_last()));
        assert(pool_view(constant_pool@) =~= vs.push(sentinel_slot_view()));
    }
    Ok(constant_pool)
}

// ---------------------------------------------------------------------------
// Header and class info
// ---------------------------------------------------------------------------

/// Reads the magic value and the two version fields.  A wrong magic value is
/// fatal; the versions are accepted as they come.
pub fn get_class_header(class_file: &mut ClassFile) -> (r: Result<class_header_t, VmError>)
    ensures
        final(class_file).bytes@ == old(class_file).bytes@,
        r is Ok <==> (old(class_file).pos + 8 <= old(class_file).bytes@.len()
            && be32(old(class_file).bytes@, old(class_file).pos as int) == CLASS_MAGIC),
        r is Ok ==> {
            let b = old(class_file).bytes@;
            let p = old(class_file).pos as int;
            r->Ok_0 == (class_header_t {
                magic: CLASS_MAGIC,
                major_version: be16(b, p + 4) as u16,
                minor_version: be16(b, p + 6) as u16,
            }) && final(class_file).pos == old(class_file).pos + 8
        },
        r is Err ==> r->Err_0 == {
            let b = old(class_file).bytes@;
            let p = old(class_file).pos as int;
            if p + 4 > b.len() {
                VmError::UnexpectedEnd
            } else if be32(b, p) != CLASS_MAGIC {
                VmError::BadMagic
            } else {
                VmError::UnexpectedEnd
            }
        },
{
    let magic = match read_u32(class_file) {
        Ok(v) => v,
        Err(e) => {
            return Err(e);
        },
    };
    if magic != CLASS_MAGIC {
        return Err(VmError::BadMagic);
    }
    let major_version = match read_u16(class_file) {
        Ok(v) => v,
        Err(e) => {
            return Err(e);
        },
    };
    let minor_version = match read_u16(class_file) {
        Ok(v) => v,
        Err(e) => {
            return Err(e);
        },
    };
    Ok(class_header_t { magic, minor_version, major_version })
}

/// Reads the class-info block.  A class that declares interfaces or fields is
/// outside the supported dialect and is rejected.
pub fn get_class_info(class_file: &mut ClassFile) -> (r: Result<class_info_t, VmError>)
    ensures
        final(class_file).bytes@ == old(class_file).bytes@,
        r is Ok <==> {
            let b = old(class_file).bytes@;
            let p = old(class_file).pos as int;
            p + 10 <= b.len() && be16(b, p + 6) == 0 && be16(b, p + 8) == 0
        },
        r is Ok ==> {
            let b = old(class_file).bytes@;
            let p = old(class_file).pos as int;
            r->Ok_0 == (class_info_t {
                access_flags: be16(b, p) as u16,
                this_class: be16(b, p + 2) as u16,
                super_class: be16(b, p + 4) as u16,
            }) && final(class_file).pos == old(class_file).pos + 10
        },
        r is Err ==> r->Err_0 == {
            let b = old(class_file).bytes@;
            let p = old(class_file).pos as int;
            if p + 8 > b.len() {
                VmError::UnexpectedEnd
            } else if be16(b, p + 6) != 0 {
                VmError::InterfacesUnsupported
            } else if p + 10 > b.len() {
                VmError::UnexpectedEnd
            } else {
                VmError::FieldsUnsupported
            }
        },
{
    let access_flags = match read_u16(class_file) {
        Ok(v) => v,
        Err(e) => {
            return Err(e);
        },
    };
    let this_class = match read_u16(class_file) {
        Ok(v) => v,
        Err(e) => {
            return Err(e);
        },
    };
    let super_class = match read_u16(class_file) {
        Ok(v) => v,
        Err(e) => {
            return Err(e);
        },
    };
    let interfaces_count = match read_u16(class_file) {
        Ok(v) => v,
        Err(e) => {
            return Err(e);
        },
    };
    if interfaces_count != 0 {
        return Err(VmError::InterfacesUnsupported);
    }
    let fields_count = match read_u16(class_file) {
        Ok(v) => v,
        Err(e) => {
            return Err(e);
        },
    };
    if fields_count != 0 {
        return Err(VmError::FieldsUnsupported);
    }
    Ok(class_info_t { access_flags, this_class, super_class })
}

// ---------------------------------------------------------------------------
// String helpers
// ---------------------------------------------------------------------------

/// Compares two string slices character by character.
pub fn str_eq(a: &str, b: &str) -> (r: bool)
    ensures
        r == (a@ == b@),
{
    let an = a.unicode_len();
    let bn = b.unicode_len();
    if an != bn {
        return false;
    }
    let mut i: usize = 0;
    while i < an
        invariant
            i <= an,
            an == a@.len(),
            an == b@.len(),
            forall|j: int| 0 <= j < i ==> a@[j] == b@[j],
        decreases an - i,
    {
        if a.get_char(i) != b.get_char(i) {
            return false;
        }
        i = i + 1;
    }
    proof {
        assert(a@ =~= b@);
    }
    true
}

/// The position of the first occurrence of `c` at or after `i`.
pub open spec fn spec_find_char(s: Seq<char>, c: char) -> Option<int>
    decreases s.len(),
{
    if s.len() == 0 {
        None
    } else if s[0] == c {
        Some(0)
    } else {
        match spec_find_char(s.drop_first(), c) {
            None => None,
            Some(k) => Some(1 + k),
        }
    }
}

/// Every position named by `spec_find_char` holds the character, nothing
/// before it does, and a `None` means the character is absent.
pub proof fn lemma_find_char(s: Seq<char>, c: char)
    ensures
        spec_find_char(s, c) matches Some(k) ==> 0 <= k < s.len() && s[k] == c && (forall|j: int|
            0 <= j < k ==> s[j] != c),
        spec_find_char(s, c) is None ==> forall|j: int| 0 <= j < s.len() ==> s[j] != c,
    decreases s.len(),
{
    if s.len() == 0 {
    } else if s[0] == c {
    } else {
        lemma_find_char(s.drop_first(), c);
        match spec_find_char(s.drop_first(), c) {
            Some(k) => {
                assert(forall|j: int| 1 <= j < k + 1 ==> s[j] == s.drop_first()[j - 1]);
            },
            None => {
                assert(forall|j: int| 1 <= j < s.len() ==> s[j] == s.drop_first()[j - 1]);
            },
        }
    }
}

/// Finds the first occurrence of `c` in `s`, scanning from position `i`.
fn find_char_from(s: &str, c: char, i: usize) -> (r: Option<usize>)
    requires
        i <= s@.len(),
    ensures
        match spec_find_char(s@.skip(i as int), c) {
            None => r is None,
            Some(k) => r is Some && r->0 == i + k,
        },
    decreases s@.len() - i,
{
    let n = s.unicode_len();
    if i >= n {
        return None;
    }
    proof {
        assert(s@.skip(i as int)[0] == s@[i as int]);
        assert(s@.skip(i as int).drop_first() =~= s@.skip(i + 1));
    }
    if s.get_char(i) == c {
        Some(i)
    } else {
        find_char_from(s, c, i + 1)
    }
}

// ---------------------------------------------------------------------------
// Well-formedness
// ---------------------------------------------------------------------------

/// What every entry of a loaded method table satisfies: the descriptor is a
/// text constant of bounded length, and the code array is as long as its
/// declared length.
pub open spec fn method_wf(m: MethodView) -> bool {
    &&& m.descriptor matches CpEntryView::Utf8(d) && d.len() <= u16::MAX
    &&& m.code.code.len() == m.code.code_length
}

impl class_file_t {
    /// The invariant the loader establishes: the constant pool's live prefix
    /// is of bounded size and every method entry is well-formed.
    pub open spec fn wf(&self) -> bool {
        &&& spec_pool_size(pool_view(self.constant_pool@)) <= u16::MAX
        &&& forall|i: int| 0 <= i < self.methods@.len() ==> method_wf(#[trigger] self.methods@[i]@)
    }
}

// ---------------------------------------------------------------------------
// Resolution and lookup
// ---------------------------------------------------------------------------

/// Follows a method reference at 1-based `index` through the pool to its
/// name-and-type record: the slot must be a method reference whose
/// name-and-type index leads to a name-and-type record.
pub open spec fn spec_method_name_and_type(pool: Seq<CpInfoView>, index: u16) -> Option<
    (u16, u16),
> {
    let size = spec_pool_size(pool);
    if !(1 <= index <= size) {
        None
    } else if pool[index - 1].tag != cp_info_tag::CONSTANT_Methodref {
        None
    } else {
        match pool[index - 1].info {
            Some(CpEntryView::FieldOrMethodRef(_, nat_index)) => {
                if !(1 <= nat_index <= size) {
                    None
                } else if pool[nat_index - 1].tag != cp_info_tag::CONSTANT_NameAndType {
                    None
                } else {
                    match pool[nat_index - 1].info {
                        Some(CpEntryView::NameAndType(ni, di)) => Some((ni, di)),
                        _ => None,
                    }
                }
            },
            _ => None,
        }
    }
}

/// Resolves the method reference at `index` to its name-and-type record.
/// Any tag mismatch along the walk is fatal.
pub fn get_method_name_and_type(constant_pool: &Vec<cp_info>, index: u16) -> (r: Result<
    Box<cp_info_t>,
    VmError,
>)
    requires
        spec_pool_size(pool_view(constant_pool@)) <= u16::MAX,
    ensures
        r is Ok <==> spec_method_name_and_type(pool_view(constant_pool@), index) is Some,
        r is Ok ==> {
            let (ni, di) = spec_method_name_and_type(pool_view(constant_pool@), index)->0;
            r->Ok_0@ == CpEntryView::NameAndType(ni, di)
        },
        r is Err ==> (r->Err_0 == VmError::InvalidConstantIndex || r->Err_0
            == VmError::ConstantTypeMismatch),
{
    let method_constant = match get_constant(constant_pool, index) {
        Ok(c) => c,
        Err(e) => {
            return Err(e);
        },
    };
    if !matches!(method_constant.tag, cp_info_tag::CONSTANT_Methodref) {
        return Err(VmError::ConstantTypeMismatch);
    }
    let nat_index = match method_constant.info {
        Some(b) => match *b {
            cp_info_t::CONSTANT_FieldOrMethodref_info { class_index: _, name_and_type_index } => {
                name_and_type_index
            },
            _ => {
                return Err(VmError::ConstantTypeMismatch);
            },
        },
        None => {
            return Err(VmError::ConstantTypeMismatch);
        },
    };
    let name_and_type_constant = match get_constant(constant_pool, nat_index) {
        Ok(c) => c,
        Err(e) => {
            return Err(e);
        },
    };
    if !matches!(name_and_type_constant.tag, cp_info_tag::CONSTANT_NameAndType) {
        return Err(VmError::ConstantTypeMismatch);
    }
    match name_and_type_constant.info {
        Some(b) => {
            if matches!(*b, cp_info_t::CONSTANT_NameAndType_info { .. }) {
                Ok(b)
            } else {
                Err(VmError::ConstantTypeMismatch)
            }
        },
        None => Err(VmError::ConstantTypeMismatch),
    }
}

/// The parameter count of the characters between the parentheses of a
/// descriptor: one per character, except that an array marker `[` adds
/// nothing (the element type character that follows it counts).
pub open spec fn spec_count_params(s: Seq<char>) -> int
    decreases s.len(),
{
    if s.len() == 0 {
        0
    } else {
        spec_count_params(s.drop_last()) + if s.last() == '[' {
            0int
        } else {
            1int
        }
    }
}

/// The parameter count never exceeds the character count.
pub proof fn lemma_count_params_bounds(s: Seq<char>)
    ensures
        0 <= spec_count_params(s) <= s.len(),
    decreases s.len(),
{
    if s.len() > 0 {
        lemma_count_params_bounds(s.drop_last());
    }
}

/// The parameter count of a whole descriptor: the count of the characters
/// strictly between the first `(` and the first `)`, or nothing when either
/// parenthesis is missing.
pub open spec fn spec_param_count(desc: Seq<char>) -> Option<int> {
    match (spec_find_char(desc, '('), spec_find_char(desc, ')')) {
        (Some(s), Some(e)) => {
            if s + 1 <= e {
                Some(spec_count_params(desc.subrange(s + 1, e)))
            } else {
                Some(0)
            }
        },
        _ => None,
    }
}

/// Counts the parameters encoded by a method's descriptor.  The descriptor
/// must be a text constant holding a parenthesized parameter list.
pub fn get_number_of_parameters(method: &method_t) -> (r: Result<u16, VmError>)
    requires
        method@.descriptor matches CpEntryView::Utf8(d) ==> d.len() <= u16::MAX,
    ensures
        r is Ok <==> (method@.descriptor matches CpEntryView::Utf8(d) && spec_param_count(d)
            is Some),
        r is Ok ==> (method@.descriptor matches CpEntryView::Utf8(d) && r->Ok_0
            == spec_param_count(d)->0),
        r is Err ==> (r->Err_0 == VmError::ConstantTypeMismatch <==> !(method@.descriptor
            is Utf8)),
        r is Err ==> (r->Err_0 == VmError::ConstantTypeMismatch || r->Err_0
            == VmError::BadDescriptor),
{
    let d: &String = match &method.descriptor {
        cp_info_t::CONSTANT_Utf8_info { descriptor } => descriptor,
        _ => {
            return Err(VmError::ConstantTypeMismatch);
        },
    };
    let ds: &str = d.as_str();
    let start = match find_char_from(ds, '(', 0) {
        Some(i) => i,
        None => {
            proof {
                assert(ds@.skip(0) =~= ds@);
            }
            return Err(VmError::BadDescriptor);
        },
    };
    let end = match find_char_from(ds, ')', 0) {
        Some(i) => i,
        None => {
            proof {
                assert(ds@.skip(0) =~= ds@);
            }
            return Err(VmError::BadDescriptor);
        },
    };
    proof {
        assert(ds@.skip(0) =~= ds@);
        lemma_find_char(ds@, '(');
        lemma_find_char(ds@, ')');
    }
    if start + 1 > end {
        return Ok(0);
    }
    let mut params: u16 = 0;
    let mut i: usize = start + 1;
    while i < end
        invariant
            start + 1 <= i <= end,
            end < ds@.len() <= u16::MAX,
            params == spec_count_params(ds@.subrange(start + 1, i as int)),
        decreases end - i,
    {
        proof {
            lemma_count_params_bounds(ds@.subrange(start + 1, i as int));
            assert(ds@.subrange(start + 1, i + 1).drop_last() =~= ds@.subrange(
                start + 1,
                i as int,
            ));
        }
        if s_get_char(ds, i) != '[' {
            params = params + 1;
        }
        i = i + 1;
    }
    Ok(params)
}

/// Reads one character of an ASCII-indexed string.
fn s_get_char(s: &str, i: usize) -> (c: char)
    requires
        i < s@.len(),
    ensures
        c == s@[i as int],
{
    s.get_char(i)
}

/// The first live entry of the method table, scanned in order up to the
/// sentinel, whose name and whose descriptor text equal the given ones.
pub open spec fn spec_find_method(ms: Seq<MethodView>, name: Seq<char>, desc: Seq<char>) -> Option<
    MethodView,
>
    decreases ms.len(),
{
    if ms.len() == 0 {
        None
    } else if ms[0].name.len() == 0 {
        None
    } else if ms[0].name == name && (ms[0].descriptor matches CpEntryView::Utf8(d) && d == desc) {
        Some(ms[0])
    } else {
        spec_find_method(ms.drop_first(), name, desc)
    }
}

/// Looks a method up by name and descriptor: a linear scan by exact string
/// equality on both, stopping at the sentinel entry with the empty name.
pub fn find_method(name: &str, descriptor: &str, class: &class_file_t) -> (r: Option<method_t>)
    requires
        class.wf(),
    ensures
        match spec_find_method(class@.methods, name@, descriptor@) {
            None => r is None,
            Some(mv) => r matches Some(m) && m@ == mv,
        },
{
    let ghost ms = class@.methods;
    proof {
        assert(ms.skip(0) =~= ms);
    }
    let mut i: usize = 0;
    while i < class.methods.len()
        invariant
            class.wf(),
            ms == class@.methods,
            0 <= i <= ms.len(),
            spec_find_method(ms, name@, descriptor@) == spec_find_method(
                ms.skip(i as int),
                name@,
                descriptor@,
            ),
        decreases ms.len() - i,
    {
        let method = &class.methods[i];
        proof {
            assert(ms.skip(i as int)[0] == ms[i as int]);
            assert(ms.skip(i as int).drop_first() =~= ms.skip(i + 1));
            assert(method@ == ms[i as int]);
        }
        if method.name.as_str().unicode_len() == 0 {
            return None;
        }
        if str_eq(method.name.as_str(), name) {
            let matches_desc = match &method.descriptor {
                cp_info_t::CONSTANT_Utf8_info { descriptor: d } => {
                    str_eq(d.as_str(), descriptor)
                },
                _ => false,
            };
            if matches_desc {
                return Some(method.clone());
            }
        }
        i = i + 1;
    }
    None
}

/// The name and descriptor text a method reference resolves to: the
/// name-and-type record's two indices must both lead to text constants.
pub open spec fn spec_resolved_name_and_desc(pool: Seq<CpInfoView>, index: u16) -> Option<
    (Seq<char>, Seq<char>),
> {
    match spec_method_name_and_type(pool, index) {
        None => None,
        Some((ni, di)) => {
            let size = spec_pool_size(pool);
            if !(1 <= ni <= size && 1 <= di <= size) {
                None
            } else if pool[ni - 1].tag != cp_info_tag::CONSTANT_Utf8 || pool[di - 1].tag
                != cp_info_tag::CONSTANT_Utf8 {
                None
            } else {
                match (pool[ni - 1].info, pool[di - 1].info) {
                    (Some(CpEntryView::Utf8(n)), Some(CpEntryView::Utf8(d))) => Some((n, d)),
                    _ => None,
                }
            }
        },
    }
}

/// Resolves the method reference at 1-based pool index `index` to a name and
/// a descriptor, then looks that method up in the table.  Resolution failure
/// is fatal; a missing method is an ordinary `None`.
pub fn find_method_from_index(index: u16, class: &class_file_t) -> (r: Result<
    Option<method_t>,
    VmError,
>)
    requires
        class.wf(),
    ensures
        r is Ok <==> spec_resolved_name_and_desc(pool_view(class.constant_pool@), index) is Some,
        r is Ok ==> {
            let (n, d) = spec_resolved_name_and_desc(pool_view(class.constant_pool@), index)->0;
            match spec_find_method(class@.methods, n, d) {
                None => r->Ok_0 is None,
                Some(mv) => r->Ok_0 matches Some(m) && m@ == mv,
            }
        },
        r is Err ==> (r->Err_0 == VmError::InvalidConstantIndex || r->Err_0
            == VmError::ConstantTypeMismatch),
{
    let nat_info = match get_method_name_and_type(&class.constant_pool, index) {
        Ok(b) => b,
        Err(e) => {
            return Err(e);
        },
    };
    let (name_index, descriptor_index) = match *nat_info {
        cp_info_t::CONSTANT_NameAndType_info { name_index, descriptor_index } => {
            (name_index, descriptor_index)
        },
        _ => {
            return Err(VmError::ConstantTypeMismatch);
        },
    };
    let name = match get_constant(&class.constant_pool, name_index) {
        Ok(c) => c,
        Err(e) => {
            return Err(e);
        },
    };
    if !matches!(name.tag, cp_info_tag::CONSTANT_Utf8) {
        return Err(VmError::ConstantTypeMismatch);
    }
    let descriptor = match get_constant(&class.constant_pool, descriptor_index) {
        Ok(c) => c,
        Err(e) => {
            return Err(e);
        },
    };
    if !matches!(descriptor.tag, cp_info_tag::CONSTANT_Utf8) {
        return Err(VmError::ConstantTypeMismatch);
    }
    let n_string = match name.info {
        Some(b) => match *b {
            cp_info_t::CONSTANT_Utf8_info { descriptor: s } => s,
            _ => {
                return Err(VmError::ConstantTypeMismatch);
            },
        },
        None => {
            return Err(VmError::ConstantTypeMismatch);
        },
    };
    let d_string = match descriptor.info {
        Some(b) => match *b {
            cp_info_t::CONSTANT_Utf8_info { descriptor: s } => s,
            _ => {
                return Err(VmError::ConstantTypeMismatch);
            },
        },
        None => {
            return Err(VmError::ConstantTypeMismatch);
        },
    };
    Ok(find_method(n_string.as_str(), d_string.as_str(), class))
}


// ---------------------------------------------------------------------------
// Method attributes
// ---------------------------------------------------------------------------

/// `n` attribute records in a row starting at `pos`, when all of them parse:
/// the code attribute found among them, if any, and the position just past
/// the last record.  Each record is a name index that must resolve to a text
/// constant, a 32-bit length, and a body that is skipped unless the name is
/// `Code`; two code attributes are an error, as is a body extending past the
/// end of the stream.
pub open spec fn spec_parse_attributes(
    b: Seq<u8>,
    pos: int,
    n: int,
    pool: Seq<CpInfoView>,
) -> Option<(Option<CodeView>, int)>
    decreases n,
{
    if n <= 0 {
        Some((None, pos))
    } else if !(0 <= pos && pos + 6 <= b.len()) {
        None
    } else {
        let name_index = be16(b, pos);
        let length = be32(b, pos + 2);
        let body = pos + 6;
        let end = body + length;
        let size = spec_pool_size(pool);
        if !(1 <= name_index <= size) {
            None
        } else if pool[name_index - 1].tag != cp_info_tag::CONSTANT_Utf8 {
            None
        } else if end > b.len() {
            None
        } else {
            let name = match pool[name_index - 1].info {
                Some(CpEntryView::Utf8(s)) => s,
                _ => Seq::<char>::empty(),
            };
            if name == "Code"@ {
                if body + 8 > b.len() {
                    None
                } else {
                    let cl = be32(b, body + 4);
                    if body + 8 + cl > b.len() {
                        None
                    } else {
                        let cv = CodeView {
                            max_stack: be16(b, body) as u16,
                            max_locals: be16(b, body + 2) as u16,
                            code_length: cl as u32,
                            code: b.subrange(body + 8, body + 8 + cl),
                        };
                        match spec_parse_attributes(b, end, n - 1, pool) {
                            None => None,
                            Some((rest, q)) => if rest is Some {
                                None
                            } else {
                                Some((Some(cv), q))
                            },
                        }
                    }
                }
            } else {
                spec_parse_attributes(b, end, n - 1, pool)
            }
        }
    }
}

/// True when the attribute records parse and exactly one of them is a code
/// attribute.
pub open spec fn spec_attrs_ok(b: Seq<u8>, pos: int, n: int, pool: Seq<CpInfoView>) -> bool {
    match spec_parse_attributes(b, pos, n, pool) {
        Some((c, _)) => c is Some,
        None => false,
    }
}

/// Reads the `info.attributes_count` attribute records of one method into
/// `code`.  Exactly one code attribute must be present: none is as fatal as
/// two.  Unrecognized attributes are skipped past their declared length.
pub fn read_method_attributes(
    class_file: &mut ClassFile,
    info: &method_info,
    code: &mut code_t,
    constant_pool: &Vec<cp_info>,
) -> (r: Result<(), VmError>)
    requires
        spec_pool_size(pool_view(constant_pool@)) <= u16::MAX,
    ensures
        final(class_file).bytes@ == old(class_file).bytes@,
        r is Ok <==> spec_attrs_ok(
            old(class_file).bytes@,
            old(class_file).pos as int,
            info.attributes_count as int,
            pool_view(constant_pool@),
        ),
        r is Ok ==> {
            let (c, q) = spec_parse_attributes(
                old(class_file).bytes@,
                old(class_file).pos as int,
                info.attributes_count as int,
                pool_view(constant_pool@),
            )->0;
            final(code)@ == c->0 && final(class_file).pos == q
        },
{
    let ghost b = class_file.bytes@;
    let ghost pv = pool_view(constant_pool@);
    let ghost start = class_file.pos as int;
    let ghost total = info.attributes_count as int;
    let mut found_code: bool = false;
    let mut attributes: u16 = info.attributes_count;
    proof {
        reveal_strlit("Code");
    }
    while attributes > 0
        invariant
            class_file.bytes@ == b,
            b == old(class_file).bytes@,
            start == old(class_file).pos,
            total == info.attributes_count,
            pv == pool_view(constant_pool@),
            spec_pool_size(pv) <= u16::MAX,
            attributes <= total,
            "Code"@.len() == 4,
            (spec_parse_attributes(b, start, total, pv) is Some) == ({
                let r = spec_parse_attributes(b, class_file.pos as int, attributes as int, pv);
                r is Some && !(found_code && (r->0).0 is Some)
            }),
            spec_parse_attributes(b, start, total, pv) is Some ==> ({
                let (c2, q2) = spec_parse_attributes(
                    b,
                    class_file.pos as int,
                    attributes as int,
                    pv,
                )->0;
                let (c0, q0) = spec_parse_attributes(b, start, total, pv)->0;
                q0 == q2 && c0 == (if found_code {
                    Some(code@)
                } else {
                    c2
                })
            }),
        decreases attributes,
    {
        let ghost pos0 = class_file.pos as int;
        let name_index = match read_u16(class_file) {
            Ok(v) => v,
            Err(e) => {
                return Err(e);
            },
        };
        let attribute_length = match read_u32(class_file) {
            Ok(v) => v,
            Err(e) => {
                return Err(e);
            },
        };
        let type_constant = match get_constant(constant_pool, name_index) {
            Ok(c) => c,
            Err(e) => {
                return Err(e);
            },
        };
        if !matches!(type_constant.tag, cp_info_tag::CONSTANT_Utf8) {
            return Err(VmError::ConstantTypeMismatch);
        }
        if attribute_length as usize > class_file.bytes.len() || class_file.pos
            > class_file.bytes.len() - attribute_length as usize {
            return Err(VmError::UnexpectedEnd);
        }
        let attribute_end = class_file.pos + attribute_length as usize;
        let is_code = match &type_constant.info {
            Some(boxed) => match &**boxed {
                cp_info_t::CONSTANT_Utf8_info { descriptor } => {
                    str_eq(descriptor.as_str(), "Code")
                },
                _ => false,
            },
            None => false,
        };
        proof {
            assert(type_constant@ == pv[name_index - 1]);
        }
        if is_code {
            if found_code {
                return Err(VmError::DuplicateCode);
            }
            code.max_stack = match read_u16(class_file) {
                Ok(v) => v,
                Err(e) => {
                    return Err(e);
                },
            };
            code.max_locals = match read_u16(class_file) {
                Ok(v) => v,
                Err(e) => {
                    return Err(e);
                },
            };
            code.code_length = match read_u32(class_file) {
                Ok(v) => v,
                Err(e) => {
                    return Err(e);
                },
            };
            code.code = match read_bytes(class_file, code.code_length as usize) {
                Ok(v) => v,
                Err(e) => {
                    return Err(e);
                },
            };
            found_code = true;
        }
        // Skip the rest of the attribute.
        class_file.pos = attribute_end;
        attributes = attributes - 1;
    }
    if !found_code {
        return Err(VmError::MissingCode);
    }
    Ok(())
}

// ---------------------------------------------------------------------------
// Methods
// ---------------------------------------------------------------------------

/// The view of the sentinel entry that terminates the in-memory method table.
pub open spec fn sentinel_method_view() -> MethodView {
    MethodView {
        name: Seq::<char>::empty(),
        descriptor: CpEntryView::Utf8(Seq::<char>::empty()),
        code: CodeView { max_stack: 0, max_locals: 0, code_length: 0, code: Seq::<u8>::empty() },
    }
}

/// One method record at `pos`, and the position just past it, when the bytes
/// from `pos` form one: four 16-bit fields, a name index and a descriptor
/// index that resolve to text constants, the static access flag (waived for
/// the constructor), and the method's attributes with their one code
/// attribute.
pub open spec fn spec_parse_method(b: Seq<u8>, pos: int, pool: Seq<CpInfoView>) -> Option<
    (MethodView, int),
> {
    if !(0 <= pos && pos + 8 <= b.len()) {
        None
    } else {
        let access_flags = be16(b, pos) as u16;
        let name_index = be16(b, pos + 2);
        let descriptor_index = be16(b, pos + 4);
        let attributes_count = be16(b, pos + 6);
        let size = spec_pool_size(pool);
        if !(1 <= name_index <= size) {
            None
        } else if pool[name_index - 1].tag != cp_info_tag::CONSTANT_Utf8 {
            None
        } else {
            match pool[name_index - 1].info {
                Some(CpEntryView::Utf8(name)) => {
                    if !(1 <= descriptor_index <= size) {
                        None
                    } else if pool[descriptor_index - 1].tag != cp_info_tag::CONSTANT_Utf8 {
                        None
                    } else if pool[descriptor_index - 1].info is None {
                        None
                    } else {
                        let descriptor = pool[descriptor_index - 1].info->0;
                        if name != "<init>"@ && access_flags & IS_STATIC == 0 {
                            None
                        } else {
                            match spec_parse_attributes(b, pos + 8, attributes_count, pool) {
                                Some((Some(cv), q)) => Some(
                                    (MethodView { name, descriptor, code: cv }, q),
                                ),
                                _ => None,
                            }
                        }
                    }
                },
                _ => None,
            }
        }
    }
}

/// `n` method records in a row starting at `pos`, and the position just past
/// the last, when all of them parse.
pub open spec fn spec_parse_methods(b: Seq<u8>, pos: int, n: int, pool: Seq<CpInfoView>) -> Option<
    (Seq<MethodView>, int),
>
    decreases n,
{
    if n <= 0 {
        Some((Seq::<MethodView>::empty(), pos))
    } else {
        match spec_parse_method(b, pos, pool) {
            None => None,
            Some((m, p)) => match spec_parse_methods(b, p, n - 1, pool) {
                None => None,
                Some((ms, q)) => Some((seq![m] + ms, q)),
            },
        }
    }
}

/// Reads one method record.
fn parse_method(class_file: &mut ClassFile, constant_pool: &Vec<cp_info>) -> (r: Result<
    method_t,
    VmError,
>)
    requires
        spec_pool_size(pool_view(constant_pool@)) <= u16::MAX,
    ensures
        final(class_file).bytes@ == old(class_file).bytes@,
        r is Ok <==> spec_parse_method(
            old(class_file).bytes@,
            old(class_file).pos as int,
            pool_view(constant_pool@),
        ) is Some,
        r is Ok ==> {
            let (m, p) = spec_parse_method(
                old(class_file).bytes@,
                old(class_file).pos as int,
                pool_view(constant_pool@),
            )->0;
            r->Ok_0@ == m && final(class_file).pos == p
        },
{
    let ghost b = class_file.bytes@;
    let ghost pv = pool_view(constant_pool@);
    let ghost pos0 = class_file.pos as int;
    proof {
        reveal_strlit("<init>");
    }
    let mut info = method_info {
        access_flags: 0,
        name_index: 0,
        descriptor_index: 0,
        attributes_count: 0,
    };
    info.access_flags = match read_u16(class_file) {
        Ok(v) => v,
        Err(e) => {
            return Err(e);
        },
    };
    info.name_index = match read_u16(class_file) {
        Ok(v) => v,
        Err(e) => {
            return Err(e);
        },
    };
    info.descriptor_index = match read_u16(class_file) {
        Ok(v) => v,
        Err(e) => {
            return Err(e);
        },
    };
    info.attributes_count = match read_u16(class_file) {
        Ok(v) => v,
        Err(e) => {
            return Err(e);
        },
    };
    let name_constant = match get_constant(constant_pool, info.name_index) {
        Ok(c) => c,
        Err(e) => {
            return Err(e);
        },
    };
    if !matches!(name_constant.tag, cp_info_tag::CONSTANT_Utf8) {
        return Err(VmError::ConstantTypeMismatch);
    }
    let name = match name_constant.info {
        Some(boxed) => match *boxed {
            cp_info_t::CONSTANT_Utf8_info { descriptor } => descriptor,
            _ => {
                return Err(VmError::ConstantTypeMismatch);
            },
        },
        None => {
            return Err(VmError::ConstantTypeMismatch);
        },
    };
    let descriptor_constant = match get_constant(constant_pool, info.descriptor_index) {
        Ok(c) => c,
        Err(e) => {
            return Err(e);
        },
    };
    if !matches!(descriptor_constant.tag, cp_info_tag::CONSTANT_Utf8) {
        return Err(VmError::ConstantTypeMismatch);
    }
    let descriptor = match descriptor_constant.info {
        Some(boxed) => *boxed,
        None => {
            return Err(VmError::ConstantTypeMismatch);
        },
    };
    // Only static methods run on this machine; the constructor the source
    // compiler emits is parsed but never invoked, so it is let through.
    if !str_eq(name.as_str(), "<init>") {
        if info.access_flags & IS_STATIC == 0 {
            return Err(VmError::NonStaticMethod);
        }
    }
    let mut code = code_t { max_stack: 0, max_locals: 0, code_length: 0, code: Vec::new() };
    match read_method_attributes(class_file, &info, &mut code, constant_pool) {
        Ok(()) => {},
        Err(e) => {
            return Err(e);
        },
    }
    Ok(method_t { name, descriptor, code })
}

/// Reads the method table: a 16-bit count, then that many method records.
/// The returned table carries the records in order followed by the sentinel
/// entry with the empty name.
pub fn get_methods(class_file: &mut ClassFile, constant_pool: &Vec<cp_info>) -> (r: Result<
    Vec<method_t>,
    VmError,
>)
    requires
        spec_pool_size(pool_view(constant_pool@)) <= u16::MAX,
    ensures
        final(class_file).bytes@ == old(class_file).bytes@,
        r is Ok <==> (old(class_file).pos + 2 <= old(class_file).bytes@.len()
            && spec_parse_methods(
            old(class_file).bytes@,
            old(class_file).pos + 2,
            be16(old(class_file).bytes@, old(class_file).pos as int),
            pool_view(constant_pool@),
        ) is Some),
        r is Ok ==> {
            let (ms, q) = spec_parse_methods(
                old(class_file).bytes@,
                old(class_file).pos + 2,
                be16(old(class_file).bytes@, old(class_file).pos as int),
                pool_view(constant_pool@),
            )->0;
            r->Ok_0@.map_values(|m: method_t| m@) == ms.push(sentinel_method_view())
                && final(class_file).pos == q
        },
{
    let ghost b = class_file.bytes@;
    let ghost pv = pool_view(constant_pool@);
    let mut method_count: u16 = match read_u16(class_file) {
        Ok(v) => v,
        Err(e) => {
            return Err(e);
        },
    };
    let ghost total = method_count as int;
    let ghost start = class_file.pos as int;
    let mut methods: Vec<method_t> = Vec::new();
    while method_count > 0
        invariant
            class_file.bytes@ == b,
            b == old(class_file).bytes@,
            start == old(class_file).pos + 2,
            total == be16(b, old(class_file).pos as int),
            old(class_file).pos + 2 <= b.len(),
            pv == pool_view(constant_pool@),
            spec_pool_size(pv) <= u16::MAX,
            method_count <= total,
            (spec_parse_methods(b, start, total, pv) is Some) == (spec_parse_methods(
                b,
                class_file.pos as int,
                method_count as int,
                pv,
            ) is Some),
            spec_parse_methods(b, start, total, pv) is Some ==> {
                let (ms, p) = spec_parse_methods(b, start, total, pv)->0;
                let (ws, q) = spec_parse_methods(
                    b,
                    class_file.pos as int,
                    method_count as int,
                    pv,
                )->0;
                ms == methods@.map_values(|m: method_t| m@) + ws && p == q
            },
        decreases method_count,
    {
        let ghost pos0 = class_file.pos as int;
        let method = match parse_method(class_file, constant_pool) {
            Ok(m) => m,
            Err(e) => {
                proof {
                    assert(spec_parse_methods(b, pos0, method_count as int, pv) is None);
                }
                return Err(e);
            },
        };
        methods.push(method);
        proof {
            let (v, p1) = spec_parse_method(b, pos0, pv)->0;
            if spec_parse_methods(b, p1, method_count - 1, pv) is Some {
                let (ws2, q2) = spec_parse_methods(b, p1, method_count - 1, pv)->0;
                let (ws, q) = spec_parse_methods(b, pos0, method_count as int, pv)->0;
                assert(ws == seq![v] + ws2);
                assert(methods@.map_values(|m: method_t| m@) =~= methods@.drop_last().map_values(
                    |m: method_t| m@,
                ).push(methods@.last()@));
                assert(methods@.drop_last().map_values(|m: method_t| m@) + (seq![v] + ws2)
                    =~= methods@.map_values(|m: method_t| m@) + ws2);
            }
        }
        method_count = method_count - 1;
    }
    // Mark the end of the table with an empty-name entry.
    methods.push(
        method_t {
            name: String::new(),
            descriptor: cp_info_t::CONSTANT_Utf8_info { descriptor: String::new() },
            code: code_t { max_stack: 0, max_locals: 0, code_length: 0, code: Vec::new() },
        },
    );
    proof {
        assert(spec_parse_methods(b, class_file.pos as int, 0, pv) == Some(
            (Seq::<MethodView>::empty(), class_file.pos as int),
        ));
        let (ms, p) = spec_parse_methods(b, start, total, pv)->0;
        assert(ms =~= methods@.drop_last().map_values(|m: method_t| m@));
        assert(methods@.map_values(|m: method_t| m@) =~= ms.push(sentinel_method_view()));
    }
    Ok(methods)
}


// ---------------------------------------------------------------------------
// The whole class file
// ---------------------------------------------------------------------------

/// What holds of every slot the pool parser produces: a payload is present,
/// and a text-tagged slot holds a text payload of at most 65535 characters.
pub open spec fn pool_slot_consistent(s: CpInfoView) -> bool {
    &&& s.info is Some
    &&& s.tag == cp_info_tag::CONSTANT_Utf8 ==> (s.info matches Some(CpEntryView::Utf8(t))
        && t.len() <= u16::MAX)
}

/// Every record the pool parser accepts is consistent, and it accepts
/// exactly as many as asked.
pub proof fn lemma_entries_consistent(b: Seq<u8>, pos: int, n: int)
    ensures
        spec_parse_entries(b, pos, n) matches Some((vs, p)) ==> (vs.len() == (if n <= 0 {
            0int
        } else {
            n
        }) && forall|i: int| 0 <= i < vs.len() ==> pool_slot_consistent(#[trigger] vs[i])),
    decreases n,
{
    if n <= 0 {
    } else {
        match spec_parse_entry(b, pos) {
            None => {},
            Some((v, p)) => {
                lemma_entries_consistent(b, p, n - 1);
                match spec_parse_entries(b, p, n - 1) {
                    None => {},
                    Some((vs2, q)) => {
                        assert(pool_slot_consistent(v));
                        assert(forall|i: int|
                            1 <= i < (seq![v] + vs2).len() ==> (seq![v] + vs2)[i] == vs2[i - 1]);
                    },
                }
            },
        }
    }
}

/// A pool whose first `k` slots hold payloads, ended there by a sentinel or
/// by the end of the table, has size exactly `k`.
pub proof fn lemma_pool_size_exact(pool: Seq<CpInfoView>, k: int)
    requires
        0 <= k <= pool.len(),
        forall|j: int| 0 <= j < k ==> (#[trigger] pool[j]).info is Some,
        k < pool.len() ==> pool[k].info is None,
    ensures
        spec_pool_size(pool) == k,
    decreases pool.len(),
{
    if pool.len() == 0 {
    } else if k == 0 {
    } else {
        assert(pool[0].info is Some);
        lemma_pool_size_exact(pool.drop_first(), k - 1);
    }
}

/// The code attribute the attribute parser finds is internally consistent:
/// its code array is as long as its declared length.
pub proof fn lemma_attrs_code_wf(b: Seq<u8>, pos: int, n: int, pool: Seq<CpInfoView>)
    ensures
        spec_parse_attributes(b, pos, n, pool) matches Some((c, q)) ==> (c matches Some(cv)
            ==> cv.code.len() == cv.code_length),
    decreases n,
{
    if n <= 0 {
    } else if !(0 <= pos && pos + 6 <= b.len()) {
    } else {
        let end = pos + 6 + be32(b, pos + 2);
        lemma_attrs_code_wf(b, end, n - 1, pool);
    }
}

/// Every method the method parser accepts is well-formed, provided the pool
/// it resolves names through is consistent.
pub proof fn lemma_methods_wf(b: Seq<u8>, pos: int, n: int, pool: Seq<CpInfoView>)
    requires
        forall|i: int| 0 <= i < pool.len() ==> (#[trigger] pool[i]).tag
            == cp_info_tag::CONSTANT_Utf8 ==> (pool[i].info matches Some(CpEntryView::Utf8(t))
            && t.len() <= u16::MAX),
    ensures
        spec_parse_methods(b, pos, n, pool) matches Some((ms, q)) ==> forall|i: int|
            0 <= i < ms.len() ==> method_wf(#[trigger] ms[i]),
    decreases n,
{
    if n <= 0 {
    } else {
        match spec_parse_method(b, pos, pool) {
            None => {},
            Some((m, p)) => {
                lemma_methods_wf(b, p, n - 1, pool);
                lemma_pool_size_bounds(pool);
                lemma_attrs_code_wf(b, pos + 8, be16(b, pos + 6), pool);
                match spec_parse_methods(b, p, n - 1, pool) {
                    None => {},
                    Some((ms2, q)) => {
                        assert(method_wf(m));
                        assert(forall|i: int|
                            1 <= i < (seq![m] + ms2).len() ==> (seq![m] + ms2)[i] == ms2[i - 1]);
                    },
                }
            },
        }
    }
}

/// The structured value of a whole class file: header, constant pool, class
/// info with no interfaces and no fields, and the method table, in that
/// order, each table closed by its sentinel.
pub open spec fn spec_parse_class(b: Seq<u8>, pos: int) -> Option<ClassView> {
    if !(0 <= pos && pos + 8 <= b.len() && be32(b, pos) == CLASS_MAGIC) {
        None
    } else {
        let p1 = pos + 8;
        if p1 + 2 > b.len() {
            None
        } else {
            match spec_parse_entries(b, p1 + 2, spec_pool_count(be16(b, p1))) {
                None => None,
                Some((vs, p2)) => {
                    let pool = vs.push(sentinel_slot_view());
                    if !(p2 + 10 <= b.len() && be16(b, p2 + 6) == 0 && be16(b, p2 + 8) == 0) {
                        None
                    } else {
                        let p3 = p2 + 10;
                        if p3 + 2 > b.len() {
                            None
                        } else {
                            match spec_parse_methods(b, p3 + 2, be16(b, p3), pool) {
                                None => None,
                                Some((ms, _)) => Some(
                                    ClassView {
                                        constant_pool: pool,
                                        methods: ms.push(sentinel_method_view()),
                                    },
                                ),
                            }
                        }
                    }
                },
            }
        }
    }
}

/// Parses a whole class file from the reader's position: the header (whose
/// versions are skipped), the constant pool, the class info (whose fields are
/// skipped once checked), and the method table.  The result is well-formed.
pub fn get_class(class_file: &mut ClassFile) -> (r: Result<class_file_t, VmError>)
    ensures
        final(class_file).bytes@ == old(class_file).bytes@,
        r is Ok <==> spec_parse_class(old(class_file).bytes@, old(class_file).pos as int) is Some,
        r is Ok ==> r->Ok_0@ == spec_parse_class(
            old(class_file).bytes@,
            old(class_file).pos as int,
        )->0 && r->Ok_0.wf(),
{
    let ghost b = class_file.bytes@;
    let ghost pos0 = class_file.pos as int;
    match get_class_header(class_file) {
        Ok(_) => {},
        Err(e) => {
            return Err(e);
        },
    }
    let ghost p1 = class_file.pos as int;
    let constant_pool = match get_constant_pool(class_file) {
        Ok(p) => p,
        Err(e) => {
            return Err(e);
        },
    };
    proof {
        lemma_entries_consistent(b, p1 + 2, spec_pool_count(be16(b, p1)));
        let (vs, p2) = spec_parse_entries(b, p1 + 2, spec_pool_count(be16(b, p1)))->0;
        assert(pool_view(constant_pool@) == vs.push(sentinel_slot_view()));
        assert(forall|j: int|
            0 <= j < vs.len() ==> (#[trigger] vs.push(sentinel_slot_view())[j]) == vs[j]);
        lemma_pool_size_exact(pool_view(constant_pool@), vs.len() as int);
    }
    match get_class_info(class_file) {
        Ok(_) => {},
        Err(e) => {
            return Err(e);
        },
    }
    let ghost p3 = class_file.pos as int;
    let methods = match get_methods(class_file, &constant_pool) {
        Ok(m) => m,
        Err(e) => {
            return Err(e);
        },
    };
    let class = class_file_t { constant_pool, methods };
    proof {
        let pool = pool_view(class.constant_pool@);
        lemma_methods_wf(b, p3 + 2, be16(b, p3), pool);
        let (ms, q) = spec_parse_methods(b, p3 + 2, be16(b, p3), pool)->0;
        assert(class@.methods == ms.push(sentinel_method_view()));
        assert(forall|j: int|
            0 <= j < ms.len() ==> (#[trigger] ms.push(sentinel_method_view())[j]) == ms[j]);
        assert(method_wf(sentinel_method_view()));
        assert forall|i: int| 0 <= i < class.methods@.len() implies method_wf(
            #[trigger] class.methods@[i]@,
        ) by {
            assert(class.methods@[i]@ == class@.methods[i]);
            if i < ms.len() {
                assert(class@.methods[i] == ms[i]);
            } else {
                assert(class@.methods[i] == sentinel_method_view());
            }
        }
        assert(class.wf());
    }
    Ok(class)
}


/// A found method is one of the table's entries.
pub proof fn lemma_find_method_is_element(ms: Seq<MethodView>, name: Seq<char>, desc: Seq<char>)
    ensures
        spec_find_method(ms, name, desc) matches Some(mv) ==> exists|i: int|
            0 <= i < ms.len() && ms[i] == mv,
    decreases ms.len(),
{
    if ms.len() == 0 {
    } else if ms[0].name.len() == 0 {
    } else if ms[0].name == name && (ms[0].descriptor matches CpEntryView::Utf8(d) && d == desc) {
        assert(ms[0] == ms[0]);
    } else {
        lemma_find_method_is_element(ms.drop_first(), name, desc);
        match spec_find_method(ms.drop_first(), name, desc) {
            Some(mv) => {
                let i = choose|i: int|
                    0 <= i < ms.drop_first().len() && ms.drop_first()[i] == mv;
                assert(ms[i + 1] == mv);
            },
            None => {},
        }
    }
}

} // verus!
