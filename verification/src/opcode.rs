//! The supported instruction set and the semantic handler of each opcode.
//!
//! Every handler advances the program counter past the instruction and its
//! operands, manipulates the bounded operand stack, and reports any failure
//! (stack overflow or underflow, a missing operand byte, division by zero, an
//! array access out of bounds) as a [`VmError`].  Numeric instructions wrap on
//! overflow, as fixed-width signed 32-bit arithmetic does.

use vstd::prelude::*;

use crate::read_class::{class_file_t, cp_info, cp_info_t, cp_info_tag, method_t};
use crate::stack::{stack_is_full, stack_pop, stack_push, stack_t};
use crate::VmError;

verus! {

/// How many operand bytes a branch or field instruction carries.
pub const TWO_OPERAND_OFFSET: usize = 2;

/// The heap: an append-only store of integer arrays, addressed by position.
pub type heap_t = Vec<Vec<i32>>;

/// The closed set of instructions this machine executes.
#[derive(Clone, Copy, Debug, PartialEq, Eq, Structural)]
pub enum jvm_instruction_t {
    i_nop,
    i_iconst_m1,
    i_iconst_0,
    i_iconst_1,
    i_iconst_2,
    i_iconst_3,
    i_iconst_4,
    i_iconst_5,
    i_bipush,
    i_sipush,
    i_ldc,
    i_iload,
    i_aload,
    i_iload_0,
    i_iload_1,
    i_iload_2,
    i_iload_3,
    i_aload_0,
    i_aload_1,
    i_aload_2,
    i_aload_3,
    i_iaload,
    i_istore,
    i_astore,
    i_istore_0,
    i_istore_1,
    i_istore_2,
    i_istore_3,
    i_astore_0,
    i_astore_1,
    i_astore_2,
    i_astore_3,
    i_iastore,
    i_dup,
    i_iadd,
    i_isub,
    i_imul,
    i_idiv,
    i_irem,
    i_ineg,
    i_ishl,
    i_ishr,
    i_iushr,
    i_iand,
    i_ior,
    i_ixor,
    i_iinc,
    i_ifeq,
    i_ifne,
    i_iflt,
    i_ifge,
    i_ifgt,
    i_ifle,
    i_if_icmpeq,
    i_if_icmpne,
    i_if_icmplt,
    i_if_icmpge,
    i_if_icmpgt,
    i_if_icmple,
    i_goto,
    i_ireturn,
    i_areturn,
    i_return,
    i_getstatic,
    i_invokevirtual,
    i_invokestatic,
    i_newarray,
    i_arraylength,
}

/// The instruction an opcode byte encodes, if any.
pub open spec fn spec_opcode_of_byte(v: u8) -> Option<jvm_instruction_t> {
    if v == 0x0 {
        Some(jvm_instruction_t::i_nop)
    } else if v == 0x2 {
        Some(jvm_instruction_t::i_iconst_m1)
    } else if v == 0x3 {
        Some(jvm_instruction_t::i_iconst_0)
    } else if v == 0x4 {
        Some(jvm_instruction_t::i_iconst_1)
    } else if v == 0x5 {
        Some(jvm_instruction_t::i_iconst_2)
    } else if v == 0x6 {
        Some(jvm_instruction_t::i_iconst_3)
    } else if v == 0x7 {
        Some(jvm_instruction_t::i_iconst_4)
    } else if v == 0x8 {
        Some(jvm_instruction_t::i_iconst_5)
    } else if v == 0x10 {
        Some(jvm_instruction_t::i_bipush)
    } else if v == 0x11 {
        Some(jvm_instruction_t::i_sipush)
    } else if v == 0x12 {
        Some(jvm_instruction_t::i_ldc)
    } else if v == 0x15 {
        Some(jvm_instruction_t::i_iload)
    } else if v == 0x19 {
        Some(jvm_instruction_t::i_aload)
    } else if v == 0x1a {
        Some(jvm_instruction_t::i_iload_0)
    } else if v == 0x1b {
        Some(jvm_instruction_t::i_iload_1)
    } else if v == 0x1c {
        Some(jvm_instruction_t::i_iload_2)
    } else if v == 0x1d {
        Some(jvm_instruction_t::i_iload_3)
    } else if v == 0x2a {
        Some(jvm_instruction_t::i_aload_0)
    } else if v == 0x2b {
        Some(jvm_instruction_t::i_aload_1)
    } else if v == 0x2c {
        Some(jvm_instruction_t::i_aload_2)
    } else if v == 0x2d {
        Some(jvm_instruction_t::i_aload_3)
    } else if v == 0x2e {
        Some(jvm_instruction_t::i_iaload)
    } else if v == 0x36 {
        Some(jvm_instruction_t::i_istore)
    } else if v == 0x3a {
        Some(jvm_instruction_t::i_astore)
    } else if v == 0x3b {
        Some(jvm_instruction_t::i_istore_0)
    } else if v == 0x3c {
        Some(jvm_instruction_t::i_istore_1)
    } else if v == 0x3d {
        Some(jvm_instruction_t::i_istore_2)
    } else if v == 0x3e {
        Some(jvm_instruction_t::i_istore_3)
    } else if v == 0x4b {
        Some(jvm_instruction_t::i_astore_0)
    } else if v == 0x4c {
        Some(jvm_instruction_t::i_astore_1)
    } else if v == 0x4d {
        Some(jvm_instruction_t::i_astore_2)
    } else if v == 0x4e {
        Some(jvm_instruction_t::i_astore_3)
    } else if v == 0x4f {
        Some(jvm_instruction_t::i_iastore)
    } else if v == 0x59 {
        Some(jvm_instruction_t::i_dup)
    } else if v == 0x60 {
        Some(jvm_instruction_t::i_iadd)
    } else if v == 0x64 {
        Some(jvm_instruction_t::i_isub)
    } else if v == 0x68 {
        Some(jvm_instruction_t::i_imul)
    } else if v == 0x6c {
        Some(jvm_instruction_t::i_idiv)
    } else if v == 0x70 {
        Some(jvm_instruction_t::i_irem)
    } else if v == 0x74 {
        Some(jvm_instruction_t::i_ineg)
    } else if v == 0x78 {
        Some(jvm_instruction_t::i_ishl)
    } else if v == 0x7a {
        Some(jvm_instruction_t::i_ishr)
    } else if v == 0x7c {
        Some(jvm_instruction_t::i_iushr)
    } else if v == 0x7e {
        Some(jvm_instruction_t::i_iand)
    } else if v == 0x80 {
        Some(jvm_instruction_t::i_ior)
    } else if v == 0x82 {
        Some(jvm_instruction_t::i_ixor)
    } else if v == 0x84 {
        Some(jvm_instruction_t::i_iinc)
    } else if v == 0x99 {
        Some(jvm_instruction_t::i_ifeq)
    } else if v == 0x9a {
        Some(jvm_instruction_t::i_ifne)
    } else if v == 0x9b {
        Some(jvm_instruction_t::i_iflt)
    } else if v == 0x9c {
        Some(jvm_instruction_t::i_ifge)
    } else if v == 0x9d {
        Some(jvm_instruction_t::i_ifgt)
    } else if v == 0x9e {
        Some(jvm_instruction_t::i_ifle)
    } else if v == 0x9f {
        Some(jvm_instruction_t::i_if_icmpeq)
    } else if v == 0xa0 {
        Some(jvm_instruction_t::i_if_icmpne)
    } else if v == 0xa1 {
        Some(jvm_instruction_t::i_if_icmplt)
    } else if v == 0xa2 {
        Some(jvm_instruction_t::i_if_icmpge)
    } else if v == 0xa3 {
        Some(jvm_instruction_t::i_if_icmpgt)
    } else if v == 0xa4 {
        Some(jvm_instruction_t::i_if_icmple)
    } else if v == 0xa7 {
        Some(jvm_instruction_t::i_goto)
    } else if v == 0xac {
        Some(jvm_instruction_t::i_ireturn)
    } else if v == 0xb0 {
        Some(jvm_instruction_t::i_areturn)
    } else if v == 0xb1 {
        Some(jvm_instruction_t::i_return)
    } else if v == 0xb2 {
        Some(jvm_instruction_t::i_getstatic)
    } else if v == 0xb6 {
        Some(jvm_instruction_t::i_invokevirtual)
    } else if v == 0xb8 {
        Some(jvm_instruction_t::i_invokestatic)
    } else if v == 0xbc {
        Some(jvm_instruction_t::i_newarray)
    } else if v == 0xbe {
        Some(jvm_instruction_t::i_arraylength)
    } else {
        None
    }
}

impl jvm_instruction_t {
    /// Decodes an opcode byte; bytes outside the supported set yield `None`.
    pub fn try_from(v: u8) -> (r: Option<jvm_instruction_t>)
        ensures
            r == spec_opcode_of_byte(v),
    {
        if v == 0x0 {
            Some(jvm_instruction_t::i_nop)
        } else if v == 0x2 {
            Some(jvm_instruction_t::i_iconst_m1)
        } else if v == 0x3 {
            Some(jvm_instruction_t::i_iconst_0)
        } else if v == 0x4 {
            Some(jvm_instruction_t::i_iconst_1)
        } else if v == 0x5 {
            Some(jvm_instruction_t::i_iconst_2)
        } else if v == 0x6 {
            Some(jvm_instruction_t::i_iconst_3)
        } else if v == 0x7 {
            Some(jvm_instruction_t::i_iconst_4)
        } else if v == 0x8 {
            Some(jvm_instruction_t::i_iconst_5)
        } else if v == 0x10 {
            Some(jvm_instruction_t::i_bipush)
        } else if v == 0x11 {
            Some(jvm_instruction_t::i_sipush)
        } else if v == 0x12 {
            Some(jvm_instruction_t::i_ldc)
        } else if v == 0x15 {
            Some(jvm_instruction_t::i_iload)
        } else if v == 0x19 {
            Some(jvm_instruction_t::i_aload)
        } else if v == 0x1a {
            Some(jvm_instruction_t::i_iload_0)
        } else if v == 0x1b {
            Some(jvm_instruction_t::i_iload_1)
        } else if v == 0x1c {
            Some(jvm_instruction_t::i_iload_2)
        } else if v == 0x1d {
            Some(jvm_instruction_t::i_iload_3)
        } else if v == 0x2a {
            Some(jvm_instruction_t::i_aload_0)
        } else if v == 0x2b {
            Some(jvm_instruction_t::i_aload_1)
        } else if v == 0x2c {
            Some(jvm_instruction_t::i_aload_2)
        } else if v == 0x2d {
            Some(jvm_instruction_t::i_aload_3)
        } else if v == 0x2e {
            Some(jvm_instruction_t::i_iaload)
        } else if v == 0x36 {
            Some(jvm_instruction_t::i_istore)
        } else if v == 0x3a {
            Some(jvm_instruction_t::i_astore)
        } else if v == 0x3b {
            Some(jvm_instruction_t::i_istore_0)
        } else if v == 0x3c {
            Some(jvm_instruction_t::i_istore_1)
        } else if v == 0x3d {
            Some(jvm_instruction_t::i_istore_2)
        } else if v == 0x3e {
            Some(jvm_instruction_t::i_istore_3)
        } else if v == 0x4b {
            Some(jvm_instruction_t::i_astore_0)
        } else if v == 0x4c {
            Some(jvm_instruction_t::i_astore_1)
        } else if v == 0x4d {
            Some(jvm_instruction_t::i_astore_2)
        } else if v == 0x4e {
            Some(jvm_instruction_t::i_astore_3)
        } else if v == 0x4f {
            Some(jvm_instruction_t::i_iastore)
        } else if v == 0x59 {
            Some(jvm_instruction_t::i_dup)
        } else if v == 0x60 {
            Some(jvm_instruction_t::i_iadd)
        } else if v == 0x64 {
            Some(jvm_instruction_t::i_isub)
        } else if v == 0x68 {
            Some(jvm_instruction_t::i_imul)
        } else if v == 0x6c {
            Some(jvm_instruction_t::i_idiv)
        } else if v == 0x70 {
            Some(jvm_instruction_t::i_irem)
        } else if v == 0x74 {
            Some(jvm_instruction_t::i_ineg)
        } else if v == 0x78 {
            Some(jvm_instruction_t::i_ishl)
        } else if v == 0x7a {
            Some(jvm_instruction_t::i_ishr)
        } else if v == 0x7c {
            Some(jvm_instruction_t::i_iushr)
        } else if v == 0x7e {
            Some(jvm_instruction_t::i_iand)
        } else if v == 0x80 {
            Some(jvm_instruction_t::i_ior)
        } else if v == 0x82 {
            Some(jvm_instruction_t::i_ixor)
        } else if v == 0x84 {
            Some(jvm_instruction_t::i_iinc)
        } else if v == 0x99 {
            Some(jvm_instruction_t::i_ifeq)
        } else if v == 0x9a {
            Some(jvm_instruction_t::i_ifne)
        } else if v == 0x9b {
            Some(jvm_instruction_t::i_iflt)
        } else if v == 0x9c {
            Some(jvm_instruction_t::i_ifge)
        } else if v == 0x9d {
            Some(jvm_instruction_t::i_ifgt)
        } else if v == 0x9e {
            Some(jvm_instruction_t::i_ifle)
        } else if v == 0x9f {
            Some(jvm_instruction_t::i_if_icmpeq)
        } else if v == 0xa0 {
            Some(jvm_instruction_t::i_if_icmpne)
        } else if v == 0xa1 {
            Some(jvm_instruction_t::i_if_icmplt)
        } else if v == 0xa2 {
            Some(jvm_instruction_t::i_if_icmpge)
        } else if v == 0xa3 {
            Some(jvm_instruction_t::i_if_icmpgt)
        } else if v == 0xa4 {
            Some(jvm_instruction_t::i_if_icmple)
        } else if v == 0xa7 {
            Some(jvm_instruction_t::i_goto)
        } else if v == 0xac {
            Some(jvm_instruction_t::i_ireturn)
        } else if v == 0xb0 {
            Some(jvm_instruction_t::i_areturn)
        } else if v == 0xb1 {
            Some(jvm_instruction_t::i_return)
        } else if v == 0xb2 {
            Some(jvm_instruction_t::i_getstatic)
        } else if v == 0xb6 {
            Some(jvm_instruction_t::i_invokevirtual)
        } else if v == 0xb8 {
            Some(jvm_instruction_t::i_invokestatic)
        } else if v == 0xbc {
            Some(jvm_instruction_t::i_newarray)
        } else if v == 0xbe {
            Some(jvm_instruction_t::i_arraylength)
        } else {
            None
        }
    }
}

// ---------------------------------------------------------------------------
// Numeric specification helpers
// ---------------------------------------------------------------------------

/// The signed value of a byte, sign-extended from 8 bits.
pub open spec fn sign8(b: u8) -> i32 {
    if b < 0x80 {
        b as i32
    } else {
        (b - 0x100) as i32
    }
}

/// The signed value of two big-endian bytes, sign-extended from 16 bits.
pub open spec fn sign16(hi: u8, lo: u8) -> i32 {
    let v = hi * 0x100 + lo;
    if v < 0x8000 {
        v as i32
    } else {
        (v - 0x10000) as i32
    }
}

/// 32-bit wrap-around addition.
pub open spec fn wrap_add(a: i32, b: i32) -> i32 {
    if a + b > i32::MAX {
        (a + b - 0x1_0000_0000) as i32
    } else if a + b < i32::MIN {
        (a + b + 0x1_0000_0000) as i32
    } else {
        (a + b) as i32
    }
}

/// 32-bit wrap-around subtraction.
pub open spec fn wrap_sub(a: i32, b: i32) -> i32 {
    if a - b > i32::MAX {
        (a - b - 0x1_0000_0000) as i32
    } else if a - b < i32::MIN {
        (a - b + 0x1_0000_0000) as i32
    } else {
        (a - b) as i32
    }
}

/// The 32-bit two's-complement image of an arbitrary integer.
pub open spec fn wrap_of(x: int) -> i32 {
    if (x % 0x1_0000_0000) > i32::MAX {
        ((x % 0x1_0000_0000) - 0x1_0000_0000) as i32
    } else {
        (x % 0x1_0000_0000) as i32
    }
}

/// 32-bit wrap-around multiplication.
pub open spec fn wrap_mul(a: i32, b: i32) -> i32 {
    wrap_of(a * b)
}

/// 32-bit wrap-around negation.
pub open spec fn wrap_neg(a: i32) -> i32 {
    if a == i32::MIN {
        i32::MIN
    } else {
        (-a) as i32
    }
}

/// Truncating division (the quotient rounds toward zero), as fixed-width
/// signed division performs it; the minimum value divided by -1 wraps to
/// itself.
pub open spec fn jvm_div(a: i32, b: i32) -> i32
    recommends
        b != 0,
{
    if a == i32::MIN && b == -1 {
        i32::MIN
    } else {
        let x = a as int;
        let d = b as int;
        let q = if x == 0 {
            0int
        } else if x > 0 && d > 0 {
            x / d
        } else if x < 0 && d < 0 {
            (x * -1) / (d * -1)
        } else if x < 0 {
            ((x * -1) / d) * -1
        } else {
            (x / (d * -1)) * -1
        };
        q as i32
    }
}

/// Truncating remainder (the result carries the dividend's sign); the
/// remainder of the minimum value by -1 is zero.
pub open spec fn jvm_rem(a: i32, b: i32) -> i32
    recommends
        b != 0,
{
    if a == i32::MIN && b == -1 {
        0
    } else {
        let x = a as int;
        let d = b as int;
        let m = if x == 0 {
            0int
        } else if x > 0 && d > 0 {
            x % d
        } else if x < 0 && d < 0 {
            ((x * -1) % (d * -1)) * -1
        } else if x < 0 {
            ((x * -1) % d) * -1
        } else {
            x % (d * -1)
        };
        m as i32
    }
}

/// The unsigned 32-bit image of a signed value.
pub open spec fn u32_of_i32(a: i32) -> u32 {
    if a >= 0 {
        a as u32
    } else {
        (a + 0x1_0000_0000) as u32
    }
}

/// The signed value whose unsigned 32-bit image is `v`.
pub open spec fn i32_of_u32_bits(v: u32) -> i32 {
    if v > 0x7fff_ffff {
        (v - 0x1_0000_0000) as i32
    } else {
        v as i32
    }
}

/// The heap's mathematical value: the sequence of its arrays' contents.
pub open spec fn heap_view(h: Seq<Vec<i32>>) -> Seq<Seq<i32>> {
    h.map_values(|a: Vec<i32>| a@)
}

/// The later heap holds at least the arrays of the earlier one, each with its
/// length unchanged (array contents may differ; arrays are never removed and
/// never resized).
pub open spec fn heap_extends(later: Seq<Seq<i32>>, earlier: Seq<Seq<i32>>) -> bool {
    &&& later.len() >= earlier.len()
    &&& forall|i: int| 0 <= i < earlier.len() ==> (#[trigger] later[i]).len() == earlier[i].len()
}

// ---------------------------------------------------------------------------
// Constant and immediate pushes
// ---------------------------------------------------------------------------

/// The constant an `iconst_<n>` opcode pushes, for the opcodes of that family.
pub open spec fn iconst_value(opcode: jvm_instruction_t) -> Option<i32> {
    match opcode {
        jvm_instruction_t::i_iconst_m1 => Some(-1i32),
        jvm_instruction_t::i_iconst_0 => Some(0i32),
        jvm_instruction_t::i_iconst_1 => Some(1i32),
        jvm_instruction_t::i_iconst_2 => Some(2i32),
        jvm_instruction_t::i_iconst_3 => Some(3i32),
        jvm_instruction_t::i_iconst_4 => Some(4i32),
        jvm_instruction_t::i_iconst_5 => Some(5i32),
        _ => None,
    }
}

/// Pushes the constant named by an `iconst_<n>` opcode and advances past it.
pub fn iconst_helper(opcode: jvm_instruction_t, stack: &mut stack_t, program_counter: &mut usize)
    -> (r: Result<(), VmError>)
    requires
        old(stack).wf(),
        old(program_counter) + 1 <= usize::MAX,
    ensures
        r is Err ==> crate::is_runtime_error(r->Err_0),
        final(stack).wf(),
        final(stack).size == old(stack).size,
        r is Ok <==> (iconst_value(opcode) is Some && old(stack)@.len() < old(stack).size),
        r is Ok ==> final(stack)@ == old(stack)@.push(iconst_value(opcode)->0)
            && *final(program_counter) == *old(program_counter) + 1,
        r is Err ==> final(stack)@ == old(stack)@ && r->Err_0 == (if iconst_value(opcode)
            is None {
            VmError::InvalidOpcode
        } else {
            VmError::StackOverflow
        }),
{
    let value: i32 = match opcode {
        jvm_instruction_t::i_iconst_m1 => -1,
        jvm_instruction_t::i_iconst_0 => 0,
        jvm_instruction_t::i_iconst_1 => 1,
        jvm_instruction_t::i_iconst_2 => 2,
        jvm_instruction_t::i_iconst_3 => 3,
        jvm_instruction_t::i_iconst_4 => 4,
        jvm_instruction_t::i_iconst_5 => 5,
        _ => {
            return Err(VmError::InvalidOpcode);
        },
    };
    if !stack_push(stack, value) {
        return Err(VmError::StackOverflow);
    }
    *program_counter = *program_counter + 1;
    Ok(())
}


// ---------------------------------------------------------------------------
// Immediate pushes and constant loads
// ---------------------------------------------------------------------------

/// Pushes the next code byte, sign-extended from 8 bits, and advances.
pub fn bipush_helper(stack: &mut stack_t, program_counter: &mut usize, method: &method_t) -> (r:
    Result<(), VmError>)
    requires
        old(stack).wf(),
    ensures
        r is Err ==> crate::is_runtime_error(r->Err_0),
        final(stack).wf(),
        final(stack).size == old(stack).size,
        r is Ok <==> (old(program_counter) + 1 < method.code.code@.len() && old(stack)@.len()
            < old(stack).size),
        r is Ok ==> final(stack)@ == old(stack)@.push(
            sign8(method.code.code@[old(program_counter) + 1]),
        ) && *final(program_counter) == *old(program_counter) + 2,
        r is Err ==> final(stack)@ == old(stack)@ && *final(program_counter) == *old(program_counter) && r->Err_0 == (if !(old(program_counter) + 1 < method.code.code@.len()) {
            VmError::CodeOutOfBounds
        } else {
            VmError::StackOverflow
        }),
{
    let pc = *program_counter;
    let len = method.code.code.len();
    if pc >= len || len - pc < 2 {
        return Err(VmError::CodeOutOfBounds);
    }
    let b = method.code.code[pc + 1];
    let value: i32 = if b < 0x80 {
        b as i32
    } else {
        (b as i32) - 0x100
    };
    if !stack_push(stack, value) {
        return Err(VmError::StackOverflow);
    }
    *program_counter = pc + 2;
    Ok(())
}

/// Pushes the next two code bytes, combined big-endian and sign-extended from
/// 16 bits, and advances.
pub fn sipush_helper(stack: &mut stack_t, program_counter: &mut usize, method: &method_t) -> (r:
    Result<(), VmError>)
    requires
        old(stack).wf(),
    ensures
        r is Err ==> crate::is_runtime_error(r->Err_0),
        final(stack).wf(),
        final(stack).size == old(stack).size,
        r is Ok <==> (old(program_counter) + 2 < method.code.code@.len() && old(stack)@.len()
            < old(stack).size),
        r is Ok ==> final(stack)@ == old(stack)@.push(
            sign16(
                method.code.code@[old(program_counter) + 1],
                method.code.code@[old(program_counter) + 2],
            ),
        ) && *final(program_counter) == *old(program_counter) + 3,
        r is Err ==> final(stack)@ == old(stack)@ && *final(program_counter) == *old(program_counter) && r->Err_0 == (if !(old(program_counter) + 2 < method.code.code@.len()) {
            VmError::CodeOutOfBounds
        } else {
            VmError::StackOverflow
        }),
{
    let pc = *program_counter;
    let len = method.code.code.len();
    if pc >= len || len - pc < 3 {
        return Err(VmError::CodeOutOfBounds);
    }
    let hi = method.code.code[pc + 1];
    let lo = method.code.code[pc + 2];
    let v: i32 = (hi as i32) * 0x100 + (lo as i32);
    let value: i32 = if v < 0x8000 {
        v
    } else {
        v - 0x10000
    };
    if !stack_push(stack, value) {
        return Err(VmError::StackOverflow);
    }
    *program_counter = pc + 3;
    Ok(())
}

/// Pushes the value of an integer constant-pool slot; slots of any other tag
/// are left alone, but a slot without a payload, or an integer-tagged slot
/// with a payload of another kind, is fatal.
pub fn constant_pool_helper(stack: &mut stack_t, pool_const: &cp_info) -> (r: Result<
    (),
    VmError,
>)
    requires
        old(stack).wf(),
    ensures
        r is Err ==> crate::is_runtime_error(r->Err_0),
        final(stack).wf(),
        final(stack).size == old(stack).size,
        r is Ok <==> (pool_const@.info is Some && (pool_const@.tag
            == cp_info_tag::CONSTANT_Integer ==> (pool_const@.info matches Some(
            crate::read_class::CpEntryView::Integer(_),
        ) && old(stack)@.len() < old(stack).size))),
        r is Ok && pool_const@.tag == cp_info_tag::CONSTANT_Integer ==> (pool_const@.info
            matches Some(crate::read_class::CpEntryView::Integer(v)) && final(stack)@ == old(stack)@.push(v)),
        r is Ok && pool_const@.tag != cp_info_tag::CONSTANT_Integer ==> final(stack)@ == old(stack)@,
        r is Err ==> final(stack)@ == old(stack)@,
{
    match &pool_const.info {
        None => Err(VmError::ConstantTypeMismatch),
        Some(boxed) => {
            if matches!(pool_const.tag, cp_info_tag::CONSTANT_Integer) {
                match &**boxed {
                    cp_info_t::CONSTANT_Integer_info { bytes } => {
                        if !stack_push(stack, *bytes) {
                            return Err(VmError::StackOverflow);
                        }
                        Ok(())
                    },
                    _ => Err(VmError::ConstantTypeMismatch),
                }
            } else {
                Ok(())
            }
        },
    }
}

/// Pushes the integer constant at the pool index named by the next code byte.
/// A sentinel slot at that index is skipped without a push.
pub fn ldc_helper(
    stack: &mut stack_t,
    program_counter: &mut usize,
    method: &method_t,
    class: &class_file_t,
) -> (r: Result<(), VmError>)
    requires
        old(stack).wf(),
    ensures
        r is Err ==> crate::is_runtime_error(r->Err_0),
        final(stack).wf(),
        final(stack).size == old(stack).size,
        r is Ok <==> (old(program_counter) + 1 < method.code.code@.len() && ({
            let pi = method.code.code@[old(program_counter) + 1] as int;
            &&& 1 <= pi <= class.constant_pool@.len()
            &&& ({
                let slot = class@.constant_pool[pi - 1];
                slot.info is Some ==> (slot.tag == cp_info_tag::CONSTANT_Integer ==> (slot.info
                    matches Some(crate::read_class::CpEntryView::Integer(_)) && old(stack)@.len() < old(stack).size))
            })
        })),
        r is Ok ==> *final(program_counter) == *old(program_counter) + 2 && ({
            let slot = class@.constant_pool[method.code.code@[old(program_counter) + 1] - 1];
            if slot.info is Some && slot.tag == cp_info_tag::CONSTANT_Integer {
                slot.info matches Some(crate::read_class::CpEntryView::Integer(v)) && final(stack)@ == old(stack)@.push(v)
            } else {
                final(stack)@ == old(stack)@
            }
        }),
{
    let pc = *program_counter;
    let len = method.code.code.len();
    if pc >= len || len - pc < 2 {
        return Err(VmError::CodeOutOfBounds);
    }
    let pool_index = method.code.code[pc + 1] as usize;
    if pool_index == 0 || pool_index > class.constant_pool.len() {
        return Err(VmError::InvalidConstantIndex);
    }
    let pool_const = &class.constant_pool[pool_index - 1];
    if pool_const.info.is_some() {
        match constant_pool_helper(stack, pool_const) {
            Ok(()) => {},
            Err(e) => {
                return Err(e);
            },
        }
    }
    *program_counter = pc + 2;
    Ok(())
}

// ---------------------------------------------------------------------------
// Local-variable loads and stores
// ---------------------------------------------------------------------------

/// The slot an `iload_<n>` opcode reads, for the opcodes of that family.
pub open spec fn iload_slot(opcode: jvm_instruction_t) -> Option<int> {
    match opcode {
        jvm_instruction_t::i_iload_0 => Some(0int),
        jvm_instruction_t::i_iload_1 => Some(1int),
        jvm_instruction_t::i_iload_2 => Some(2int),
        jvm_instruction_t::i_iload_3 => Some(3int),
        _ => None,
    }
}

/// The slot an `aload_<n>` opcode reads, for the opcodes of that family.
pub open spec fn aload_slot(opcode: jvm_instruction_t) -> Option<int> {
    match opcode {
        jvm_instruction_t::i_aload_0 => Some(0int),
        jvm_instruction_t::i_aload_1 => Some(1int),
        jvm_instruction_t::i_aload_2 => Some(2int),
        jvm_instruction_t::i_aload_3 => Some(3int),
        _ => None,
    }
}

/// The slot an `istore_<n>` opcode writes, for the opcodes of that family.
pub open spec fn istore_slot(opcode: jvm_instruction_t) -> Option<int> {
    match opcode {
        jvm_instruction_t::i_istore_0 => Some(0int),
        jvm_instruction_t::i_istore_1 => Some(1int),
        jvm_instruction_t::i_istore_2 => Some(2int),
        jvm_instruction_t::i_istore_3 => Some(3int),
        _ => None,
    }
}

/// The slot an `astore_<n>` opcode writes, for the opcodes of that family.
pub open spec fn astore_slot(opcode: jvm_instruction_t) -> Option<int> {
    match opcode {
        jvm_instruction_t::i_astore_0 => Some(0int),
        jvm_instruction_t::i_astore_1 => Some(1int),
        jvm_instruction_t::i_astore_2 => Some(2int),
        jvm_instruction_t::i_astore_3 => Some(3int),
        _ => None,
    }
}

/// Pushes an integer from the local slot named by the next code byte.
pub fn iload_helper(
    stack: &mut stack_t,
    program_counter: &mut usize,
    method: &method_t,
    locals: &[i32],
) -> (r: Result<(), VmError>)
    requires
        old(stack).wf(),
    ensures
        r is Err ==> crate::is_runtime_error(r->Err_0),
        final(stack).wf(),
        final(stack).size == old(stack).size,
        r is Ok <==> (old(program_counter) + 1 < method.code.code@.len()
            && method.code.code@[old(program_counter) + 1] < locals@.len() && old(stack)@.len()
            < old(stack).size),
        r is Ok ==> final(stack)@ == old(stack)@.push(
            locals@[method.code.code@[old(program_counter) + 1] as int],
        ) && *final(program_counter) == *old(program_counter) + 2,
        r is Err ==> final(stack)@ == old(stack)@ && *final(program_counter) == *old(program_counter),
{
    let pc = *program_counter;
    let len = method.code.code.len();
    if pc >= len || len - pc < 2 {
        return Err(VmError::CodeOutOfBounds);
    }
    let slot = method.code.code[pc + 1] as usize;
    if slot >= locals.len() {
        return Err(VmError::InvalidLocalIndex);
    }
    if !stack_push(stack, locals[slot]) {
        return Err(VmError::StackOverflow);
    }
    *program_counter = pc + 2;
    Ok(())
}

/// Pushes an array reference from the local slot named by the next code byte.
pub fn aload_helper(
    stack: &mut stack_t,
    program_counter: &mut usize,
    method: &method_t,
    locals: &[i32],
) -> (r: Result<(), VmError>)
    requires
        old(stack).wf(),
    ensures
        r is Err ==> crate::is_runtime_error(r->Err_0),
        final(stack).wf(),
        final(stack).size == old(stack).size,
        r is Ok <==> (old(program_counter) + 1 < method.code.code@.len()
            && method.code.code@[old(program_counter) + 1] < locals@.len() && old(stack)@.len()
            < old(stack).size),
        r is Ok ==> final(stack)@ == old(stack)@.push(
            locals@[method.code.code@[old(program_counter) + 1] as int],
        ) && *final(program_counter) == *old(program_counter) + 2,
        r is Err ==> final(stack)@ == old(stack)@ && *final(program_counter) == *old(program_counter),
{
    let pc = *program_counter;
    let len = method.code.code.len();
    if pc >= len || len - pc < 2 {
        return Err(VmError::CodeOutOfBounds);
    }
    let slot = method.code.code[pc + 1] as usize;
    if slot >= locals.len() {
        return Err(VmError::InvalidLocalIndex);
    }
    if !stack_push(stack, locals[slot]) {
        return Err(VmError::StackOverflow);
    }
    *program_counter = pc + 2;
    Ok(())
}

/// Pushes an integer from the local slot named by the opcode itself.
pub fn iload_n_helper(
    opcode: jvm_instruction_t,
    stack: &mut stack_t,
    program_counter: &mut usize,
    locals: &[i32],
) -> (r: Result<(), VmError>)
    requires
        old(stack).wf(),
        old(program_counter) + 1 <= usize::MAX,
    ensures
        r is Err ==> crate::is_runtime_error(r->Err_0),
        final(stack).wf(),
        final(stack).size == old(stack).size,
        r is Ok <==> (iload_slot(opcode) matches Some(slot) && slot < locals@.len() && old(stack)@.len() < old(stack).size),
        r is Ok ==> final(stack)@ == old(stack)@.push(locals@[iload_slot(opcode)->0]) && *final(program_counter) == *old(program_counter) + 1,
        r is Err ==> final(stack)@ == old(stack)@ && *final(program_counter) == *old(program_counter),
{
    let slot: usize = match opcode {
        jvm_instruction_t::i_iload_0 => 0,
        jvm_instruction_t::i_iload_1 => 1,
        jvm_instruction_t::i_iload_2 => 2,
        jvm_instruction_t::i_iload_3 => 3,
        _ => {
            return Err(VmError::InvalidOpcode);
        },
    };
    if slot >= locals.len() {
        return Err(VmError::InvalidLocalIndex);
    }
    if !stack_push(stack, locals[slot]) {
        return Err(VmError::StackOverflow);
    }
    *program_counter = *program_counter + 1;
    Ok(())
}

/// Pushes an array reference from the local slot named by the opcode itself.
pub fn aload_n_helper(
    opcode: jvm_instruction_t,
    stack: &mut stack_t,
    program_counter: &mut usize,
    locals: &[i32],
) -> (r: Result<(), VmError>)
    requires
        old(stack).wf(),
        old(program_counter) + 1 <= usize::MAX,
    ensures
        r is Err ==> crate::is_runtime_error(r->Err_0),
        final(stack).wf(),
        final(stack).size == old(stack).size,
        r is Ok <==> (aload_slot(opcode) matches Some(slot) && slot < locals@.len() && old(stack)@.len() < old(stack).size),
        r is Ok ==> final(stack)@ == old(stack)@.push(locals@[aload_slot(opcode)->0]) && *final(program_counter) == *old(program_counter) + 1,
        r is Err ==> final(stack)@ == old(stack)@ && *final(program_counter) == *old(program_counter),
{
    let slot: usize = match opcode {
        jvm_instruction_t::i_aload_0 => 0,
        jvm_instruction_t::i_aload_1 => 1,
        jvm_instruction_t::i_aload_2 => 2,
        jvm_instruction_t::i_aload_3 => 3,
        _ => {
            return Err(VmError::InvalidOpcode);
        },
    };
    if slot >= locals.len() {
        return Err(VmError::InvalidLocalIndex);
    }
    if !stack_push(stack, locals[slot]) {
        return Err(VmError::StackOverflow);
    }
    *program_counter = *program_counter + 1;
    Ok(())
}

/// Pops the top value into the local slot named by the next code byte.
pub fn istore_helper(
    stack: &mut stack_t,
    program_counter: &mut usize,
    method: &method_t,
    locals: &mut Vec<i32>,
) -> (r: Result<(), VmError>)
    requires
        old(stack).wf(),
    ensures
        r is Err ==> crate::is_runtime_error(r->Err_0),
        final(stack).wf(),
        final(stack).size == old(stack).size,
        final(locals)@.len() == old(locals)@.len(),
        r is Ok <==> (old(program_counter) + 1 < method.code.code@.len()
            && method.code.code@[old(program_counter) + 1] < old(locals)@.len() && old(stack)@.len() > 0),
        r is Ok ==> final(stack)@ == old(stack)@.drop_last() && final(locals)@ == old(locals)@.update(method.code.code@[old(program_counter) + 1] as int, old(stack)@.last())
            && *final(program_counter) == *old(program_counter) + 2,
        r is Err ==> final(stack)@ == old(stack)@ && final(locals)@ == old(locals)@ && *final(program_counter) == *old(program_counter),
{
    let pc = *program_counter;
    let len = method.code.code.len();
    if pc >= len || len - pc < 2 {
        return Err(VmError::CodeOutOfBounds);
    }
    let slot = method.code.code[pc + 1] as usize;
    if slot >= locals.len() {
        return Err(VmError::InvalidLocalIndex);
    }
    let mut value: i32 = 0;
    if !stack_pop(stack, &mut value) {
        return Err(VmError::StackUnderflow);
    }
    locals.set(slot, value);
    *program_counter = pc + 2;
    Ok(())
}

/// Pops the top reference into the local slot named by the next code byte.
pub fn astore_helper(
    stack: &mut stack_t,
    program_counter: &mut usize,
    method: &method_t,
    locals: &mut Vec<i32>,
) -> (r: Result<(), VmError>)
    requires
        old(stack).wf(),
    ensures
        r is Err ==> crate::is_runtime_error(r->Err_0),
        final(stack).wf(),
        final(stack).size == old(stack).size,
        final(locals)@.len() == old(locals)@.len(),
        r is Ok <==> (old(program_counter) + 1 < method.code.code@.len()
            && method.code.code@[old(program_counter) + 1] < old(locals)@.len() && old(stack)@.len() > 0),
        r is Ok ==> final(stack)@ == old(stack)@.drop_last() && final(locals)@ == old(locals)@.update(method.code.code@[old(program_counter) + 1] as int, old(stack)@.last())
            && *final(program_counter) == *old(program_counter) + 2,
        r is Err ==> final(stack)@ == old(stack)@ && final(locals)@ == old(locals)@ && *final(program_counter) == *old(program_counter),
{
    let pc = *program_counter;
    let len = method.code.code.len();
    if pc >= len || len - pc < 2 {
        return Err(VmError::CodeOutOfBounds);
    }
    let slot = method.code.code[pc + 1] as usize;
    if slot >= locals.len() {
        return Err(VmError::InvalidLocalIndex);
    }
    let mut value: i32 = 0;
    if !stack_pop(stack, &mut value) {
        return Err(VmError::StackUnderflow);
    }
    locals.set(slot, value);
    *program_counter = pc + 2;
    Ok(())
}

/// Pops the top value into the local slot named by the opcode itself.
pub fn istore_n_helper(
    opcode: jvm_instruction_t,
    stack: &mut stack_t,
    program_counter: &mut usize,
    locals: &mut Vec<i32>,
) -> (r: Result<(), VmError>)
    requires
        old(stack).wf(),
        old(program_counter) + 1 <= usize::MAX,
    ensures
        r is Err ==> crate::is_runtime_error(r->Err_0),
        final(stack).wf(),
        final(stack).size == old(stack).size,
        final(locals)@.len() == old(locals)@.len(),
        r is Ok <==> (istore_slot(opcode) matches Some(slot) && slot < old(locals)@.len() && old(stack)@.len() > 0),
        r is Ok ==> final(stack)@ == old(stack)@.drop_last() && final(locals)@ == old(locals)@.update(istore_slot(opcode)->0, old(stack)@.last()) && *final(program_counter) == *old(program_counter) + 1,
        r is Err ==> final(stack)@ == old(stack)@ && final(locals)@ == old(locals)@ && *final(program_counter) == *old(program_counter),
{
    let slot: usize = match opcode {
        jvm_instruction_t::i_istore_0 => 0,
        jvm_instruction_t::i_istore_1 => 1,
        jvm_instruction_t::i_istore_2 => 2,
        jvm_instruction_t::i_istore_3 => 3,
        _ => {
            return Err(VmError::InvalidOpcode);
        },
    };
    if slot >= locals.len() {
        return Err(VmError::InvalidLocalIndex);
    }
    let mut value: i32 = 0;
    if !stack_pop(stack, &mut value) {
        return Err(VmError::StackUnderflow);
    }
    locals.set(slot, value);
    *program_counter = *program_counter + 1;
    Ok(())
}

/// Pops the top reference into the local slot named by the opcode itself.
pub fn astore_n_helper(
    opcode: jvm_instruction_t,
    stack: &mut stack_t,
    program_counter: &mut usize,
    locals: &mut Vec<i32>,
) -> (r: Result<(), VmError>)
    requires
        old(stack).wf(),
        old(program_counter) + 1 <= usize::MAX,
    ensures
        r is Err ==> crate::is_runtime_error(r->Err_0),
        final(stack).wf(),
        final(stack).size == old(stack).size,
        final(locals)@.len() == old(locals)@.len(),
        r is Ok <==> (astore_slot(opcode) matches Some(slot) && slot < old(locals)@.len() && old(stack)@.len() > 0),
        r is Ok ==> final(stack)@ == old(stack)@.drop_last() && final(locals)@ == old(locals)@.update(astore_slot(opcode)->0, old(stack)@.last()) && *final(program_counter) == *old(program_counter) + 1,
        r is Err ==> final(stack)@ == old(stack)@ && final(locals)@ == old(locals)@ && *final(program_counter) == *old(program_counter),
{
    let slot: usize = match opcode {
        jvm_instruction_t::i_astore_0 => 0,
        jvm_instruction_t::i_astore_1 => 1,
        jvm_instruction_t::i_astore_2 => 2,
        jvm_instruction_t::i_astore_3 => 3,
        _ => {
            return Err(VmError::InvalidOpcode);
        },
    };
    if slot >= locals.len() {
        return Err(VmError::InvalidLocalIndex);
    }
    let mut value: i32 = 0;
    if !stack_pop(stack, &mut value) {
        return Err(VmError::StackUnderflow);
    }
    locals.set(slot, value);
    *program_counter = *program_counter + 1;
    Ok(())
}


// ---------------------------------------------------------------------------
// Arrays
// ---------------------------------------------------------------------------

/// Pops an index and an array reference and pushes the element at that index.
/// An index or a reference out of range is fatal, never clamped.
pub fn iaload_helper(stack: &mut stack_t, program_counter: &mut usize, heap: &mut heap_t) -> (r:
    Result<(), VmError>)
    requires
        old(stack).wf(),
        old(program_counter) + 1 <= usize::MAX,
    ensures
        r is Err ==> crate::is_runtime_error(r->Err_0),
        final(stack).wf(),
        final(stack).size == old(stack).size,
        final(heap)@ == old(heap)@,
        r is Ok <==> ({
            let n = old(stack)@.len();
            &&& n >= 2
            &&& 0 <= old(stack)@[n - 2] < old(heap)@.len()
            &&& 0 <= old(stack)@[n - 1] < heap_view(old(heap)@)[old(stack)@[n - 2] as int].len()
        }),
        r is Ok ==> ({
            let n = old(stack)@.len();
            final(stack)@ == old(stack)@.subrange(0, n - 2).push(
                heap_view(old(heap)@)[old(stack)@[n - 2] as int][old(stack)@[n - 1] as int],
            ) && *final(program_counter) == *old(program_counter) + 1
        }),
        r is Err ==> final(stack)@ == old(stack)@ && *final(program_counter) == *old(program_counter),
{
    if stack.top < 2 {
        return Err(VmError::StackUnderflow);
    }
    let mut index: i32 = 0;
    let mut reference: i32 = 0;
    let ghost s0 = stack@;
    if !stack_pop(stack, &mut index) {
        return Err(VmError::StackUnderflow);
    }
    if !stack_pop(stack, &mut reference) {
        return Err(VmError::StackUnderflow);
    }
    if reference < 0 || reference as usize >= heap.len() {
        proof {
            assert(stack@.push(reference).push(index) =~= s0);
        }
        // Put the operands back so a failure leaves the stack as it was.
        let ok1 = stack_push(stack, reference);
        let ok2 = stack_push(stack, index);
        return Err(VmError::InvalidReference);
    }
    let array = &heap[reference as usize];
    if index < 0 || index as usize >= array.len() {
        proof {
            assert(stack@.push(reference).push(index) =~= s0);
        }
        let ok1 = stack_push(stack, reference);
        let ok2 = stack_push(stack, index);
        return Err(VmError::ArrayIndexOutOfBounds);
    }
    let value = heap[reference as usize][index as usize];
    let pushed = stack_push(stack, value);
    proof {
        assert(heap_view(heap@)[reference as int] == heap@[reference as int]@);
        assert(stack@ =~= s0.subrange(0, s0.len() - 2).push(value));
    }
    *program_counter = *program_counter + 1;
    Ok(())
}

/// Pops a value, an index, and an array reference, and stores the value at
/// that index.  An index or a reference out of range is fatal, never clamped.
pub fn iastore_helper(stack: &mut stack_t, program_counter: &mut usize, heap: &mut heap_t) -> (r:
    Result<(), VmError>)
    requires
        old(stack).wf(),
        old(program_counter) + 1 <= usize::MAX,
    ensures
        r is Err ==> crate::is_runtime_error(r->Err_0),
        final(stack).wf(),
        final(stack).size == old(stack).size,
        r is Ok <==> ({
            let n = old(stack)@.len();
            &&& n >= 3
            &&& 0 <= old(stack)@[n - 3] < old(heap)@.len()
            &&& 0 <= old(stack)@[n - 2] < heap_view(old(heap)@)[old(stack)@[n - 3] as int].len()
        }),
        r is Ok ==> ({
            let n = old(stack)@.len();
            let reference = old(stack)@[n - 3] as int;
            let index = old(stack)@[n - 2] as int;
            let value = old(stack)@[n - 1];
            final(stack)@ == old(stack)@.subrange(0, n - 3) && heap_view(final(heap)@)
                == heap_view(old(heap)@).update(
                reference,
                heap_view(old(heap)@)[reference].update(index, value),
            ) && *final(program_counter) == *old(program_counter) + 1
        }),
        r is Err ==> final(stack)@ == old(stack)@ && final(heap)@ == old(heap)@ && *final(program_counter) == *old(program_counter),
{
    if stack.top < 3 {
        return Err(VmError::StackUnderflow);
    }
    let mut value: i32 = 0;
    let mut index: i32 = 0;
    let mut reference: i32 = 0;
    let ghost s0 = stack@;
    if !stack_pop(stack, &mut value) {
        return Err(VmError::StackUnderflow);
    }
    if !stack_pop(stack, &mut index) {
        return Err(VmError::StackUnderflow);
    }
    if !stack_pop(stack, &mut reference) {
        return Err(VmError::StackUnderflow);
    }
    if reference < 0 || reference as usize >= heap.len() {
        proof {
            assert(stack@.push(reference).push(index).push(value) =~= s0);
        }
        let ok1 = stack_push(stack, reference);
        let ok2 = stack_push(stack, index);
        let ok3 = stack_push(stack, value);
        return Err(VmError::InvalidReference);
    }
    if index < 0 || index as usize >= heap[reference as usize].len() {
        proof {
            assert(stack@.push(reference).push(index).push(value) =~= s0);
        }
        let ok1 = stack_push(stack, reference);
        let ok2 = stack_push(stack, index);
        let ok3 = stack_push(stack, value);
        return Err(VmError::ArrayIndexOutOfBounds);
    }
    let mut array = heap[reference as usize].clone();
    array.set(index as usize, value);
    let ghost h0 = heap@;
    heap.set(reference as usize, array);
    proof {
        assert(stack@ =~= s0.subrange(0, s0.len() - 3));
        assert(heap_view(h0)[reference as int] == h0[reference as int]@);
        assert(heap_view(heap@) =~= heap_view(h0).update(
            reference as int,
            heap_view(h0)[reference as int].update(index as int, value),
        ));
    }
    *program_counter = *program_counter + 1;
    Ok(())
}

/// Pops a count and appends a zero-filled array of that length to the heap,
/// pushing its reference (its position).  The operand byte must be the
/// int-array type tag and the count must not be negative.
pub fn newarray_helper(
    stack: &mut stack_t,
    program_counter: &mut usize,
    method: &method_t,
    heap: &mut Vec<Vec<i32>>,
) -> (r: Result<(), VmError>)
    requires
        old(stack).wf(),
    ensures
        r is Err ==> crate::is_runtime_error(r->Err_0),
        final(stack).wf(),
        final(stack).size == old(stack).size,
        r is Ok <==> (old(program_counter) + 1 < method.code.code@.len()
            && method.code.code@[old(program_counter) + 1] == 10 && old(stack)@.len() > 0 && old(stack)@.last() >= 0 && old(heap)@.len() <= i32::MAX),
        r is Ok ==> ({
            let count = old(stack)@.last() as int;
            final(stack)@ == old(stack)@.drop_last().push(old(heap)@.len() as i32) && heap_view(final(heap)@) == heap_view(old(heap)@).push(Seq::new(count as nat, |i: int| 0i32))
                && *final(program_counter) == *old(program_counter) + 2
        }),
        r is Err ==> final(stack)@ == old(stack)@ && final(heap)@ == old(heap)@ && *final(program_counter) == *old(program_counter),
{
    let pc = *program_counter;
    let len = method.code.code.len();
    if pc >= len || len - pc < 2 {
        return Err(VmError::CodeOutOfBounds);
    }
    // The one operand is the element type of the new array, always the
    // int-array tag here.
    if method.code.code[pc + 1] != 10 {
        return Err(VmError::BadArrayType);
    }
    if stack.top < 1 {
        return Err(VmError::StackUnderflow);
    }
    let mut count: i32 = 0;
    let ghost s0 = stack@;
    if !stack_pop(stack, &mut count) {
        return Err(VmError::StackUnderflow);
    }
    if count < 0 {
        proof {
            assert(stack@.push(count) =~= s0);
        }
        let ok1 = stack_push(stack, count);
        return Err(VmError::NegativeArraySize);
    }
    if heap.len() > i32::MAX as usize {
        proof {
            assert(stack@.push(count) =~= s0);
        }
        let ok1 = stack_push(stack, count);
        return Err(VmError::TooManyArrays);
    }
    let new_array = zero_array(count as usize);
    let tmp_ref = heap.len();
    let ghost h0 = heap@;
    heap.push(new_array);
    let pushed = stack_push(stack, tmp_ref as i32);
    proof {
        assert(heap_view(heap@) =~= heap_view(h0).push(Seq::new(count as nat, |i: int| 0i32)));
    }
    *program_counter = pc + 2;
    Ok(())
}

/// Builds a zero-filled integer array of length `n`.
pub fn zero_array(n: usize) -> (r: Vec<i32>)
    ensures
        r@ == Seq::new(n as nat, |i: int| 0i32),
{
    let mut out: Vec<i32> = Vec::new();
    let mut i: usize = 0;
    while i < n
        invariant
            i <= n,
            out@ == Seq::new(i as nat, |j: int| 0i32),
        decreases n - i,
    {
        out.push(0);
        i = i + 1;
        proof {
            assert(out@ =~= Seq::new(i as nat, |j: int| 0i32));
        }
    }
    out
}

/// Pops an array reference and pushes that array's length.
pub fn arraylength_helper(stack: &mut stack_t, program_counter: &mut usize, heap: &mut heap_t)
    -> (r: Result<(), VmError>)
    requires
        old(stack).wf(),
        old(program_counter) + 1 <= usize::MAX,
    ensures
        r is Err ==> crate::is_runtime_error(r->Err_0),
        final(stack).wf(),
        final(stack).size == old(stack).size,
        final(heap)@ == old(heap)@,
        r is Ok <==> (old(stack)@.len() > 0 && 0 <= old(stack)@.last() < old(heap)@.len()
            && heap_view(old(heap)@)[old(stack)@.last() as int].len() <= i32::MAX),
        r is Ok ==> final(stack)@ == old(stack)@.drop_last().push(
            heap_view(old(heap)@)[old(stack)@.last() as int].len() as i32,
        ) && *final(program_counter) == *old(program_counter) + 1,
        r is Err ==> final(stack)@ == old(stack)@ && *final(program_counter) == *old(program_counter),
{
    if stack.top < 1 {
        return Err(VmError::StackUnderflow);
    }
    let mut reference: i32 = 0;
    let ghost s0 = stack@;
    if !stack_pop(stack, &mut reference) {
        return Err(VmError::StackUnderflow);
    }
    if reference < 0 || reference as usize >= heap.len() {
        proof {
            assert(stack@.push(reference) =~= s0);
        }
        let ok1 = stack_push(stack, reference);
        return Err(VmError::InvalidReference);
    }
    let array_len = heap[reference as usize].len();
    if array_len > i32::MAX as usize {
        proof {
            assert(stack@.push(reference) =~= s0);
        }
        let ok1 = stack_push(stack, reference);
        return Err(VmError::TooManyArrays);
    }
    proof {
        assert(heap_view(heap@)[reference as int] == heap@[reference as int]@);
    }
    let pushed = stack_push(stack, array_len as i32);
    *program_counter = *program_counter + 1;
    Ok(())
}

// ---------------------------------------------------------------------------
// Stack manipulation and arithmetic
// ---------------------------------------------------------------------------

/// Duplicates the top of the stack.
pub fn dup_helper(stack: &mut stack_t, program_counter: &mut usize) -> (r: Result<(), VmError>)
    requires
        old(stack).wf(),
        old(program_counter) + 1 <= usize::MAX,
    ensures
        r is Err ==> crate::is_runtime_error(r->Err_0),
        final(stack).wf(),
        final(stack).size == old(stack).size,
        r is Ok <==> (old(stack)@.len() > 0 && old(stack)@.len() < old(stack).size),
        r is Ok ==> final(stack)@ == old(stack)@.push(old(stack)@.last()) && *final(program_counter) == *old(program_counter) + 1,
        r is Err ==> final(stack)@ == old(stack)@ && *final(program_counter) == *old(program_counter) && r->Err_0 == (if old(stack)@.len() == 0 {
            VmError::StackUnderflow
        } else {
            VmError::StackOverflow
        }),
{
    if stack.top < 1 {
        return Err(VmError::StackUnderflow);
    }
    if stack_is_full(stack) {
        return Err(VmError::StackOverflow);
    }
    let mut value: i32 = 0;
    let ghost s0 = stack@;
    if !stack_pop(stack, &mut value) {
        return Err(VmError::StackUnderflow);
    }
    let ok1 = stack_push(stack, value);
    let ok2 = stack_push(stack, value);
    proof {
        assert(stack@ =~= s0.push(value));
    }
    *program_counter = *program_counter + 1;
    Ok(())
}

/// Pops two values and pushes their sum, wrapping on overflow.
pub fn iadd_helper(stack: &mut stack_t, program_counter: &mut usize) -> (r: Result<(), VmError>)
    requires
        old(stack).wf(),
        old(program_counter) + 1 <= usize::MAX,
    ensures
        r is Err ==> crate::is_runtime_error(r->Err_0),
        final(stack).wf(),
        final(stack).size == old(stack).size,
        r is Ok <==> old(stack)@.len() >= 2,
        r is Ok ==> ({
            let n = old(stack)@.len();
            let a = old(stack)@[n - 2];
            let b = old(stack)@[n - 1];
            final(stack)@ == old(stack)@.subrange(0, n - 2).push(wrap_add(a, b)) && *final(program_counter) == *old(program_counter) + 1
        }),
        r is Err ==> final(stack)@ == old(stack)@ && *final(program_counter) == *old(program_counter) && r == Result::<(), VmError>::Err(VmError::StackUnderflow),
{
    if stack.top < 2 {
        return Err(VmError::StackUnderflow);
    }
    let mut second_operand: i32 = 0;
    let mut first_operand: i32 = 0;
    let ghost s0 = stack@;
    if !stack_pop(stack, &mut second_operand) {
        return Err(VmError::StackUnderflow);
    }
    if !stack_pop(stack, &mut first_operand) {
        return Err(VmError::StackUnderflow);
    }
    let value: i32 = first_operand.wrapping_add(second_operand);
    let pushed = stack_push(stack, value);
    proof {
        assert(stack@ =~= s0.subrange(0, s0.len() - 2).push(value));
    }
    *program_counter = *program_counter + 1;
    Ok(())
}

/// Pops two values and pushes their difference, wrapping on overflow.
pub fn isub_helper(stack: &mut stack_t, program_counter: &mut usize) -> (r: Result<(), VmError>)
    requires
        old(stack).wf(),
        old(program_counter) + 1 <= usize::MAX,
    ensures
        r is Err ==> crate::is_runtime_error(r->Err_0),
        final(stack).wf(),
        final(stack).size == old(stack).size,
        r is Ok <==> old(stack)@.len() >= 2,
        r is Ok ==> ({
            let n = old(stack)@.len();
            let a = old(stack)@[n - 2];
            let b = old(stack)@[n - 1];
            final(stack)@ == old(stack)@.subrange(0, n - 2).push(wrap_sub(a, b)) && *final(program_counter) == *old(program_counter) + 1
        }),
        r is Err ==> final(stack)@ == old(stack)@ && *final(program_counter) == *old(program_counter) && r == Result::<(), VmError>::Err(VmError::StackUnderflow),
{
    if stack.top < 2 {
        return Err(VmError::StackUnderflow);
    }
    let mut second_operand: i32 = 0;
    let mut first_operand: i32 = 0;
    let ghost s0 = stack@;
    if !stack_pop(stack, &mut second_operand) {
        return Err(VmError::StackUnderflow);
    }
    if !stack_pop(stack, &mut first_operand) {
        return Err(VmError::StackUnderflow);
    }
    let value: i32 = first_operand.wrapping_sub(second_operand);
    let pushed = stack_push(stack, value);
    proof {
        assert(stack@ =~= s0.subrange(0, s0.len() - 2).push(value));
    }
    *program_counter = *program_counter + 1;
    Ok(())
}

/// Pops two values and pushes their product, wrapping on overflow.
pub fn imul_helper(stack: &mut stack_t, program_counter: &mut usize) -> (r: Result<(), VmError>)
    requires
        old(stack).wf(),
        old(program_counter) + 1 <= usize::MAX,
    ensures
        r is Err ==> crate::is_runtime_error(r->Err_0),
        final(stack).wf(),
        final(stack).size == old(stack).size,
        r is Ok <==> old(stack)@.len() >= 2,
        r is Ok ==> ({
            let n = old(stack)@.len();
            let a = old(stack)@[n - 2];
            let b = old(stack)@[n - 1];
            final(stack)@ == old(stack)@.subrange(0, n - 2).push(wrap_mul(a, b)) && *final(program_counter) == *old(program_counter) + 1
        }),
        r is Err ==> final(stack)@ == old(stack)@ && *final(program_counter) == *old(program_counter) && r == Result::<(), VmError>::Err(VmError::StackUnderflow),
{
    if stack.top < 2 {
        return Err(VmError::StackUnderflow);
    }
    let mut second_operand: i32 = 0;
    let mut first_operand: i32 = 0;
    let ghost s0 = stack@;
    if !stack_pop(stack, &mut second_operand) {
        return Err(VmError::StackUnderflow);
    }
    if !stack_pop(stack, &mut first_operand) {
        return Err(VmError::StackUnderflow);
    }
    let value: i32 = first_operand.wrapping_mul(second_operand);
    let pushed = stack_push(stack, value);
    proof {
        assert(stack@ =~= s0.subrange(0, s0.len() - 2).push(value));
    }
    *program_counter = *program_counter + 1;
    Ok(())
}

/// Pops two values and pushes their bitwise AND.
pub fn iand_helper(stack: &mut stack_t, program_counter: &mut usize) -> (r: Result<(), VmError>)
    requires
        old(stack).wf(),
        old(program_counter) + 1 <= usize::MAX,
    ensures
        r is Err ==> crate::is_runtime_error(r->Err_0),
        final(stack).wf(),
        final(stack).size == old(stack).size,
        r is Ok <==> old(stack)@.len() >= 2,
        r is Ok ==> ({
            let n = old(stack)@.len();
            let a = old(stack)@[n - 2];
            let b = old(stack)@[n - 1];
            final(stack)@ == old(stack)@.subrange(0, n - 2).push(a & b) && *final(program_counter) == *old(program_counter) + 1
        }),
        r is Err ==> final(stack)@ == old(stack)@ && *final(program_counter) == *old(program_counter) && r == Result::<(), VmError>::Err(VmError::StackUnderflow),
{
    if stack.top < 2 {
        return Err(VmError::StackUnderflow);
    }
    let mut second_operand: i32 = 0;
    let mut first_operand: i32 = 0;
    let ghost s0 = stack@;
    if !stack_pop(stack, &mut second_operand) {
        return Err(VmError::StackUnderflow);
    }
    if !stack_pop(stack, &mut first_operand) {
        return Err(VmError::StackUnderflow);
    }
    let value: i32 = first_operand & second_operand;
    let pushed = stack_push(stack, value);
    proof {
        assert(stack@ =~= s0.subrange(0, s0.len() - 2).push(value));
    }
    *program_counter = *program_counter + 1;
    Ok(())
}

/// Pops two values and pushes their bitwise OR.
pub fn ior_helper(stack: &mut stack_t, program_counter: &mut usize) -> (r: Result<(), VmError>)
    requires
        old(stack).wf(),
        old(program_counter) + 1 <= usize::MAX,
    ensures
        r is Err ==> crate::is_runtime_error(r->Err_0),
        final(stack).wf(),
        final(stack).size == old(stack).size,
        r is Ok <==> old(stack)@.len() >= 2,
        r is Ok ==> ({
            let n = old(stack)@.len();
            let a = old(stack)@[n - 2];
            let b = old(stack)@[n - 1];
            final(stack)@ == old(stack)@.subrange(0, n - 2).push(a | b) && *final(program_counter) == *old(program_counter) + 1
        }),
        r is Err ==> final(stack)@ == old(stack)@ && *final(program_counter) == *old(program_counter) && r == Result::<(), VmError>::Err(VmError::StackUnderflow),
{
    if stack.top < 2 {
        return Err(VmError::StackUnderflow);
    }
    let mut second_operand: i32 = 0;
    let mut first_operand: i32 = 0;
    let ghost s0 = stack@;
    if !stack_pop(stack, &mut second_operand) {
        return Err(VmError::StackUnderflow);
    }
    if !stack_pop(stack, &mut first_operand) {
        return Err(VmError::StackUnderflow);
    }
    let value: i32 = first_operand | second_operand;
    let pushed = stack_push(stack, value);
    proof {
        assert(stack@ =~= s0.subrange(0, s0.len() - 2).push(value));
    }
    *program_counter = *program_counter + 1;
    Ok(())
}

/// Pops two values and pushes their bitwise XOR.
pub fn ixor_helper(stack: &mut stack_t, program_counter: &mut usize) -> (r: Result<(), VmError>)
    requires
        old(stack).wf(),
        old(program_counter) + 1 <= usize::MAX,
    ensures
        r is Err ==> crate::is_runtime_error(r->Err_0),
        final(stack).wf(),
        final(stack).size == old(stack).size,
        r is Ok <==> old(stack)@.len() >= 2,
        r is Ok ==> ({
            let n = old(stack)@.len();
            let a = old(stack)@[n - 2];
            let b = old(stack)@[n - 1];
            final(stack)@ == old(stack)@.subrange(0, n - 2).push(a ^ b) && *final(program_counter) == *old(program_counter) + 1
        }),
        r is Err ==> final(stack)@ == old(stack)@ && *final(program_counter) == *old(program_counter) && r == Result::<(), VmError>::Err(VmError::StackUnderflow),
{
    if stack.top < 2 {
        return Err(VmError::StackUnderflow);
    }
    let mut second_operand: i32 = 0;
    let mut first_operand: i32 = 0;
    let ghost s0 = stack@;
    if !stack_pop(stack, &mut second_operand) {
        return Err(VmError::StackUnderflow);
    }
    if !stack_pop(stack, &mut first_operand) {
        return Err(VmError::StackUnderflow);
    }
    let value: i32 = first_operand ^ second_operand;
    let pushed = stack_push(stack, value);
    proof {
        assert(stack@ =~= s0.subrange(0, s0.len() - 2).push(value));
    }
    *program_counter = *program_counter + 1;
    Ok(())
}

/// Pops two values and pushes their quotient, truncated toward zero.  A zero
/// divisor is fatal; the minimum value divided by -1 wraps.
pub fn idiv_helper(stack: &mut stack_t, program_counter: &mut usize) -> (r: Result<(), VmError>)
    requires
        old(stack).wf(),
        old(program_counter) + 1 <= usize::MAX,
    ensures
        r is Err ==> crate::is_runtime_error(r->Err_0),
        final(stack).wf(),
        final(stack).size == old(stack).size,
        r is Ok <==> (old(stack)@.len() >= 2 && old(stack)@.last() != 0),
        r is Ok ==> ({
            let n = old(stack)@.len();
            final(stack)@ == old(stack)@.subrange(0, n - 2).push(
                jvm_div(old(stack)@[n - 2], old(stack)@[n - 1]),
            ) && *final(program_counter) == *old(program_counter) + 1
        }),
        r is Err ==> final(stack)@ == old(stack)@ && *final(program_counter) == *old(program_counter) && r->Err_0 == (if old(stack)@.len() < 2 {
            VmError::StackUnderflow
        } else {
            VmError::DivisionByZero
        }),
{
    if stack.top < 2 {
        return Err(VmError::StackUnderflow);
    }
    let mut second_operand: i32 = 0;
    let mut first_operand: i32 = 0;
    let ghost s0 = stack@;
    if !stack_pop(stack, &mut second_operand) {
        return Err(VmError::StackUnderflow);
    }
    if !stack_pop(stack, &mut first_operand) {
        return Err(VmError::StackUnderflow);
    }
    if second_operand == 0 {
        proof {
            assert(stack@.push(first_operand).push(second_operand) =~= s0);
        }
        let ok1 = stack_push(stack, first_operand);
        let ok2 = stack_push(stack, second_operand);
        return Err(VmError::DivisionByZero);
    }
    let value: i32 = if first_operand == i32::MIN && second_operand == -1 {
        i32::MIN
    } else {
        proof {
            let x = first_operand as int;
            let d = second_operand as int;
            if x > 0 && d > 0 {
                vstd::arithmetic::div_mod::lemma_div_nonincreasing(x, d);
                vstd::arithmetic::div_mod::lemma_div_is_ordered(0, x, d);
                vstd::arithmetic::div_mod::lemma_div_of0(d);
            } else if x < 0 && d < 0 {
                if x == i32::MIN {
                    vstd::arithmetic::div_mod::lemma_div_is_ordered_by_denominator(-x, 2, -d);
                } else {
                    vstd::arithmetic::div_mod::lemma_div_nonincreasing(-x, -d);
                }
                vstd::arithmetic::div_mod::lemma_div_is_ordered(0, -x, -d);
                vstd::arithmetic::div_mod::lemma_div_of0(-d);
            } else if x < 0 {
                vstd::arithmetic::div_mod::lemma_div_nonincreasing(-x, d);
                vstd::arithmetic::div_mod::lemma_div_is_ordered(0, -x, d);
                vstd::arithmetic::div_mod::lemma_div_of0(d);
            } else if x > 0 {
                vstd::arithmetic::div_mod::lemma_div_nonincreasing(x, -d);
                vstd::arithmetic::div_mod::lemma_div_is_ordered(0, x, -d);
                vstd::arithmetic::div_mod::lemma_div_of0(-d);
            }
        }
        match first_operand.checked_div(second_operand) {
            Some(q) => q,
            None => {
                proof {
                    assert(false);
                }
                0
            },
        }
    };
    proof {
        assert(value == jvm_div(first_operand, second_operand));
    }
    let pushed = stack_push(stack, value);
    proof {
        assert(stack@ =~= s0.subrange(0, s0.len() - 2).push(value));
    }
    *program_counter = *program_counter + 1;
    Ok(())
}

/// Pops two values and pushes the remainder of their truncating division,
/// carrying the dividend's sign.  A zero divisor is fatal.
pub fn irem_helper(stack: &mut stack_t, program_counter: &mut usize) -> (r: Result<(), VmError>)
    requires
        old(stack).wf(),
        old(program_counter) + 1 <= usize::MAX,
    ensures
        r is Err ==> crate::is_runtime_error(r->Err_0),
        final(stack).wf(),
        final(stack).size == old(stack).size,
        r is Ok <==> (old(stack)@.len() >= 2 && old(stack)@.last() != 0),
        r is Ok ==> ({
            let n = old(stack)@.len();
            final(stack)@ == old(stack)@.subrange(0, n - 2).push(
                jvm_rem(old(stack)@[n - 2], old(stack)@[n - 1]),
            ) && *final(program_counter) == *old(program_counter) + 1
        }),
        r is Err ==> final(stack)@ == old(stack)@ && *final(program_counter) == *old(program_counter) && r->Err_0 == (if old(stack)@.len() < 2 {
            VmError::StackUnderflow
        } else {
            VmError::DivisionByZero
        }),
{
    if stack.top < 2 {
        return Err(VmError::StackUnderflow);
    }
    let mut second_operand: i32 = 0;
    let mut first_operand: i32 = 0;
    let ghost s0 = stack@;
    if !stack_pop(stack, &mut second_operand) {
        return Err(VmError::StackUnderflow);
    }
    if !stack_pop(stack, &mut first_operand) {
        return Err(VmError::StackUnderflow);
    }
    if second_operand == 0 {
        proof {
            assert(stack@.push(first_operand).push(second_operand) =~= s0);
        }
        let ok1 = stack_push(stack, first_operand);
        let ok2 = stack_push(stack, second_operand);
        return Err(VmError::DivisionByZero);
    }
    let value: i32 = if first_operand == i32::MIN && second_operand == -1 {
        0
    } else {
        proof {
            let x = first_operand as int;
            let d = second_operand as int;
            if x > 0 && d > 0 {
                vstd::arithmetic::div_mod::lemma_mod_bound(x, d);
            } else if x < 0 && d < 0 {
                vstd::arithmetic::div_mod::lemma_mod_bound(-x, -d);
            } else if x < 0 {
                vstd::arithmetic::div_mod::lemma_mod_bound(-x, d);
            } else if x > 0 {
                vstd::arithmetic::div_mod::lemma_mod_bound(x, -d);
            }
        }
        match first_operand.checked_rem(second_operand) {
            Some(m) => m,
            None => {
                proof {
                    assert(false);
                }
                0
            },
        }
    };
    proof {
        assert(value == jvm_rem(first_operand, second_operand));
    }
    let pushed = stack_push(stack, value);
    proof {
        assert(stack@ =~= s0.subrange(0, s0.len() - 2).push(value));
    }
    *program_counter = *program_counter + 1;
    Ok(())
}

/// Pops a value and pushes its negation, wrapping on the minimum value.
pub fn ineg_helper(stack: &mut stack_t, program_counter: &mut usize) -> (r: Result<(), VmError>)
    requires
        old(stack).wf(),
        old(program_counter) + 1 <= usize::MAX,
    ensures
        r is Err ==> crate::is_runtime_error(r->Err_0),
        final(stack).wf(),
        final(stack).size == old(stack).size,
        r is Ok <==> old(stack)@.len() >= 1,
        r is Ok ==> final(stack)@ == old(stack)@.drop_last().push(wrap_neg(old(stack)@.last()))
            && *final(program_counter) == *old(program_counter) + 1,
        r is Err ==> final(stack)@ == old(stack)@ && *final(program_counter) == *old(program_counter) && r == Result::<(), VmError>::Err(VmError::StackUnderflow),
{
    if stack.top < 1 {
        return Err(VmError::StackUnderflow);
    }
    let mut first_operand: i32 = 0;
    let ghost s0 = stack@;
    if !stack_pop(stack, &mut first_operand) {
        return Err(VmError::StackUnderflow);
    }
    let value: i32 = if first_operand == i32::MIN {
        i32::MIN
    } else {
        -first_operand
    };
    let pushed = stack_push(stack, value);
    *program_counter = *program_counter + 1;
    Ok(())
}

/// Pops a shift amount and a value and pushes the value shifted left.  The
/// amount is not masked: one outside 0..=31 is fatal.
pub fn ishl_helper(stack: &mut stack_t, program_counter: &mut usize) -> (r: Result<(), VmError>)
    requires
        old(stack).wf(),
        old(program_counter) + 1 <= usize::MAX,
    ensures
        r is Err ==> crate::is_runtime_error(r->Err_0),
        final(stack).wf(),
        final(stack).size == old(stack).size,
        r is Ok <==> (old(stack)@.len() >= 2 && 0 <= old(stack)@.last() <= 31),
        r is Ok ==> ({
            let n = old(stack)@.len();
            final(stack)@ == old(stack)@.subrange(0, n - 2).push(
                old(stack)@[n - 2] << old(stack)@[n - 1],
            ) && *final(program_counter) == *old(program_counter) + 1
        }),
        r is Err ==> final(stack)@ == old(stack)@ && *final(program_counter) == *old(program_counter) && r->Err_0 == (if old(stack)@.len() < 2 {
            VmError::StackUnderflow
        } else {
            VmError::ShiftOutOfRange
        }),
{
    if stack.top < 2 {
        return Err(VmError::StackUnderflow);
    }
    let mut second_operand: i32 = 0;
    let mut first_operand: i32 = 0;
    let ghost s0 = stack@;
    if !stack_pop(stack, &mut second_operand) {
        return Err(VmError::StackUnderflow);
    }
    if !stack_pop(stack, &mut first_operand) {
        return Err(VmError::StackUnderflow);
    }
    if second_operand < 0 || second_operand > 31 {
        proof {
            assert(stack@.push(first_operand).push(second_operand) =~= s0);
        }
        let ok1 = stack_push(stack, first_operand);
        let ok2 = stack_push(stack, second_operand);
        return Err(VmError::ShiftOutOfRange);
    }
    let value: i32 = first_operand << second_operand;
    let pushed = stack_push(stack, value);
    proof {
        assert(stack@ =~= s0.subrange(0, s0.len() - 2).push(value));
    }
    *program_counter = *program_counter + 1;
    Ok(())
}

/// Pops a shift amount and a value and pushes the value shifted right with
/// sign extension.  The amount is not masked: one outside 0..=31 is fatal.
pub fn ishr_helper(stack: &mut stack_t, program_counter: &mut usize) -> (r: Result<(), VmError>)
    requires
        old(stack).wf(),
        old(program_counter) + 1 <= usize::MAX,
    ensures
        r is Err ==> crate::is_runtime_error(r->Err_0),
        final(stack).wf(),
        final(stack).size == old(stack).size,
        r is Ok <==> (old(stack)@.len() >= 2 && 0 <= old(stack)@.last() <= 31),
        r is Ok ==> ({
            let n = old(stack)@.len();
            final(stack)@ == old(stack)@.subrange(0, n - 2).push(
                old(stack)@[n - 2] >> old(stack)@[n - 1],
            ) && *final(program_counter) == *old(program_counter) + 1
        }),
        r is Err ==> final(stack)@ == old(stack)@ && *final(program_counter) == *old(program_counter) && r->Err_0 == (if old(stack)@.len() < 2 {
            VmError::StackUnderflow
        } else {
            VmError::ShiftOutOfRange
        }),
{
    if stack.top < 2 {
        return Err(VmError::StackUnderflow);
    }
    let mut second_operand: i32 = 0;
    let mut first_operand: i32 = 0;
    let ghost s0 = stack@;
    if !stack_pop(stack, &mut second_operand) {
        return Err(VmError::StackUnderflow);
    }
    if !stack_pop(stack, &mut first_operand) {
        return Err(VmError::StackUnderflow);
    }
    if second_operand < 0 || second_operand > 31 {
        proof {
            assert(stack@.push(first_operand).push(second_operand) =~= s0);
        }
        let ok1 = stack_push(stack, first_operand);
        let ok2 = stack_push(stack, second_operand);
        return Err(VmError::ShiftOutOfRange);
    }
    let value: i32 = first_operand >> second_operand;
    let pushed = stack_push(stack, value);
    proof {
        assert(stack@ =~= s0.subrange(0, s0.len() - 2).push(value));
    }
    *program_counter = *program_counter + 1;
    Ok(())
}

/// Pops a shift amount and a value and pushes the value shifted right with
/// zero fill.  The amount is not masked: one outside 0..=31 is fatal.
pub fn iushr_helper(stack: &mut stack_t, program_counter: &mut usize) -> (r: Result<(), VmError>)
    requires
        old(stack).wf(),
        old(program_counter) + 1 <= usize::MAX,
    ensures
        r is Err ==> crate::is_runtime_error(r->Err_0),
        final(stack).wf(),
        final(stack).size == old(stack).size,
        r is Ok <==> (old(stack)@.len() >= 2 && 0 <= old(stack)@.last() <= 31),
        r is Ok ==> ({
            let n = old(stack)@.len();
            final(stack)@ == old(stack)@.subrange(0, n - 2).push(
                i32_of_u32_bits(u32_of_i32(old(stack)@[n - 2]) >> (old(stack)@[n - 1] as u32)),
            ) && *final(program_counter) == *old(program_counter) + 1
        }),
        r is Err ==> final(stack)@ == old(stack)@ && *final(program_counter) == *old(program_counter) && r->Err_0 == (if old(stack)@.len() < 2 {
            VmError::StackUnderflow
        } else {
            VmError::ShiftOutOfRange
        }),
{
    if stack.top < 2 {
        return Err(VmError::StackUnderflow);
    }
    let mut second_operand: i32 = 0;
    let mut first_operand: i32 = 0;
    let ghost s0 = stack@;
    if !stack_pop(stack, &mut second_operand) {
        return Err(VmError::StackUnderflow);
    }
    if !stack_pop(stack, &mut first_operand) {
        return Err(VmError::StackUnderflow);
    }
    if second_operand < 0 || second_operand > 31 {
        proof {
            assert(stack@.push(first_operand).push(second_operand) =~= s0);
        }
        let ok1 = stack_push(stack, first_operand);
        let ok2 = stack_push(stack, second_operand);
        return Err(VmError::ShiftOutOfRange);
    }
    let bits: u32 = if first_operand >= 0 {
        first_operand as u32
    } else {
        ((first_operand as i64) + 0x1_0000_0000) as u32
    };
    let shifted: u32 = bits >> (second_operand as u32);
    let value: i32 = if shifted > 0x7fff_ffff {
        ((shifted as i64) - 0x1_0000_0000) as i32
    } else {
        shifted as i32
    };
    let pushed = stack_push(stack, value);
    proof {
        assert(stack@ =~= s0.subrange(0, s0.len() - 2).push(value));
    }
    *program_counter = *program_counter + 1;
    Ok(())
}

/// Adds a sign-extended immediate byte to a local slot, wrapping on overflow.
pub fn iinc_helper(program_counter: &mut usize, method: &method_t, locals: &mut Vec<i32>) -> (r:
    Result<(), VmError>)
    ensures
        r is Err ==> crate::is_runtime_error(r->Err_0),
        final(locals)@.len() == old(locals)@.len(),
        r is Ok <==> (old(program_counter) + 2 < method.code.code@.len()
            && method.code.code@[old(program_counter) + 1] < old(locals)@.len()),
        r is Ok ==> ({
            let slot = method.code.code@[old(program_counter) + 1] as int;
            final(locals)@ == old(locals)@.update(
                slot,
                wrap_add(old(locals)@[slot], sign8(method.code.code@[old(program_counter) + 2])),
            ) && *final(program_counter) == *old(program_counter) + 3
        }),
        r is Err ==> final(locals)@ == old(locals)@ && *final(program_counter) == *old(program_counter),
{
    let pc = *program_counter;
    let len = method.code.code.len();
    if pc >= len || len - pc < 3 {
        return Err(VmError::CodeOutOfBounds);
    }
    let slot = method.code.code[pc + 1] as usize;
    if slot >= locals.len() {
        return Err(VmError::InvalidLocalIndex);
    }
    let b = method.code.code[pc + 2];
    let increment: i32 = if b < 0x80 {
        b as i32
    } else {
        (b as i32) - 0x100
    };
    let updated = locals[slot].wrapping_add(increment);
    locals.set(slot, updated);
    *program_counter = pc + 3;
    Ok(())
}


// ---------------------------------------------------------------------------
// Branches
// ---------------------------------------------------------------------------

/// Reads the two branch-offset bytes at the current position, advancing past
/// them, and returns the encoded offset adjusted for the three bytes the
/// whole branch instruction occupies.
pub fn jump_offset_helper(program_counter: &mut usize, method: &method_t) -> (r: Result<
    i32,
    VmError,
>)
    ensures
        r is Err ==> crate::is_runtime_error(r->Err_0),
        r is Ok <==> old(program_counter) + 1 < method.code.code@.len(),
        r is Ok ==> r->Ok_0 == sign16(
            method.code.code@[(*old(program_counter)) as int],
            method.code.code@[old(program_counter) + 1],
        ) - 3 && *final(program_counter) == *old(program_counter) + 2,
        r is Err ==> r == Result::<i32, VmError>::Err(VmError::CodeOutOfBounds) && *final(program_counter) == *old(program_counter),
{
    let pc = *program_counter;
    let len = method.code.code.len();
    if pc >= len || len - pc < 2 {
        return Err(VmError::CodeOutOfBounds);
    }
    let hi = method.code.code[pc];
    let lo = method.code.code[pc + 1];
    let v: i32 = (hi as i32) * 0x100 + (lo as i32);
    let offset: i32 = if v < 0x8000 {
        v
    } else {
        v - 0x10000
    };
    *program_counter = pc + 2;
    Ok(offset - 3)
}

/// Advances past a one-operand branch instruction, handing back its adjusted
/// offset and the one value popped for the condition.
pub fn jump_one_op_helper(
    stack: &mut stack_t,
    program_counter: &mut usize,
    method: &method_t,
    first_stack_operand: &mut i32,
    jump_offset: &mut i32,
) -> (r: Result<(), VmError>)
    requires
        old(stack).wf(),
    ensures
        r is Err ==> crate::is_runtime_error(r->Err_0),
        final(stack).wf(),
        final(stack).size == old(stack).size,
        r is Ok <==> (old(program_counter) + 2 < method.code.code@.len() && old(stack)@.len()
            > 0),
        r is Ok ==> final(stack)@ == old(stack)@.drop_last() && *final(first_stack_operand)
            == old(stack)@.last() && *final(jump_offset) == sign16(
            method.code.code@[old(program_counter) + 1],
            method.code.code@[old(program_counter) + 2],
        ) - 3 && *final(program_counter) == *old(program_counter) + 3,
        r is Err ==> final(stack)@ == old(stack)@ && *final(program_counter) == *old(program_counter) && *final(first_stack_operand) == *old(first_stack_operand) && *final(jump_offset)
            == *old(jump_offset) && r->Err_0 == (if !(old(program_counter) + 2
            < method.code.code@.len()) {
            VmError::CodeOutOfBounds
        } else {
            VmError::StackUnderflow
        }),
{
    let pc = *program_counter;
    let len = method.code.code.len();
    if pc >= len || len - pc < 3 {
        return Err(VmError::CodeOutOfBounds);
    }
    if stack.top < 1 {
        return Err(VmError::StackUnderflow);
    }
    *program_counter = pc + 1;
    let offset = match jump_offset_helper(program_counter, method) {
        Ok(o) => o,
        Err(e) => {
            return Err(e);
        },
    };
    *jump_offset = offset;
    if !stack_pop(stack, first_stack_operand) {
        return Err(VmError::StackUnderflow);
    }
    Ok(())
}

/// Advances past a two-operand comparison branch, handing back its adjusted
/// offset and the two values popped for the condition (the second popped is
/// the left-hand side).
pub fn jump_two_ops_helper(
    stack: &mut stack_t,
    program_counter: &mut usize,
    method: &method_t,
    first_stack_operand: &mut i32,
    second_stack_operand: &mut i32,
    jump_offset: &mut i32,
) -> (r: Result<(), VmError>)
    requires
        old(stack).wf(),
    ensures
        r is Err ==> crate::is_runtime_error(r->Err_0),
        final(stack).wf(),
        final(stack).size == old(stack).size,
        r is Ok <==> (old(program_counter) + 2 < method.code.code@.len() && old(stack)@.len()
            >= 2),
        r is Ok ==> ({
            let n = old(stack)@.len();
            final(stack)@ == old(stack)@.subrange(0, n - 2) && *final(first_stack_operand)
                == old(stack)@[n - 2] && *final(second_stack_operand) == old(stack)@[n - 1]
                && *final(jump_offset) == sign16(
                method.code.code@[old(program_counter) + 1],
                method.code.code@[old(program_counter) + 2],
            ) - 3 && *final(program_counter) == *old(program_counter) + 3
        }),
        r is Err ==> final(stack)@ == old(stack)@ && *final(program_counter) == *old(program_counter) && *final(first_stack_operand) == *old(first_stack_operand) && *final(second_stack_operand) == *old(second_stack_operand) && *final(jump_offset) == *old(jump_offset)
            && r->Err_0 == (if !(old(program_counter) + 2 < method.code.code@.len()) {
            VmError::CodeOutOfBounds
        } else {
            VmError::StackUnderflow
        }),
{
    let pc = *program_counter;
    let len = method.code.code.len();
    if pc >= len || len - pc < 3 {
        return Err(VmError::CodeOutOfBounds);
    }
    if stack.top < 2 {
        return Err(VmError::StackUnderflow);
    }
    *program_counter = pc + 1;
    let offset = match jump_offset_helper(program_counter, method) {
        Ok(o) => o,
        Err(e) => {
            return Err(e);
        },
    };
    *jump_offset = offset;
    let ghost s0 = stack@;
    if !stack_pop(stack, second_stack_operand) {
        return Err(VmError::StackUnderflow);
    }
    if !stack_pop(stack, first_stack_operand) {
        return Err(VmError::StackUnderflow);
    }
    proof {
        assert(stack@ =~= s0.subrange(0, s0.len() - 2));
    }
    Ok(())
}

/// Moves the program counter from past a branch instruction to the branch
/// target, which the offset encoding makes `opcode position + offset value`.
/// A target before the start of the code is fatal.
fn apply_jump(program_counter: &mut usize, jump_offset: i32) -> (r: Result<(), VmError>)
    requires
        jump_offset > i32::MIN,
    ensures
        r is Err ==> crate::is_runtime_error(r->Err_0),
        r is Ok <==> 0 <= old(program_counter) + jump_offset <= usize::MAX,
        r is Ok ==> *final(program_counter) == *old(program_counter) + jump_offset,
        r is Err ==> r == Result::<(), VmError>::Err(VmError::BranchOutOfRange) && *final(program_counter) == *old(program_counter),
{
    if jump_offset >= 0 {
        match program_counter.checked_add(jump_offset as usize) {
            Some(t) => {
                *program_counter = t;
                Ok(())
            },
            None => Err(VmError::BranchOutOfRange),
        }
    } else {
        let magnitude = (-jump_offset) as usize;
        if *program_counter >= magnitude {
            *program_counter = *program_counter - magnitude;
            Ok(())
        } else {
            Err(VmError::BranchOutOfRange)
        }
    }
}

/// Pops one value and branches when it is zero; the taken branch sets the
/// program counter to the opcode's position plus the encoded offset.
pub fn ifeq_helper(stack: &mut stack_t, program_counter: &mut usize, method: &method_t) -> (r: Result<
    (),
    VmError,
>)
    requires
        old(stack).wf(),
    ensures
        r is Err ==> crate::is_runtime_error(r->Err_0),
        final(stack).wf(),
        final(stack).size == old(stack).size,
        r is Ok <==> (old(program_counter) + 2 < method.code.code@.len() && old(stack)@.len() > 0
            && ({
            let v = old(stack)@.last();
            let k = sign16(
                method.code.code@[old(program_counter) + 1],
                method.code.code@[old(program_counter) + 2],
            );
            (v == 0) ==> 0 <= old(program_counter) + k <= usize::MAX
        })),
        r is Ok ==> final(stack)@ == old(stack)@.drop_last() && ({
            let v = old(stack)@.last();
            let k = sign16(
                method.code.code@[old(program_counter) + 1],
                method.code.code@[old(program_counter) + 2],
            );
            if v == 0 {
                *final(program_counter) == *old(program_counter) + k
            } else {
                *final(program_counter) == *old(program_counter) + 3
            }
        }),
{
    let mut first_stack_operand: i32 = 0;
    let mut jump_offset: i32 = 0;
    match jump_one_op_helper(
        stack,
        program_counter,
        method,
        &mut first_stack_operand,
        &mut jump_offset,
    ) {
        Ok(()) => {},
        Err(e) => {
            return Err(e);
        },
    }
    let v = first_stack_operand;
    if v == 0 {
        match apply_jump(program_counter, jump_offset) {
            Ok(()) => {},
            Err(e) => {
                return Err(e);
            },
        }
    }
    Ok(())
}

/// Pops one value and branches when it is not zero; the taken branch sets the
/// program counter to the opcode's position plus the encoded offset.
pub fn ifne_helper(stack: &mut stack_t, program_counter: &mut usize, method: &method_t) -> (r: Result<
    (),
    VmError,
>)
    requires
        old(stack).wf(),
    ensures
        r is Err ==> crate::is_runtime_error(r->Err_0),
        final(stack).wf(),
        final(stack).size == old(stack).size,
        r is Ok <==> (old(program_counter) + 2 < method.code.code@.len() && old(stack)@.len() > 0
            && ({
            let v = old(stack)@.last();
            let k = sign16(
                method.code.code@[old(program_counter) + 1],
                method.code.code@[old(program_counter) + 2],
            );
            (v != 0) ==> 0 <= old(program_counter) + k <= usize::MAX
        })),
        r is Ok ==> final(stack)@ == old(stack)@.drop_last() && ({
            let v = old(stack)@.last();
            let k = sign16(
                method.code.code@[old(program_counter) + 1],
                method.code.code@[old(program_counter) + 2],
            );
            if v != 0 {
                *final(program_counter) == *old(program_counter) + k
            } else {
                *final(program_counter) == *old(program_counter) + 3
            }
        }),
{
    let mut first_stack_operand: i32 = 0;
    let mut jump_offset: i32 = 0;
    match jump_one_op_helper(
        stack,
        program_counter,
        method,
        &mut first_stack_operand,
        &mut jump_offset,
    ) {
        Ok(()) => {},
        Err(e) => {
            return Err(e);
        },
    }
    let v = first_stack_operand;
    if v != 0 {
        match apply_jump(program_counter, jump_offset) {
            Ok(()) => {},
            Err(e) => {
                return Err(e);
            },
        }
    }
    Ok(())
}

/// Pops one value and branches when it is negative; the taken branch sets the
/// program counter to the opcode's position plus the encoded offset.
pub fn iflt_helper(stack: &mut stack_t, program_counter: &mut usize, method: &method_t) -> (r: Result<
    (),
    VmError,
>)
    requires
        old(stack).wf(),
    ensures
        r is Err ==> crate::is_runtime_error(r->Err_0),
        final(stack).wf(),
        final(stack).size == old(stack).size,
        r is Ok <==> (old(program_counter) + 2 < method.code.code@.len() && old(stack)@.len() > 0
            && ({
            let v = old(stack)@.last();
            let k = sign16(
                method.code.code@[old(program_counter) + 1],
                method.code.code@[old(program_counter) + 2],
            );
            (v < 0) ==> 0 <= old(program_counter) + k <= usize::MAX
        })),
        r is Ok ==> final(stack)@ == old(stack)@.drop_last() && ({
            let v = old(stack)@.last();
            let k = sign16(
                method.code.code@[old(program_counter) + 1],
                method.code.code@[old(program_counter) + 2],
            );
            if v < 0 {
                *final(program_counter) == *old(program_counter) + k
            } else {
                *final(program_counter) == *old(program_counter) + 3
            }
        }),
{
    let mut first_stack_operand: i32 = 0;
    let mut jump_offset: i32 = 0;
    match jump_one_op_helper(
        stack,
        program_counter,
        method,
        &mut first_stack_operand,
        &mut jump_offset,
    ) {
        Ok(()) => {},
        Err(e) => {
            return Err(e);
        },
    }
    let v = first_stack_operand;
    if v < 0 {
        match apply_jump(program_counter, jump_offset) {
            Ok(()) => {},
            Err(e) => {
                return Err(e);
            },
        }
    }
    Ok(())
}

/// Pops one value and branches when it is zero or positive; the taken branch sets the
/// program counter to the opcode's position plus the encoded offset.
pub fn ifge_helper(stack: &mut stack_t, program_counter: &mut usize, method: &method_t) -> (r: Result<
    (),
    VmError,
>)
    requires
        old(stack).wf(),
    ensures
        r is Err ==> crate::is_runtime_error(r->Err_0),
        final(stack).wf(),
        final(stack).size == old(stack).size,
        r is Ok <==> (old(program_counter) + 2 < method.code.code@.len() && old(stack)@.len() > 0
            && ({
            let v = old(stack)@.last();
            let k = sign16(
                method.code.code@[old(program_counter) + 1],
                method.code.code@[old(program_counter) + 2],
            );
            (v >= 0) ==> 0 <= old(program_counter) + k <= usize::MAX
        })),
        r is Ok ==> final(stack)@ == old(stack)@.drop_last() && ({
            let v = old(stack)@.last();
            let k = sign16(
                method.code.code@[old(program_counter) + 1],
                method.code.code@[old(program_counter) + 2],
            );
            if v >= 0 {
                *final(program_counter) == *old(program_counter) + k
            } else {
                *final(program_counter) == *old(program_counter) + 3
            }
        }),
{
    let mut first_stack_operand: i32 = 0;
    let mut jump_offset: i32 = 0;
    match jump_one_op_helper(
        stack,
        program_counter,
        method,
        &mut first_stack_operand,
        &mut jump_offset,
    ) {
        Ok(()) => {},
        Err(e) => {
            return Err(e);
        },
    }
    let v = first_stack_operand;
    if v >= 0 {
        match apply_jump(program_counter, jump_offset) {
            Ok(()) => {},
            Err(e) => {
                return Err(e);
            },
        }
    }
    Ok(())
}

/// Pops one value and branches when it is positive; the taken branch sets the
/// program counter to the opcode's position plus the encoded offset.
pub fn ifgt_helper(stack: &mut stack_t, program_counter: &mut usize, method: &method_t) -> (r: Result<
    (),
    VmError,
>)
    requires
        old(stack).wf(),
    ensures
        r is Err ==> crate::is_runtime_error(r->Err_0),
        final(stack).wf(),
        final(stack).size == old(stack).size,
        r is Ok <==> (old(program_counter) + 2 < method.code.code@.len() && old(stack)@.len() > 0
            && ({
            let v = old(stack)@.last();
            let k = sign16(
                method.code.code@[old(program_counter) + 1],
                method.code.code@[old(program_counter) + 2],
            );
            (v > 0) ==> 0 <= old(program_counter) + k <= usize::MAX
        })),
        r is Ok ==> final(stack)@ == old(stack)@.drop_last() && ({
            let v = old(stack)@.last();
            let k = sign16(
                method.code.code@[old(program_counter) + 1],
                method.code.code@[old(program_counter) + 2],
            );
            if v > 0 {
                *final(program_counter) == *old(program_counter) + k
            } else {
                *final(program_counter) == *old(program_counter) + 3
            }
        }),
{
    let mut first_stack_operand: i32 = 0;
    let mut jump_offset: i32 = 0;
    match jump_one_op_helper(
        stack,
        program_counter,
        method,
        &mut first_stack_operand,
        &mut jump_offset,
    ) {
        Ok(()) => {},
        Err(e) => {
            return Err(e);
        },
    }
    let v = first_stack_operand;
    if v > 0 {
        match apply_jump(program_counter, jump_offset) {
            Ok(()) => {},
            Err(e) => {
                return Err(e);
            },
        }
    }
    Ok(())
}

/// Pops one value and branches when it is zero or negative; the taken branch sets the
/// program counter to the opcode's position plus the encoded offset.
pub fn ifle_helper(stack: &mut stack_t, program_counter: &mut usize, method: &method_t) -> (r: Result<
    (),
    VmError,
>)
    requires
        old(stack).wf(),
    ensures
        r is Err ==> crate::is_runtime_error(r->Err_0),
        final(stack).wf(),
        final(stack).size == old(stack).size,
        r is Ok <==> (old(program_counter) + 2 < method.code.code@.len() && old(stack)@.len() > 0
            && ({
            let v = old(stack)@.last();
            let k = sign16(
                method.code.code@[old(program_counter) + 1],
                method.code.code@[old(program_counter) + 2],
            );
            (v <= 0) ==> 0 <= old(program_counter) + k <= usize::MAX
        })),
        r is Ok ==> final(stack)@ == old(stack)@.drop_last() && ({
            let v = old(stack)@.last();
            let k = sign16(
                method.code.code@[old(program_counter) + 1],
                method.code.code@[old(program_counter) + 2],
            );
            if v <= 0 {
                *final(program_counter) == *old(program_counter) + k
            } else {
                *final(program_counter) == *old(program_counter) + 3
            }
        }),
{
    let mut first_stack_operand: i32 = 0;
    let mut jump_offset: i32 = 0;
    match jump_one_op_helper(
        stack,
        program_counter,
        method,
        &mut first_stack_operand,
        &mut jump_offset,
    ) {
        Ok(()) => {},
        Err(e) => {
            return Err(e);
        },
    }
    let v = first_stack_operand;
    if v <= 0 {
        match apply_jump(program_counter, jump_offset) {
            Ok(()) => {},
            Err(e) => {
                return Err(e);
            },
        }
    }
    Ok(())
}

/// Pops two values (the second popped is the left-hand side) and branches
/// when the two are equal; the taken branch sets the program counter to the opcode's
/// position plus the encoded offset.
pub fn if_icmpeq_helper(stack: &mut stack_t, program_counter: &mut usize, method: &method_t) -> (r: Result<
    (),
    VmError,
>)
    requires
        old(stack).wf(),
    ensures
        r is Err ==> crate::is_runtime_error(r->Err_0),
        final(stack).wf(),
        final(stack).size == old(stack).size,
        r is Ok <==> (old(program_counter) + 2 < method.code.code@.len() && old(stack)@.len() >= 2
            && ({
            let n = old(stack)@.len();
            let a = old(stack)@[n - 2];
            let b = old(stack)@[n - 1];
            let k = sign16(
                method.code.code@[old(program_counter) + 1],
                method.code.code@[old(program_counter) + 2],
            );
            (a == b) ==> 0 <= old(program_counter) + k <= usize::MAX
        })),
        r is Ok ==> ({
            let n = old(stack)@.len();
            let a = old(stack)@[n - 2];
            let b = old(stack)@[n - 1];
            let k = sign16(
                method.code.code@[old(program_counter) + 1],
                method.code.code@[old(program_counter) + 2],
            );
            final(stack)@ == old(stack)@.subrange(0, n - 2) && (if a == b {
                *final(program_counter) == *old(program_counter) + k
            } else {
                *final(program_counter) == *old(program_counter) + 3
            })
        }),
{
    let mut first_stack_operand: i32 = 0;
    let mut second_stack_operand: i32 = 0;
    let mut jump_offset: i32 = 0;
    match jump_two_ops_helper(
        stack,
        program_counter,
        method,
        &mut first_stack_operand,
        &mut second_stack_operand,
        &mut jump_offset,
    ) {
        Ok(()) => {},
        Err(e) => {
            return Err(e);
        },
    }
    let a = first_stack_operand;
    let b = second_stack_operand;
    if a == b {
        match apply_jump(program_counter, jump_offset) {
            Ok(()) => {},
            Err(e) => {
                return Err(e);
            },
        }
    }
    Ok(())
}

/// Pops two values (the second popped is the left-hand side) and branches
/// when the two differ; the taken branch sets the program counter to the opcode's
/// position plus the encoded offset.
pub fn if_icmpne_helper(stack: &mut stack_t, program_counter: &mut usize, method: &method_t) -> (r: Result<
    (),
    VmError,
>)
    requires
        old(stack).wf(),
    ensures
        r is Err ==> crate::is_runtime_error(r->Err_0),
        final(stack).wf(),
        final(stack).size == old(stack).size,
        r is Ok <==> (old(program_counter) + 2 < method.code.code@.len() && old(stack)@.len() >= 2
            && ({
            let n = old(stack)@.len();
            let a = old(stack)@[n - 2];
            let b = old(stack)@[n - 1];
            let k = sign16(
                method.code.code@[old(program_counter) + 1],
                method.code.code@[old(program_counter) + 2],
            );
            (a != b) ==> 0 <= old(program_counter) + k <= usize::MAX
        })),
        r is Ok ==> ({
            let n = old(stack)@.len();
            let a = old(stack)@[n - 2];
            let b = old(stack)@[n - 1];
            let k = sign16(
                method.code.code@[old(program_counter) + 1],
                method.code.code@[old(program_counter) + 2],
            );
            final(stack)@ == old(stack)@.subrange(0, n - 2) && (if a != b {
                *final(program_counter) == *old(program_counter) + k
            } else {
                *final(program_counter) == *old(program_counter) + 3
            })
        }),
{
    let mut first_stack_operand: i32 = 0;
    let mut second_stack_operand: i32 = 0;
    let mut jump_offset: i32 = 0;
    match jump_two_ops_helper(
        stack,
        program_counter,
        method,
        &mut first_stack_operand,
        &mut second_stack_operand,
        &mut jump_offset,
    ) {
        Ok(()) => {},
        Err(e) => {
            return Err(e);
        },
    }
    let a = first_stack_operand;
    let b = second_stack_operand;
    if a != b {
        match apply_jump(program_counter, jump_offset) {
            Ok(()) => {},
            Err(e) => {
                return Err(e);
            },
        }
    }
    Ok(())
}

/// Pops two values (the second popped is the left-hand side) and branches
/// when the left is less; the taken branch sets the program counter to the opcode's
/// position plus the encoded offset.
pub fn if_icmplt_helper(stack: &mut stack_t, program_counter: &mut usize, method: &method_t) -> (r: Result<
    (),
    VmError,
>)
    requires
        old(stack).wf(),
    ensures
        r is Err ==> crate::is_runtime_error(r->Err_0),
        final(stack).wf(),
        final(stack).size == old(stack).size,
        r is Ok <==> (old(program_counter) + 2 < method.code.code@.len() && old(stack)@.len() >= 2
            && ({
            let n = old(stack)@.len();
            let a = old(stack)@[n - 2];
            let b = old(stack)@[n - 1];
            let k = sign16(
                method.code.code@[old(program_counter) + 1],
                method.code.code@[old(program_counter) + 2],
            );
            (a < b) ==> 0 <= old(program_counter) + k <= usize::MAX
        })),
        r is Ok ==> ({
            let n = old(stack)@.len();
            let a = old(stack)@[n - 2];
            let b = old(stack)@[n - 1];
            let k = sign16(
                method.code.code@[old(program_counter) + 1],
                method.code.code@[old(program_counter) + 2],
            );
            final(stack)@ == old(stack)@.subrange(0, n - 2) && (if a < b {
                *final(program_counter) == *old(program_counter) + k
            } else {
                *final(program_counter) == *old(program_counter) + 3
            })
        }),
{
    let mut first_stack_operand: i32 = 0;
    let mut second_stack_operand: i32 = 0;
    let mut jump_offset: i32 = 0;
    match jump_two_ops_helper(
        stack,
        program_counter,
        method,
        &mut first_stack_operand,
        &mut second_stack_operand,
        &mut jump_offset,
    ) {
        Ok(()) => {},
        Err(e) => {
            return Err(e);
        },
    }
    let a = first_stack_operand;
    let b = second_stack_operand;
    if a < b {
        match apply_jump(program_counter, jump_offset) {
            Ok(()) => {},
            Err(e) => {
                return Err(e);
            },
        }
    }
    Ok(())
}

/// Pops two values (the second popped is the left-hand side) and branches
/// when the left is not less; the taken branch sets the program counter to the opcode's
/// position plus the encoded offset.
pub fn if_icmpge_helper(stack: &mut stack_t, program_counter: &mut usize, method: &method_t) -> (r: Result<
    (),
    VmError,
>)
    requires
        old(stack).wf(),
    ensures
        r is Err ==> crate::is_runtime_error(r->Err_0),
        final(stack).wf(),
        final(stack).size == old(stack).size,
        r is Ok <==> (old(program_counter) + 2 < method.code.code@.len() && old(stack)@.len() >= 2
            && ({
            let n = old(stack)@.len();
            let a = old(stack)@[n - 2];
            let b = old(stack)@[n - 1];
            let k = sign16(
                method.code.code@[old(program_counter) + 1],
                method.code.code@[old(program_counter) + 2],
            );
            (a >= b) ==> 0 <= old(program_counter) + k <= usize::MAX
        })),
        r is Ok ==> ({
            let n = old(stack)@.len();
            let a = old(stack)@[n - 2];
            let b = old(stack)@[n - 1];
            let k = sign16(
                method.code.code@[old(program_counter) + 1],
                method.code.code@[old(program_counter) + 2],
            );
            final(stack)@ == old(stack)@.subrange(0, n - 2) && (if a >= b {
                *final(program_counter) == *old(program_counter) + k
            } else {
                *final(program_counter) == *old(program_counter) + 3
            })
        }),
{
    let mut first_stack_operand: i32 = 0;
    let mut second_stack_operand: i32 = 0;
    let mut jump_offset: i32 = 0;
    match jump_two_ops_helper(
        stack,
        program_counter,
        method,
        &mut first_stack_operand,
        &mut second_stack_operand,
        &mut jump_offset,
    ) {
        Ok(()) => {},
        Err(e) => {
            return Err(e);
        },
    }
    let a = first_stack_operand;
    let b = second_stack_operand;
    if a >= b {
        match apply_jump(program_counter, jump_offset) {
            Ok(()) => {},
            Err(e) => {
                return Err(e);
            },
        }
    }
    Ok(())
}

/// Pops two values (the second popped is the left-hand side) and branches
/// when the left is greater; the taken branch sets the program counter to the opcode's
/// position plus the encoded offset.
pub fn if_icmpgt_helper(stack: &mut stack_t, program_counter: &mut usize, method: &method_t) -> (r: Result<
    (),
    VmError,
>)
    requires
        old(stack).wf(),
    ensures
        r is Err ==> crate::is_runtime_error(r->Err_0),
        final(stack).wf(),
        final(stack).size == old(stack).size,
        r is Ok <==> (old(program_counter) + 2 < method.code.code@.len() && old(stack)@.len() >= 2
            && ({
            let n = old(stack)@.len();
            let a = old(stack)@[n - 2];
            let b = old(stack)@[n - 1];
            let k = sign16(
                method.code.code@[old(program_counter) + 1],
                method.code.code@[old(program_counter) + 2],
            );
            (a > b) ==> 0 <= old(program_counter) + k <= usize::MAX
        })),
        r is Ok ==> ({
            let n = old(stack)@.len();
            let a = old(stack)@[n - 2];
            let b = old(stack)@[n - 1];
            let k = sign16(
                method.code.code@[old(program_counter) + 1],
                method.code.code@[old(program_counter) + 2],
            );
            final(stack)@ == old(stack)@.subrange(0, n - 2) && (if a > b {
                *final(program_counter) == *old(program_counter) + k
            } else {
                *final(program_counter) == *old(program_counter) + 3
            })
        }),
{
    let mut first_stack_operand: i32 = 0;
    let mut second_stack_operand: i32 = 0;
    let mut jump_offset: i32 = 0;
    match jump_two_ops_helper(
        stack,
        program_counter,
        method,
        &mut first_stack_operand,
        &mut second_stack_operand,
        &mut jump_offset,
    ) {
        Ok(()) => {},
        Err(e) => {
            return Err(e);
        },
    }
    let a = first_stack_operand;
    let b = second_stack_operand;
    if a > b {
        match apply_jump(program_counter, jump_offset) {
            Ok(()) => {},
            Err(e) => {
                return Err(e);
            },
        }
    }
    Ok(())
}

/// Pops two values (the second popped is the left-hand side) and branches
/// when the left is not greater; the taken branch sets the program counter to the opcode's
/// position plus the encoded offset.
pub fn if_icmple_helper(stack: &mut stack_t, program_counter: &mut usize, method: &method_t) -> (r: Result<
    (),
    VmError,
>)
    requires
        old(stack).wf(),
    ensures
        r is Err ==> crate::is_runtime_error(r->Err_0),
        final(stack).wf(),
        final(stack).size == old(stack).size,
        r is Ok <==> (old(program_counter) + 2 < method.code.code@.len() && old(stack)@.len() >= 2
            && ({
            let n = old(stack)@.len();
            let a = old(stack)@[n - 2];
            let b = old(stack)@[n - 1];
            let k = sign16(
                method.code.code@[old(program_counter) + 1],
                method.code.code@[old(program_counter) + 2],
            );
            (a <= b) ==> 0 <= old(program_counter) + k <= usize::MAX
        })),
        r is Ok ==> ({
            let n = old(stack)@.len();
            let a = old(stack)@[n - 2];
            let b = old(stack)@[n - 1];
            let k = sign16(
                method.code.code@[old(program_counter) + 1],
                method.code.code@[old(program_counter) + 2],
            );
            final(stack)@ == old(stack)@.subrange(0, n - 2) && (if a <= b {
                *final(program_counter) == *old(program_counter) + k
            } else {
                *final(program_counter) == *old(program_counter) + 3
            })
        }),
{
    let mut first_stack_operand: i32 = 0;
    let mut second_stack_operand: i32 = 0;
    let mut jump_offset: i32 = 0;
    match jump_two_ops_helper(
        stack,
        program_counter,
        method,
        &mut first_stack_operand,
        &mut second_stack_operand,
        &mut jump_offset,
    ) {
        Ok(()) => {},
        Err(e) => {
            return Err(e);
        },
    }
    let a = first_stack_operand;
    let b = second_stack_operand;
    if a <= b {
        match apply_jump(program_counter, jump_offset) {
            Ok(()) => {},
            Err(e) => {
                return Err(e);
            },
        }
    }
    Ok(())
}

/// Branches unconditionally: the program counter moves to the opcode's
/// position plus the encoded offset.
pub fn goto_helper(program_counter: &mut usize, method: &method_t) -> (r: Result<(), VmError>)
    ensures
        r is Err ==> crate::is_runtime_error(r->Err_0),
        r is Ok <==> (old(program_counter) + 2 < method.code.code@.len() && 0 <= old(program_counter) + sign16(
            method.code.code@[old(program_counter) + 1],
            method.code.code@[old(program_counter) + 2],
        ) <= usize::MAX),
        r is Ok ==> *final(program_counter) == *old(program_counter) + sign16(
            method.code.code@[old(program_counter) + 1],
            method.code.code@[old(program_counter) + 2],
        ),
{
    let pc = *program_counter;
    let len = method.code.code.len();
    if pc >= len || len - pc < 3 {
        return Err(VmError::CodeOutOfBounds);
    }
    *program_counter = pc + 1;
    let offset = match jump_offset_helper(program_counter, method) {
        Ok(o) => o,
        Err(e) => {
            return Err(e);
        },
    };
    apply_jump(program_counter, offset)
}

// ---------------------------------------------------------------------------
// Returns and calls out
// ---------------------------------------------------------------------------

/// Pops the return value, records it, and moves the program counter to the
/// end of the code so the dispatch loop stops.
pub fn ireturn_helper(
    stack: &mut stack_t,
    program_counter: &mut usize,
    method: &method_t,
    result: &mut Option<i32>,
) -> (r: Result<(), VmError>)
    requires
        old(stack).wf(),
    ensures
        r is Err ==> crate::is_runtime_error(r->Err_0),
        final(stack).wf(),
        final(stack).size == old(stack).size,
        r is Ok <==> old(stack)@.len() > 0,
        r is Ok ==> final(stack)@ == old(stack)@.drop_last() && *final(result) == Some(
            old(stack)@.last(),
        ) && *final(program_counter) == method.code.code_length as usize,
        r is Err ==> final(stack)@ == old(stack)@ && *final(result) == *old(result) && *final(program_counter) == *old(program_counter) && r == Result::<(), VmError>::Err(
            VmError::StackUnderflow,
        ),
{
    let mut value: i32 = 0;
    if !stack_pop(stack, &mut value) {
        return Err(VmError::StackUnderflow);
    }
    *result = Some(value);
    // Move the program counter to the end of the method so the dispatch loop
    // stops.
    *program_counter = method.code.code_length as usize;
    Ok(())
}

/// Pops a heap reference as the return value (references are plain integers)
/// and moves the program counter to the end of the code.
pub fn areturn_helper(
    stack: &mut stack_t,
    program_counter: &mut usize,
    method: &method_t,
    return_value: &mut Option<i32>,
) -> (r: Result<(), VmError>)
    requires
        old(stack).wf(),
    ensures
        r is Err ==> crate::is_runtime_error(r->Err_0),
        final(stack).wf(),
        final(stack).size == old(stack).size,
        r is Ok <==> old(stack)@.len() > 0,
        r is Ok ==> final(stack)@ == old(stack)@.drop_last() && *final(return_value) == Some(
            old(stack)@.last(),
        ) && *final(program_counter) == method.code.code_length as usize,
        r is Err ==> final(stack)@ == old(stack)@ && *final(return_value) == *old(return_value)
            && *final(program_counter) == *old(program_counter) && r == Result::<(), VmError>::Err(
            VmError::StackUnderflow,
        ),
{
    let mut reference: i32 = 0;
    if !stack_pop(stack, &mut reference) {
        return Err(VmError::StackUnderflow);
    }
    *return_value = Some(reference);
    *program_counter = method.code.code_length as usize;
    Ok(())
}

/// Returns void: moves the program counter to the end of the code so the
/// dispatch loop stops.
pub fn return_helper(program_counter: &mut usize, method: &method_t)
    ensures
        *final(program_counter) == method.code.code_length as usize,
{
    *program_counter = method.code.code_length as usize;
}

/// Skips a `getstatic` instruction: there is no static-field model, so the
/// opcode and its two operand bytes are stepped over and nothing else happens.
pub fn getstatic_helper(program_counter: &mut usize)
    ensures
        *final(program_counter) == vstd::wrapping::usize_specs::wrapping_add(
            *old(program_counter),
            3,
        ),
{
    *program_counter = program_counter.wrapping_add(1);
    *program_counter = program_counter.wrapping_add(TWO_OPERAND_OFFSET);
}

/// Pops the top value and appends it to the output stream, then skips the two
/// operand bytes.  This stands in for the one virtual call valid input makes,
/// the line-printing call.
pub fn invokevirtual_helper(
    stack: &mut stack_t,
    program_counter: &mut usize,
    output: &mut Vec<i32>,
) -> (r: Result<(), VmError>)
    requires
        old(stack).wf(),
    ensures
        r is Err ==> crate::is_runtime_error(r->Err_0),
        final(stack).wf(),
        final(stack).size == old(stack).size,
        r is Ok <==> old(stack)@.len() > 0,
        r is Ok ==> final(stack)@ == old(stack)@.drop_last() && final(output)@ == old(
            output,
        )@.push(old(stack)@.last()) && *final(program_counter)
            == vstd::wrapping::usize_specs::wrapping_add(
            vstd::wrapping::usize_specs::wrapping_add(*old(program_counter), 1),
            2,
        ),
        r is Err ==> final(stack)@ == old(stack)@ && final(output)@ == old(output)@ && *final(program_counter) == *old(program_counter) && r == Result::<(), VmError>::Err(
            VmError::StackUnderflow,
        ),
{
    let mut value: i32 = 0;
    if !stack_pop(stack, &mut value) {
        return Err(VmError::StackUnderflow);
    }
    output.push(value);
    *program_counter = program_counter.wrapping_add(1);
    *program_counter = program_counter.wrapping_add(TWO_OPERAND_OFFSET);
    Ok(())
}

/// Reports an instruction outside the supported dispatch.  Always fatal.
pub fn not_implemented_helper(program_counter: &mut usize, opcode: &jvm_instruction_t) -> (r:
    Result<(), VmError>)
    ensures
        r is Err ==> crate::is_runtime_error(r->Err_0),
        r == Result::<(), VmError>::Err(VmError::InvalidOpcode),
        *final(program_counter) == vstd::wrapping::usize_specs::wrapping_add(
            vstd::wrapping::usize_specs::wrapping_add(*old(program_counter), 1),
            1,
        ),
{
    *program_counter = program_counter.wrapping_add(1);
    *program_counter = program_counter.wrapping_add(1);
    Err(VmError::InvalidOpcode)
}


// ---------------------------------------------------------------------------
// Laws
// ---------------------------------------------------------------------------

/// `newarray` followed by `arraylength` on the reference it pushed yields
/// exactly the count that was passed: the new array sits at the old heap
/// length, is zero-filled, and is `c` long.
pub proof fn lemma_newarray_then_arraylength(h: Seq<Seq<i32>>, c: nat)
    ensures
        ({
            let h2 = h.push(Seq::new(c, |i: int| 0i32));
            &&& h2[h.len() as int].len() == c
            &&& forall|i: int| 0 <= i < c ==> h2[h.len() as int][i] == 0i32
        }),
{
}

/// `iastore` followed by `iaload` of the same in-bounds index on the same
/// reference yields the value that was stored.
pub proof fn lemma_iastore_then_iaload(h: Seq<Seq<i32>>, reference: int, index: int, value: i32)
    requires
        0 <= reference < h.len(),
        0 <= index < h[reference].len(),
    ensures
        h.update(reference, h[reference].update(index, value))[reference][index] == value,
{
}

/// Storing at one index never disturbs another: `iaload` at a different
/// in-bounds index of the same array, or any index of another array, sees the
/// old value.
pub proof fn lemma_iastore_preserves_others(
    h: Seq<Seq<i32>>,
    reference: int,
    index: int,
    value: i32,
    other_ref: int,
    other_index: int,
)
    requires
        0 <= reference < h.len(),
        0 <= index < h[reference].len(),
        0 <= other_ref < h.len(),
        0 <= other_index < h[other_ref].len(),
        other_ref != reference || other_index != index,
    ensures
        h.update(reference, h[reference].update(index, value))[other_ref][other_index]
            == h[other_ref][other_index],
{
}

/// Branch offsets round-trip: a 16-bit offset value `k`, encoded big-endian
/// in the two bytes after a branch opcode, decodes back to exactly `k`, so a
/// taken branch at position `p` moves the program counter to exactly `p + k`.
pub proof fn lemma_branch_offset_round_trip(k: int)
    requires
        -0x8000 <= k <= 0x7fff,
    ensures
        ({
            let v = if k < 0 {
                k + 0x10000
            } else {
                k
            };
            sign16((v / 0x100) as u8, (v % 0x100) as u8) == k
        }),
{
    let v = if k < 0 {
        k + 0x10000
    } else {
        k
    };
    vstd::arithmetic::div_mod::lemma_fundamental_div_mod(v, 0x100);
    vstd::arithmetic::div_mod::lemma_mod_bound(v, 0x100);
    vstd::arithmetic::div_mod::lemma_div_nonincreasing(v, 0x100);
    vstd::arithmetic::div_mod::lemma_div_is_ordered(0, v, 0x100);
    vstd::arithmetic::div_mod::lemma_div_of0(0x100);
    assert(0 <= v <= 0xffff);
    assert(v == 0x100 * (v / 0x100) + v % 0x100);
    assert(0 <= v / 0x100 <= 0xff) by {
        if v / 0x100 > 0xff {
            assert(0x100 * (v / 0x100) >= 0x100 * 0x100) by (nonlinear_arith)
                requires v / 0x100 >= 0x100;
        }
    }
    assert(sign16((v / 0x100) as u8, (v % 0x100) as u8) == if v < 0x8000 {
        v
    } else {
        v - 0x10000
    });
}


} // verus!
