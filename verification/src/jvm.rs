//! The fetch-decode-execute loop: one frame per method activation, dispatch
//! to the per-opcode handlers, recursion into itself for static calls, and
//! the driver that locates and runs `main`.
//!
//! A step budget (`fuel`) bounds both the number of dispatched instructions
//! and the call depth, so a runaway program ends in [`VmError::OutOfFuel`]
//! instead of running forever.

use vstd::prelude::*;

use crate::opcode::{
    aload_helper, aload_n_helper, areturn_helper, astore_helper, astore_n_helper, arraylength_helper, bipush_helper, dup_helper,
    getstatic_helper, goto_helper, heap_extends, heap_t, heap_view, iadd_helper, iaload_helper,
    iand_helper, iastore_helper, iconst_helper, idiv_helper, if_icmpeq_helper, if_icmpge_helper,
    if_icmpgt_helper, if_icmple_helper, if_icmplt_helper, if_icmpne_helper, ifeq_helper,
    ifge_helper, ifgt_helper, ifle_helper, iflt_helper, ifne_helper, iinc_helper, iload_helper,
    iload_n_helper, imul_helper, ineg_helper, invokevirtual_helper, ior_helper, irem_helper,
    ireturn_helper, ishl_helper, ishr_helper, istore_helper, istore_n_helper, isub_helper,
    iushr_helper, ixor_helper, jvm_instruction_t, ldc_helper, newarray_helper, return_helper,
    sipush_helper, spec_opcode_of_byte, zero_array, aload_slot, astore_slot, i32_of_u32_bits,
    iconst_value, iload_slot, istore_slot, jvm_div, jvm_rem, sign16, sign8, u32_of_i32, wrap_add,
    wrap_mul, wrap_neg, wrap_sub,
};
use crate::read_class::{
    class_file_t, method_t, method_wf, spec_find_method, find_method, find_method_from_index,
    get_number_of_parameters, spec_resolved_name_and_desc, lemma_find_method_is_element,
    ClassView, CpEntryView, CpInfoView, MethodView, cp_info_tag, pool_view, spec_param_count,
};
use crate::stack::{stack_init, stack_pop, stack_push, stack_t};
use crate::VmError;

verus! {

/// The name of the method the driver invokes.
pub const MAIN_METHOD: &'static str = "main";

/// The descriptor of the method the driver invokes: it takes an array of
/// strings (never populated, as there is no string model) and returns void.
pub const MAIN_DESCRIPTOR: &'static str = "([Ljava/lang/String;)V";

/// Dispatches the instruction at the program counter to its handler.  The
/// call instruction is the one exception: it recurses and is dispatched by
/// [`execute`] itself, so it may not appear here.
fn opcode_helper(
    stack: &mut stack_t,
    program_counter: &mut usize,
    method: &method_t,
    locals: &mut Vec<i32>,
    class: &class_file_t,
    heap: &mut heap_t,
    output: &mut Vec<i32>,
    result: &mut Option<i32>,
) -> (r: Result<(), VmError>)
    requires
        old(stack).wf(),
        *old(program_counter) < method.code.code@.len() ==> spec_opcode_of_byte(
            method.code.code@[(*old(program_counter)) as int],
        ) != Some(jvm_instruction_t::i_invokestatic),
    ensures
        final(stack).wf(),
        final(stack).size == old(stack).size,
        final(locals)@.len() == old(locals)@.len(),
        heap_extends(heap_view(final(heap)@), heap_view(old(heap)@)),
        old(output)@.is_prefix_of(final(output)@),
        r is Err ==> crate::is_runtime_error(r->Err_0),
        ({
            let s0 = FrameState {
                pc: *old(program_counter),
                stack: old(stack)@,
                locals: old(locals)@,
                heap: heap_view(old(heap)@),
                output: old(output)@,
                result: *old(result),
            };
            let post = spec_step(
                method.code.code@,
                method.code.code_length as usize,
                pool_view(class.constant_pool@),
                old(stack).size as int,
                s0,
            );
            &&& (r is Ok <==> post is Some)
            &&& (r is Ok ==> {
                let s1 = post->0;
                &&& *final(program_counter) == s1.pc
                &&& final(stack)@ == s1.stack
                &&& final(locals)@ == s1.locals
                &&& heap_view(final(heap)@) == s1.heap
                &&& final(output)@ == s1.output
                &&& *final(result) == s1.result
            })
        }),
{
    proof {
        assert(heap_extends(heap_view(heap@), heap_view(heap@)));
    }
    let pc = *program_counter;
    if pc >= method.code.code.len() {
        return Err(VmError::CodeOutOfBounds);
    }
    let opcode = match jvm_instruction_t::try_from(method.code.code[pc]) {
        Some(op) => op,
        None => {
            return Err(VmError::InvalidOpcode);
        },
    };
    let r = match opcode {
        jvm_instruction_t::i_nop => {
            *program_counter = pc + 1;
            Ok(())
        },
        jvm_instruction_t::i_iconst_m1
        | jvm_instruction_t::i_iconst_0
        | jvm_instruction_t::i_iconst_1
        | jvm_instruction_t::i_iconst_2
        | jvm_instruction_t::i_iconst_3
        | jvm_instruction_t::i_iconst_4
        | jvm_instruction_t::i_iconst_5 => iconst_helper(opcode, stack, program_counter),
        jvm_instruction_t::i_bipush => bipush_helper(stack, program_counter, method),
        jvm_instruction_t::i_sipush => sipush_helper(stack, program_counter, method),
        jvm_instruction_t::i_ldc => ldc_helper(stack, program_counter, method, class),
        jvm_instruction_t::i_iload => iload_helper(
            stack,
            program_counter,
            method,
            locals.as_slice(),
        ),
        jvm_instruction_t::i_aload => aload_helper(
            stack,
            program_counter,
            method,
            locals.as_slice(),
        ),
        jvm_instruction_t::i_iload_0
        | jvm_instruction_t::i_iload_1
        | jvm_instruction_t::i_iload_2
        | jvm_instruction_t::i_iload_3 => iload_n_helper(
            opcode,
            stack,
            program_counter,
            locals.as_slice(),
        ),
        jvm_instruction_t::i_aload_0
        | jvm_instruction_t::i_aload_1
        | jvm_instruction_t::i_aload_2
        | jvm_instruction_t::i_aload_3 => aload_n_helper(
            opcode,
            stack,
            program_counter,
            locals.as_slice(),
        ),
        jvm_instruction_t::i_iaload => iaload_helper(stack, program_counter, heap),
        jvm_instruction_t::i_istore => istore_helper(stack, program_counter, method, locals),
        jvm_instruction_t::i_astore => astore_helper(stack, program_counter, method, locals),
        jvm_instruction_t::i_istore_0
        | jvm_instruction_t::i_istore_1
        | jvm_instruction_t::i_istore_2
        | jvm_instruction_t::i_istore_3 => istore_n_helper(opcode, stack, program_counter, locals),
        jvm_instruction_t::i_astore_0
        | jvm_instruction_t::i_astore_1
        | jvm_instruction_t::i_astore_2
        | jvm_instruction_t::i_astore_3 => astore_n_helper(opcode, stack, program_counter, locals),
        jvm_instruction_t::i_iastore => iastore_helper(stack, program_counter, heap),
        jvm_instruction_t::i_dup => dup_helper(stack, program_counter),
        jvm_instruction_t::i_iadd => iadd_helper(stack, program_counter),
        jvm_instruction_t::i_isub => isub_helper(stack, program_counter),
        jvm_instruction_t::i_imul => imul_helper(stack, program_counter),
        jvm_instruction_t::i_idiv => idiv_helper(stack, program_counter),
        jvm_instruction_t::i_irem => irem_helper(stack, program_counter),
        jvm_instruction_t::i_ineg => ineg_helper(stack, program_counter),
        jvm_instruction_t::i_ishl => ishl_helper(stack, program_counter),
        jvm_instruction_t::i_ishr => ishr_helper(stack, program_counter),
        jvm_instruction_t::i_iushr => iushr_helper(stack, program_counter),
        jvm_instruction_t::i_iand => iand_helper(stack, program_counter),
        jvm_instruction_t::i_ior => ior_helper(stack, program_counter),
        jvm_instruction_t::i_ixor => ixor_helper(stack, program_counter),
        jvm_instruction_t::i_iinc => iinc_helper(program_counter, method, locals),
        jvm_instruction_t::i_ifeq => ifeq_helper(stack, program_counter, method),
        jvm_instruction_t::i_ifne => ifne_helper(stack, program_counter, method),
        jvm_instruction_t::i_iflt => iflt_helper(stack, program_counter, method),
        jvm_instruction_t::i_ifge => ifge_helper(stack, program_counter, method),
        jvm_instruction_t::i_ifgt => ifgt_helper(stack, program_counter, method),
        jvm_instruction_t::i_ifle => ifle_helper(stack, program_counter, method),
        jvm_instruction_t::i_if_icmpeq => if_icmpeq_helper(stack, program_counter, method),
        jvm_instruction_t::i_if_icmpne => if_icmpne_helper(stack, program_counter, method),
        jvm_instruction_t::i_if_icmplt => if_icmplt_helper(stack, program_counter, method),
        jvm_instruction_t::i_if_icmpge => if_icmpge_helper(stack, program_counter, method),
        jvm_instruction_t::i_if_icmpgt => if_icmpgt_helper(stack, program_counter, method),
        jvm_instruction_t::i_if_icmple => if_icmple_helper(stack, program_counter, method),
        jvm_instruction_t::i_goto => goto_helper(program_counter, method),
        jvm_instruction_t::i_ireturn => ireturn_helper(stack, program_counter, method, result),
        jvm_instruction_t::i_areturn => areturn_helper(stack, program_counter, method, result),
        jvm_instruction_t::i_return => {
            return_helper(program_counter, method);
            Ok(())
        },
        jvm_instruction_t::i_getstatic => {
            getstatic_helper(program_counter);
            Ok(())
        },
        jvm_instruction_t::i_invokevirtual => invokevirtual_helper(
            stack,
            program_counter,
            output,
        ),
        jvm_instruction_t::i_invokestatic => Err(VmError::InvalidOpcode),
        jvm_instruction_t::i_newarray => newarray_helper(stack, program_counter, method, heap),
        jvm_instruction_t::i_arraylength => arraylength_helper(stack, program_counter, heap),
    };
    proof {
        assert(heap_extends(heap_view(heap@), heap_view(old(heap)@)));
    }
    r
}

/// Resolves the two operand bytes as a method-reference pool index, looks the
/// target method up, pops its arguments off the caller's stack into a fresh
/// frame (the last popped is argument 0), runs the interpreter on it with one
/// unit less fuel, and pushes its return value, if any, back on the caller's
/// stack.
pub fn invokestatic_helper(
    stack: &mut stack_t,
    program_counter: &mut usize,
    method: &method_t,
    class: &class_file_t,
    heap: &mut heap_t,
    output: &mut Vec<i32>,
    fuel: u64,
) -> (r: Result<(), VmError>)
    requires
        old(stack).wf(),
        class.wf(),
    ensures
        final(stack).wf(),
        final(stack).size == old(stack).size,
        heap_extends(heap_view(final(heap)@), heap_view(old(heap)@)),
        old(output)@.is_prefix_of(final(output)@),
        r is Ok ==> *final(program_counter) == *old(program_counter) + 3,
        r is Err ==> crate::is_runtime_error(r->Err_0),
        ({
            let post = spec_call(
                class@,
                method@,
                old(stack).size as int,
                *old(program_counter),
                old(stack)@,
                heap_view(old(heap)@),
                old(output)@,
                fuel as nat,
            );
            &&& (r is Ok <==> post is Some)
            &&& (r is Ok ==> {
                let (pc2, stack2, heap2, output2) = post->0;
                &&& *final(program_counter) == pc2
                &&& final(stack)@ == stack2
                &&& heap_view(final(heap)@) == heap2
                &&& final(output)@ == output2
            })
        }),
    decreases fuel, 1int,
{
    proof {
        assert(heap_extends(heap_view(heap@), heap_view(heap@)));
    }
    let ghost cap = old(stack).size as int;
    let pc = *program_counter;
    let len = method.code.code.len();
    if pc >= len || len - pc < 3 {
        return Err(VmError::CodeOutOfBounds);
    }
    let first_operand = method.code.code[pc + 1];
    let second_operand = method.code.code[pc + 2];
    // Fuse the two unsigned operand bytes into the pool index of the callee.
    let sub_method_index: u16 = (first_operand as u16) * 0x100 + (second_operand as u16);
    let sub_method = match find_method_from_index(sub_method_index, class) {
        Ok(Some(m)) => m,
        Ok(None) => {
            return Err(VmError::MethodNotFound);
        },
        Err(e) => {
            return Err(e);
        },
    };
    let ghost mv = sub_method@;
    proof {
        let (n, d) = spec_resolved_name_and_desc(pool_view(class.constant_pool@),
            sub_method_index)->0;
        lemma_find_method_is_element(class@.methods, n, d);
        let i = choose|i: int|
            0 <= i < class@.methods.len() && class@.methods[i] == sub_method@;
        assert(class@.methods[i] == class.methods@[i]@);
        assert(method_wf(sub_method@));
    }
    let num_args = match get_number_of_parameters(&sub_method) {
        Ok(n) => n,
        Err(e) => {
            return Err(e);
        },
    };
    // The callee's frame: its locals, with the arguments in the leading slots.
    let mut locals_ptr: Vec<i32> = zero_array(sub_method.code.max_locals as usize);
    if num_args as usize > locals_ptr.len() {
        return Err(VmError::InvalidLocalIndex);
    }
    if stack.top < num_args as usize {
        return Err(VmError::StackUnderflow);
    }
    let ghost s0 = old(stack)@;
    let ghost nargs = num_args as int;
    let mut i: usize = 0;
    while i < num_args as usize
        invariant
            stack.wf(),
            stack.size == old(stack).size,
            i <= num_args,
            s0 == old(stack)@,
            nargs == num_args,
            nargs <= s0.len(),
            nargs <= locals_ptr@.len(),
            locals_ptr@.len() == mv.code.max_locals,
            stack@ == s0.subrange(0, s0.len() - i),
            forall|j: int| nargs - i <= j < nargs ==> locals_ptr@[j] == s0[s0.len() - nargs + j],
            forall|j: int|
                (0 <= j < nargs - i || nargs <= j < locals_ptr@.len()) ==> locals_ptr@[j] == 0i32,
        decreases num_args - i,
    {
        let mut popped_value: i32 = 0;
        proof {
            assert(stack@.len() == s0.len() - i);
        }
        if !stack_pop(stack, &mut popped_value) {
            return Err(VmError::StackUnderflow);
        }
        proof {
            assert(stack@ =~= s0.subrange(0, s0.len() - (i + 1)));
            assert(popped_value == s0[s0.len() - i - 1]);
        }
        locals_ptr.set(num_args as usize - 1 - i, popped_value);
        i = i + 1;
    }
    if fuel == 0 {
        return Err(VmError::OutOfFuel);
    }
    proof {
        let sub_locals = Seq::new(
            mv.code.max_locals as nat,
            |j: int|
                if j < nargs {
                    s0[s0.len() - nargs + j]
                } else {
                    0i32
                },
        );
        assert(locals_ptr@ =~= sub_locals);
        assert(stack@ == s0.subrange(0, s0.len() - nargs));
    }
    let ghost sub0 = FrameState {
        pc: 0,
        stack: Seq::<i32>::empty(),
        locals: locals_ptr@,
        heap: heap_view(heap@),
        output: output@,
        result: None,
    };
    proof {
        assert(heap_view(heap@) == heap_view(old(heap)@));
        assert(output@ == old(output)@);
    }
    let returned_value = match execute(&sub_method, &mut locals_ptr, class, heap, output, fuel - 1)
        {
        Ok(v) => v,
        Err(e) => {
            proof {
                assert(spec_run(class@, mv, sub0, (fuel - 1) as nat) is None);
                assert(spec_call(
                    class@,
                    method@,
                    cap,
                    pc,
                    s0,
                    heap_view(old(heap)@),
                    old(output)@,
                    fuel as nat,
                ) is None);
            }
            return Err(e);
        },
    };
    let ghost fin = spec_run(class@, mv, sub0, (fuel - 1) as nat)->0;
    proof {
        assert(returned_value == fin.result);
        assert(heap_view(heap@) == fin.heap);
        assert(output@ == fin.output);
        assert(stack@ == s0.subrange(0, s0.len() - nargs));
    }
    if let Some(v) = returned_value {
        if !stack_push(stack, v) {
            proof {
                assert(spec_call(
                    class@,
                    method@,
                    cap,
                    pc,
                    s0,
                    heap_view(old(heap)@),
                    old(output)@,
                    fuel as nat,
                ) is None);
            }
            return Err(VmError::StackOverflow);
        }
    }
    *program_counter = pc + 3;
    proof {
        let post = spec_call(
            class@,
            method@,
            cap,
            pc,
            s0,
            heap_view(old(heap)@),
            old(output)@,
            fuel as nat,
        );
        assert(post is Some);
        let (pc2, stack2, heap2, output2) = post->0;
        assert(stack@ == stack2);
    }
    Ok(())
}

/// Runs a method's instructions until it returns or falls off the end of its
/// code, spending one unit of fuel per instruction.  The frame's operand
/// stack is created here, bounded by the method's declared stack size; the
/// locals arrive from the caller with the parameter slots filled.  The heap
/// only ever gains arrays, and the output stream only ever gains lines.
pub fn execute(
    method: &method_t,
    locals: &mut Vec<i32>,
    class: &class_file_t,
    heap: &mut heap_t,
    output: &mut Vec<i32>,
    fuel: u64,
) -> (r: Result<Option<i32>, VmError>)
    requires
        class.wf(),
    ensures
        final(locals)@.len() == old(locals)@.len(),
        heap_extends(heap_view(final(heap)@), heap_view(old(heap)@)),
        old(output)@.is_prefix_of(final(output)@),
        r is Err ==> crate::is_runtime_error(r->Err_0),
        ({
            let s0 = FrameState {
                pc: 0,
                stack: Seq::<i32>::empty(),
                locals: old(locals)@,
                heap: heap_view(old(heap)@),
                output: old(output)@,
                result: None,
            };
            let outcome = spec_run(class@, method@, s0, fuel as nat);
            &&& (r is Ok <==> outcome is Some)
            &&& (r is Ok ==> {
                let fin = outcome->0;
                &&& r->Ok_0 == fin.result
                &&& final(locals)@ == fin.locals
                &&& heap_view(final(heap)@) == fin.heap
                &&& final(output)@ == fin.output
            })
        }),
    decreases fuel, 0int,
{
    let mut program_counter: usize = 0;
    let mut stack = stack_init(method.code.max_stack as usize);
    // Return void unless a return instruction sets a value.
    let mut result: Option<i32> = None;
    let mut fuel_left: u64 = fuel;
    let ghost s0 = FrameState {
        pc: 0,
        stack: Seq::<i32>::empty(),
        locals: locals@,
        heap: heap_view(heap@),
        output: output@,
        result: None,
    };
    proof {
        assert(heap_extends(heap_view(heap@), heap_view(heap@)));
        assert(stack@ =~= s0.stack);
    }
    while program_counter < method.code.code_length as usize
        invariant
            class.wf(),
            stack.wf(),
            stack.size == method.code.max_stack,
            fuel_left <= fuel,
            s0 == (FrameState {
                pc: 0,
                stack: Seq::<i32>::empty(),
                locals: old(locals)@,
                heap: heap_view(old(heap)@),
                output: old(output)@,
                result: None,
            }),
            locals@.len() == old(locals)@.len(),
            heap_extends(heap_view(heap@), heap_view(old(heap)@)),
            old(output)@.is_prefix_of(output@),
            spec_run(class@, method@, s0, fuel as nat) == spec_run(
                class@,
                method@,
                FrameState {
                    pc: program_counter,
                    stack: stack@,
                    locals: locals@,
                    heap: heap_view(heap@),
                    output: output@,
                    result,
                },
                fuel_left as nat,
            ),
        decreases fuel_left,
    {
        let ghost cur = FrameState {
            pc: program_counter,
            stack: stack@,
            locals: locals@,
            heap: heap_view(heap@),
            output: output@,
            result,
        };
        if fuel_left == 0 {
            proof {
                assert(spec_run(class@, method@, cur, 0nat) is None);
            }
            return Err(VmError::OutOfFuel);
        }
        fuel_left = fuel_left - 1;
        // The call instruction recurses into this interpreter, so it is
        // dispatched here rather than in the flat dispatcher.
        let is_call = program_counter < method.code.code.len() && method.code.code[program_counter]
            == 0xb8;
        if is_call {
            match invokestatic_helper(
                &mut stack,
                &mut program_counter,
                method,
                class,
                heap,
                output,
                fuel_left,
            ) {
                Ok(()) => {},
                Err(e) => {
                    proof {
                        assert(spec_run(class@, method@, cur, (fuel_left + 1) as nat) is None);
                    }
                    return Err(e);
                },
            }
            proof {
                let post = spec_call(
                    class@,
                    method@,
                    method.code.max_stack as int,
                    cur.pc,
                    cur.stack,
                    cur.heap,
                    cur.output,
                    fuel_left as nat,
                );
                let (pc2, stack2, heap2, output2) = post->0;
                let next = FrameState {
                    pc: pc2,
                    stack: stack2,
                    heap: heap2,
                    output: output2,
                    ..cur
                };
                assert(spec_run(class@, method@, cur, (fuel_left + 1) as nat) == spec_run(
                    class@,
                    method@,
                    next,
                    fuel_left as nat,
                ));
            }
        } else {
            match opcode_helper(
                &mut stack,
                &mut program_counter,
                method,
                locals,
                class,
                heap,
                output,
                &mut result,
            ) {
                Ok(()) => {},
                Err(e) => {
                    proof {
                        assert(spec_step(
                            method.code.code@,
                            method.code.code_length as usize,
                            pool_view(class.constant_pool@),
                            stack.size as int,
                            cur,
                        ) is None);
                        assert(spec_run(class@, method@, cur, (fuel_left + 1) as nat) is None);
                    }
                    return Err(e);
                },
            }
            proof {
                let next = spec_step(
                    method.code.code@,
                    method.code.code_length as usize,
                    pool_view(class.constant_pool@),
                    method.code.max_stack as int,
                    cur,
                )->0;
                assert(spec_run(class@, method@, cur, (fuel_left + 1) as nat) == spec_run(
                    class@,
                    method@,
                    next,
                    fuel_left as nat,
                ));
            }
        }
    }
    proof {
        let cur = FrameState {
            pc: program_counter,
            stack: stack@,
            locals: locals@,
            heap: heap_view(heap@),
            output: output@,
            result,
        };
        assert(spec_run(class@, method@, cur, fuel_left as nat) == Some(cur));
    }
    Ok(result)
}

/// Locates `main` by name and descriptor, gives it a fresh frame and an empty
/// heap, runs it, and returns the output stream it printed.  A missing `main`
/// and a `main` that returns a value instead of void are both fatal.
pub fn run_main(class: &class_file_t, fuel: u64) -> (r: Result<Vec<i32>, VmError>)
    requires
        class.wf(),
    ensures
        (spec_find_method(class@.methods, MAIN_METHOD@, MAIN_DESCRIPTOR@) is None) <==> (r
            == Result::<Vec<i32>, VmError>::Err(VmError::MissingMain)),
        spec_find_method(class@.methods, MAIN_METHOD@, MAIN_DESCRIPTOR@) matches Some(mv) ==> ({
            let s0 = FrameState {
                pc: 0,
                stack: Seq::<i32>::empty(),
                locals: Seq::new(mv.code.max_locals as nat, |i: int| 0i32),
                heap: Seq::<Seq<i32>>::empty(),
                output: Seq::<i32>::empty(),
                result: None,
            };
            let outcome = spec_run(class@, mv, s0, fuel as nat);
            &&& (r is Ok <==> (outcome matches Some(fin) && fin.result is None))
            &&& (r is Ok ==> r->Ok_0@ == outcome->0.output)
            &&& ((r == Result::<Vec<i32>, VmError>::Err(VmError::MainReturnedValue)) <==> (outcome
                matches Some(fin) && fin.result is Some))
        }),
{
    let main_method = match find_method(MAIN_METHOD, MAIN_DESCRIPTOR, class) {
        Some(m) => m,
        None => {
            return Err(VmError::MissingMain);
        },
    };
    // Slot 0 would hold the argument-array reference; there is no string
    // model, so it stays zero.
    let mut locals: Vec<i32> = zero_array(main_method.code.max_locals as usize);
    let mut heap: heap_t = Vec::new();
    let mut output: Vec<i32> = Vec::new();
    proof {
        assert(heap_view(heap@) =~= Seq::<Seq<i32>>::empty());
        assert(output@ =~= Seq::<i32>::empty());
    }
    match execute(&main_method, &mut locals, class, &mut heap, &mut output, fuel) {
        Ok(None) => Ok(output),
        Ok(Some(_)) => Err(VmError::MainReturnedValue),
        Err(e) => Err(e),
    }
}


// ---------------------------------------------------------------------------
// The machine's mathematical semantics
// ---------------------------------------------------------------------------

/// One frame's complete state between instructions: the program counter, the
/// operand stack, the local slots, and the shared heap, output stream, and
/// recorded return value.
pub struct FrameState {
    pub pc: usize,
    pub stack: Seq<i32>,
    pub locals: Seq<i32>,
    pub heap: Seq<Seq<i32>>,
    pub output: Seq<i32>,
    pub result: Option<i32>,
}

/// The state after the instruction at `s.pc`, or nothing when that
/// instruction is fatal there: the mathematical meaning of every opcode the
/// flat dispatcher handles.  `code` is the method's instruction bytes,
/// `code_end` its declared code length (where returns park the counter),
/// `pool` the constant pool, and `cap` the operand stack's capacity.  The
/// call instruction recurses and has no meaning here.
pub open spec fn spec_step(
    code: Seq<u8>,
    code_end: usize,
    pool: Seq<CpInfoView>,
    cap: int,
    s: FrameState,
) -> Option<FrameState> {
    if !(s.pc < code.len()) {
        None
    } else {
        let n = s.stack.len() as int;
        match spec_opcode_of_byte(code[s.pc as int]) {
            None => None,
            Some(op) => match op {
                jvm_instruction_t::i_nop => Some(FrameState { pc: (s.pc + 1) as usize, ..s }),
                jvm_instruction_t::i_iconst_m1
                | jvm_instruction_t::i_iconst_0
                | jvm_instruction_t::i_iconst_1
                | jvm_instruction_t::i_iconst_2
                | jvm_instruction_t::i_iconst_3
                | jvm_instruction_t::i_iconst_4
                | jvm_instruction_t::i_iconst_5 => {
                    if n < cap {
                        Some(
                            FrameState {
                                pc: (s.pc + 1) as usize,
                                stack: s.stack.push(iconst_value(op)->0),
                                ..s
                            },
                        )
                    } else {
                        None
                    }
                },
                jvm_instruction_t::i_bipush => {
                    if s.pc + 1 < code.len() && n < cap {
                        Some(
                            FrameState {
                                pc: (s.pc + 2) as usize,
                                stack: s.stack.push(sign8(code[s.pc + 1])),
                                ..s
                            },
                        )
                    } else {
                        None
                    }
                },
                jvm_instruction_t::i_sipush => {
                    if s.pc + 2 < code.len() && n < cap {
                        Some(
                            FrameState {
                                pc: (s.pc + 3) as usize,
                                stack: s.stack.push(sign16(code[s.pc + 1], code[s.pc + 2])),
                                ..s
                            },
                        )
                    } else {
                        None
                    }
                },
                jvm_instruction_t::i_ldc => {
                    if s.pc + 1 < code.len() && 1 <= code[s.pc + 1] <= pool.len() {
                        let slot = pool[code[s.pc + 1] - 1];
                        if slot.info is Some && slot.tag == cp_info_tag::CONSTANT_Integer {
                            match slot.info {
                                Some(CpEntryView::Integer(v)) => {
                                    if n < cap {
                                        Some(
                                            FrameState {
                                                pc: (s.pc + 2) as usize,
                                                stack: s.stack.push(v),
                                                ..s
                                            },
                                        )
                                    } else {
                                        None
                                    }
                                },
                                _ => None,
                            }
                        } else {
                            Some(FrameState { pc: (s.pc + 2) as usize, ..s })
                        }
                    } else {
                        None
                    }
                },
                jvm_instruction_t::i_iload | jvm_instruction_t::i_aload => {
                    if s.pc + 1 < code.len() && code[s.pc + 1] < s.locals.len() && n < cap {
                        Some(
                            FrameState {
                                pc: (s.pc + 2) as usize,
                                stack: s.stack.push(s.locals[code[s.pc + 1] as int]),
                                ..s
                            },
                        )
                    } else {
                        None
                    }
                },
                jvm_instruction_t::i_iload_0
                | jvm_instruction_t::i_iload_1
                | jvm_instruction_t::i_iload_2
                | jvm_instruction_t::i_iload_3 => {
                    if iload_slot(op)->0 < s.locals.len() && n < cap {
                        Some(
                            FrameState {
                                pc: (s.pc + 1) as usize,
                                stack: s.stack.push(s.locals[iload_slot(op)->0]),
                                ..s
                            },
                        )
                    } else {
                        None
                    }
                },
                jvm_instruction_t::i_aload_0
                | jvm_instruction_t::i_aload_1
                | jvm_instruction_t::i_aload_2
                | jvm_instruction_t::i_aload_3 => {
                    if aload_slot(op)->0 < s.locals.len() && n < cap {
                        Some(
                            FrameState {
                                pc: (s.pc + 1) as usize,
                                stack: s.stack.push(s.locals[aload_slot(op)->0]),
                                ..s
                            },
                        )
                    } else {
                        None
                    }
                },
                jvm_instruction_t::i_iaload => {
                    if n >= 2 && 0 <= s.stack[n - 2] < s.heap.len() && 0 <= s.stack[n - 1]
                        < s.heap[s.stack[n - 2] as int].len() {
                        Some(
                            FrameState {
                                pc: (s.pc + 1) as usize,
                                stack: s.stack.subrange(0, n - 2).push(
                                    s.heap[s.stack[n - 2] as int][s.stack[n - 1] as int],
                                ),
                                ..s
                            },
                        )
                    } else {
                        None
                    }
                },
                jvm_instruction_t::i_istore | jvm_instruction_t::i_astore => {
                    if s.pc + 1 < code.len() && code[s.pc + 1] < s.locals.len() && n > 0 {
                        Some(
                            FrameState {
                                pc: (s.pc + 2) as usize,
                                stack: s.stack.drop_last(),
                                locals: s.locals.update(code[s.pc + 1] as int, s.stack.last()),
                                ..s
                            },
                        )
                    } else {
                        None
                    }
                },
                jvm_instruction_t::i_istore_0
                | jvm_instruction_t::i_istore_1
                | jvm_instruction_t::i_istore_2
                | jvm_instruction_t::i_istore_3 => {
                    if istore_slot(op)->0 < s.locals.len() && n > 0 {
                        Some(
                            FrameState {
                                pc: (s.pc + 1) as usize,
                                stack: s.stack.drop_last(),
                                locals: s.locals.update(istore_slot(op)->0, s.stack.last()),
                                ..s
                            },
                        )
                    } else {
                        None
                    }
                },
                jvm_instruction_t::i_astore_0
                | jvm_instruction_t::i_astore_1
                | jvm_instruction_t::i_astore_2
                | jvm_instruction_t::i_astore_3 => {
                    if astore_slot(op)->0 < s.locals.len() && n > 0 {
                        Some(
                            FrameState {
                                pc: (s.pc + 1) as usize,
                                stack: s.stack.drop_last(),
                                locals: s.locals.update(astore_slot(op)->0, s.stack.last()),
                                ..s
                            },
                        )
                    } else {
                        None
                    }
                },
                jvm_instruction_t::i_iastore => {
                    if n >= 3 && 0 <= s.stack[n - 3] < s.heap.len() && 0 <= s.stack[n - 2]
                        < s.heap[s.stack[n - 3] as int].len() {
                        Some(
                            FrameState {
                                pc: (s.pc + 1) as usize,
                                stack: s.stack.subrange(0, n - 3),
                                heap: s.heap.update(
                                    s.stack[n - 3] as int,
                                    s.heap[s.stack[n - 3] as int].update(
                                        s.stack[n - 2] as int,
                                        s.stack[n - 1],
                                    ),
                                ),
                                ..s
                            },
                        )
                    } else {
                        None
                    }
                },
                jvm_instruction_t::i_dup => {
                    if n > 0 && n < cap {
                        Some(
                            FrameState {
                                pc: (s.pc + 1) as usize,
                                stack: s.stack.push(s.stack.last()),
                                ..s
                            },
                        )
                    } else {
                        None
                    }
                },
                jvm_instruction_t::i_iadd => spec_binop(s, cap, wrap_add(s.stack[n - 2], s.stack[n - 1])),
                jvm_instruction_t::i_isub => spec_binop(s, cap, wrap_sub(s.stack[n - 2], s.stack[n - 1])),
                jvm_instruction_t::i_imul => spec_binop(s, cap, wrap_mul(s.stack[n - 2], s.stack[n - 1])),
                jvm_instruction_t::i_idiv => {
                    if n >= 2 && s.stack[n - 1] != 0 {
                        spec_binop(s, cap, jvm_div(s.stack[n - 2], s.stack[n - 1]))
                    } else {
                        None
                    }
                },
                jvm_instruction_t::i_irem => {
                    if n >= 2 && s.stack[n - 1] != 0 {
                        spec_binop(s, cap, jvm_rem(s.stack[n - 2], s.stack[n - 1]))
                    } else {
                        None
                    }
                },
                jvm_instruction_t::i_ineg => {
                    if n > 0 {
                        Some(
                            FrameState {
                                pc: (s.pc + 1) as usize,
                                stack: s.stack.drop_last().push(wrap_neg(s.stack.last())),
                                ..s
                            },
                        )
                    } else {
                        None
                    }
                },
                jvm_instruction_t::i_ishl => {
                    if n >= 2 && 0 <= s.stack[n - 1] <= 31 {
                        spec_binop(s, cap, s.stack[n - 2] << s.stack[n - 1])
                    } else {
                        None
                    }
                },
                jvm_instruction_t::i_ishr => {
                    if n >= 2 && 0 <= s.stack[n - 1] <= 31 {
                        spec_binop(s, cap, s.stack[n - 2] >> s.stack[n - 1])
                    } else {
                        None
                    }
                },
                jvm_instruction_t::i_iushr => {
                    if n >= 2 && 0 <= s.stack[n - 1] <= 31 {
                        spec_binop(
                            s,
                            cap,
                            i32_of_u32_bits(u32_of_i32(s.stack[n - 2]) >> (s.stack[n - 1] as u32)),
                        )
                    } else {
                        None
                    }
                },
                jvm_instruction_t::i_iand => spec_binop(s, cap, s.stack[n - 2] & s.stack[n - 1]),
                jvm_instruction_t::i_ior => spec_binop(s, cap, s.stack[n - 2] | s.stack[n - 1]),
                jvm_instruction_t::i_ixor => spec_binop(s, cap, s.stack[n - 2] ^ s.stack[n - 1]),
                jvm_instruction_t::i_iinc => {
                    if s.pc + 2 < code.len() && code[s.pc + 1] < s.locals.len() {
                        Some(
                            FrameState {
                                pc: (s.pc + 3) as usize,
                                locals: s.locals.update(
                                    code[s.pc + 1] as int,
                                    wrap_add(s.locals[code[s.pc + 1] as int], sign8(code[s.pc + 2])),
                                ),
                                ..s
                            },
                        )
                    } else {
                        None
                    }
                },
                jvm_instruction_t::i_ifeq => spec_branch1(code, s, s.stack.last() == 0),
                jvm_instruction_t::i_ifne => spec_branch1(code, s, s.stack.last() != 0),
                jvm_instruction_t::i_iflt => spec_branch1(code, s, s.stack.last() < 0),
                jvm_instruction_t::i_ifge => spec_branch1(code, s, s.stack.last() >= 0),
                jvm_instruction_t::i_ifgt => spec_branch1(code, s, s.stack.last() > 0),
                jvm_instruction_t::i_ifle => spec_branch1(code, s, s.stack.last() <= 0),
                jvm_instruction_t::i_if_icmpeq => spec_branch2(code, s, s.stack[n - 2] == s.stack[n - 1]),
                jvm_instruction_t::i_if_icmpne => spec_branch2(code, s, s.stack[n - 2] != s.stack[n - 1]),
                jvm_instruction_t::i_if_icmplt => spec_branch2(code, s, s.stack[n - 2] < s.stack[n - 1]),
                jvm_instruction_t::i_if_icmpge => spec_branch2(code, s, s.stack[n - 2] >= s.stack[n - 1]),
                jvm_instruction_t::i_if_icmpgt => spec_branch2(code, s, s.stack[n - 2] > s.stack[n - 1]),
                jvm_instruction_t::i_if_icmple => spec_branch2(code, s, s.stack[n - 2] <= s.stack[n - 1]),
                jvm_instruction_t::i_goto => {
                    if s.pc + 2 < code.len() && 0 <= s.pc + sign16(code[s.pc + 1], code[s.pc + 2])
                        <= usize::MAX {
                        Some(
                            FrameState {
                                pc: (s.pc + sign16(code[s.pc + 1], code[s.pc + 2])) as usize,
                                ..s
                            },
                        )
                    } else {
                        None
                    }
                },
                jvm_instruction_t::i_ireturn | jvm_instruction_t::i_areturn => {
                    if n > 0 {
                        Some(
                            FrameState {
                                pc: code_end,
                                stack: s.stack.drop_last(),
                                result: Some(s.stack.last()),
                                ..s
                            },
                        )
                    } else {
                        None
                    }
                },
                jvm_instruction_t::i_return => Some(FrameState { pc: code_end, ..s }),
                jvm_instruction_t::i_getstatic => Some(
                    FrameState {
                        pc: vstd::wrapping::usize_specs::wrapping_add(s.pc, 3),
                        ..s
                    },
                ),
                jvm_instruction_t::i_invokevirtual => {
                    if n > 0 {
                        Some(
                            FrameState {
                                pc: vstd::wrapping::usize_specs::wrapping_add(s.pc, 3),
                                stack: s.stack.drop_last(),
                                output: s.output.push(s.stack.last()),
                                ..s
                            },
                        )
                    } else {
                        None
                    }
                },
                jvm_instruction_t::i_invokestatic => None,
                jvm_instruction_t::i_newarray => {
                    if s.pc + 1 < code.len() && code[s.pc + 1] == 10 && n > 0 && s.stack.last()
                        >= 0 && s.heap.len() <= i32::MAX {
                        Some(
                            FrameState {
                                pc: (s.pc + 2) as usize,
                                stack: s.stack.drop_last().push(s.heap.len() as i32),
                                heap: s.heap.push(
                                    Seq::new(s.stack.last() as nat, |i: int| 0i32),
                                ),
                                ..s
                            },
                        )
                    } else {
                        None
                    }
                },
                jvm_instruction_t::i_arraylength => {
                    if n > 0 && 0 <= s.stack.last() < s.heap.len() && s.heap[s.stack.last() as int].len() <= i32::MAX {
                        Some(
                            FrameState {
                                pc: (s.pc + 1) as usize,
                                stack: s.stack.drop_last().push(
                                    s.heap[s.stack.last() as int].len() as i32,
                                ),
                                ..s
                            },
                        )
                    } else {
                        None
                    }
                },
            },
        }
    }
}

/// The state after a two-operand stack instruction pushing `value`, when two
/// operands are on the stack.
pub open spec fn spec_binop(s: FrameState, cap: int, value: i32) -> Option<FrameState> {
    let n = s.stack.len() as int;
    if n >= 2 {
        Some(
            FrameState {
                pc: (s.pc + 1) as usize,
                stack: s.stack.subrange(0, n - 2).push(value),
                ..s
            },
        )
    } else {
        None
    }
}

/// The state after a one-operand conditional branch whose condition came out
/// as `taken`.
pub open spec fn spec_branch1(code: Seq<u8>, s: FrameState, taken: bool) -> Option<FrameState> {
    let n = s.stack.len() as int;
    if s.pc + 2 < code.len() && n > 0 {
        let k = sign16(code[s.pc + 1], code[s.pc + 2]);
        if taken {
            if 0 <= s.pc + k <= usize::MAX {
                Some(FrameState { pc: (s.pc + k) as usize, stack: s.stack.drop_last(), ..s })
            } else {
                None
            }
        } else {
            Some(FrameState { pc: (s.pc + 3) as usize, stack: s.stack.drop_last(), ..s })
        }
    } else {
        None
    }
}

/// The state after a two-operand comparison branch whose condition came out
/// as `taken`.
pub open spec fn spec_branch2(code: Seq<u8>, s: FrameState, taken: bool) -> Option<FrameState> {
    let n = s.stack.len() as int;
    if s.pc + 2 < code.len() && n >= 2 {
        let k = sign16(code[s.pc + 1], code[s.pc + 2]);
        if taken {
            if 0 <= s.pc + k <= usize::MAX {
                Some(
                    FrameState { pc: (s.pc + k) as usize, stack: s.stack.subrange(0, n - 2), ..s },
                )
            } else {
                None
            }
        } else {
            Some(
                FrameState { pc: (s.pc + 3) as usize, stack: s.stack.subrange(0, n - 2), ..s },
            )
        }
    } else {
        None
    }
}


/// The effect of the call instruction at `s_pc` on a caller frame whose
/// operand stack is `s_stack` with capacity `cap`: the callee named by the
/// method reference runs to completion on its own frame (its leading local
/// slots taking the popped arguments, the last popped as argument 0) with one
/// unit less fuel, and its return value, if any, lands on the caller's stack.
pub open spec fn spec_call(
    class: ClassView,
    method: MethodView,
    cap: int,
    s_pc: usize,
    s_stack: Seq<i32>,
    s_heap: Seq<Seq<i32>>,
    s_output: Seq<i32>,
    fuel: nat,
) -> Option<(usize, Seq<i32>, Seq<Seq<i32>>, Seq<i32>)>
    decreases fuel, 1int,
{
    if !(s_pc + 2 < method.code.code.len()) {
        None
    } else {
        let idx = (method.code.code[s_pc + 1] * 0x100 + method.code.code[s_pc + 2]) as u16;
        match spec_resolved_name_and_desc(class.constant_pool, idx) {
            None => None,
            Some((nm, d)) => match spec_find_method(class.methods, nm, d) {
                None => None,
                Some(mv) => match mv.descriptor {
                    CpEntryView::Utf8(d2) => match spec_param_count(d2) {
                        None => None,
                        Some(nargs) => {
                            if !(0 <= nargs <= mv.code.max_locals) {
                                None
                            } else if !(nargs <= s_stack.len()) {
                                None
                            } else if fuel == 0 {
                                None
                            } else {
                                let len = s_stack.len() as int;
                                let sub_locals = Seq::new(
                                    mv.code.max_locals as nat,
                                    |j: int|
                                        if j < nargs {
                                            s_stack[len - nargs + j]
                                        } else {
                                            0i32
                                        },
                                );
                                let sub0 = FrameState {
                                    pc: 0,
                                    stack: Seq::<i32>::empty(),
                                    locals: sub_locals,
                                    heap: s_heap,
                                    output: s_output,
                                    result: None,
                                };
                                match spec_run(class, mv, sub0, (fuel - 1) as nat) {
                                    None => None,
                                    Some(fin) => {
                                        let stack1 = s_stack.subrange(0, len - nargs);
                                        match fin.result {
                                            Some(v) => {
                                                if stack1.len() < cap {
                                                    Some(
                                                        (
                                                            (s_pc + 3) as usize,
                                                            stack1.push(v),
                                                            fin.heap,
                                                            fin.output,
                                                        ),
                                                    )
                                                } else {
                                                    None
                                                }
                                            },
                                            None => Some(
                                                ((s_pc + 3) as usize, stack1, fin.heap, fin.output),
                                            ),
                                        }
                                    },
                                }
                            }
                        },
                    },
                    _ => None,
                },
            },
        }
    }
}

/// The frame state a method run ends in, or nothing when the run is fatal or
/// the fuel runs out: instructions step one at a time until the program
/// counter reaches the declared code length, each step costing one unit of
/// fuel, with the call instruction recursing through [`spec_call`].
pub open spec fn spec_run(class: ClassView, method: MethodView, s: FrameState, fuel: nat) -> Option<
    FrameState,
>
    decreases fuel, 0int,
{
    if !(s.pc < method.code.code_length) {
        Some(s)
    } else if fuel == 0 {
        None
    } else {
        let f1 = (fuel - 1) as nat;
        if s.pc < method.code.code.len() && method.code.code[s.pc as int] == 0xb8 {
            match spec_call(
                class,
                method,
                method.code.max_stack as int,
                s.pc,
                s.stack,
                s.heap,
                s.output,
                f1,
            ) {
                None => None,
                Some((pc2, stack2, heap2, output2)) => spec_run(
                    class,
                    method,
                    FrameState { pc: pc2, stack: stack2, heap: heap2, output: output2, ..s },
                    f1,
                ),
            }
        } else {
            match spec_step(
                method.code.code,
                method.code.code_length as usize,
                class.constant_pool,
                method.code.max_stack as int,
                s,
            ) {
                None => None,
                Some(s2) => spec_run(class, method, s2, f1),
            }
        }
    }
}

} // verus!
