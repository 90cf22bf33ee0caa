//! The bounded operand stack of one method activation.
//!
//! The stack is created with a fixed capacity (`max_stack` from the method's
//! code attribute) and enforces it: a push on a full stack and a pop from an
//! empty stack report failure instead of growing or reading past the end.

use vstd::prelude::*;

verus! {

/// A LIFO stack of `i32` values with a hard capacity.
///
/// `size` is the declared capacity, `top` the current depth; `contents` holds
/// the live values, bottom first.  Well-formed values keep `top` equal to
/// `contents.len()` and never above `size`.
#[derive(Debug)]
pub struct stack_t {
    pub size: usize,
    pub top: usize,
    pub contents: Vec<i32>,
}

impl View for stack_t {
    type V = Seq<i32>;

    open spec fn view(&self) -> Seq<i32> {
        self.contents@
    }
}

impl stack_t {
    /// The internal invariant: `top` mirrors the vector's length and the
    /// declared capacity is respected.
    pub open spec fn wf(&self) -> bool {
        self.top == self.contents@.len() && self.top <= self.size
    }
}

/// Creates an empty stack with capacity `size`.
pub fn stack_init(size: usize) -> (st: stack_t)
    ensures
        st.wf(),
        st@ =~= Seq::<i32>::empty(),
        st.size == size,
{
    stack_t { contents: Vec::new(), size, top: 0 }
}

/// Pushes `value` unless the stack is at capacity; reports whether it did.
pub fn stack_push(stack: &mut stack_t, value: i32) -> (pushed: bool)
    requires
        old(stack).wf(),
    ensures
        final(stack).wf(),
        final(stack).size == old(stack).size,
        pushed == (old(stack)@.len() < old(stack).size),
        pushed ==> final(stack)@ == old(stack)@.push(value),
        !pushed ==> final(stack)@ == old(stack)@,
{
    if !stack_is_full(stack) {
        stack.contents.push(value);
        stack.top = stack.top + 1;
        true
    } else {
        false
    }
}

/// Pops the top value into `value` unless the stack is empty; reports whether
/// it did.  On failure `value` is left as it was.
pub fn stack_pop(stack: &mut stack_t, value: &mut i32) -> (popped: bool)
    requires
        old(stack).wf(),
    ensures
        final(stack).wf(),
        final(stack).size == old(stack).size,
        popped == (old(stack)@.len() > 0),
        popped ==> final(stack)@ == old(stack)@.drop_last() && *final(value)
            == old(stack)@.last(),
        !popped ==> final(stack)@ == old(stack)@ && *final(value) == *old(value),
{
    if !stack_is_empty(stack) {
        match stack.contents.pop() {
            Some(v) => {
                *value = v;
                stack.top = stack.top - 1;
                true
            },
            None => false,
        }
    } else {
        false
    }
}

/// True when the stack holds `size` values and can take no more.
pub fn stack_is_full(stack: &mut stack_t) -> (full: bool)
    requires
        old(stack).wf(),
    ensures
        *final(stack) == *old(stack),
        full == (old(stack)@.len() >= old(stack).size),
{
    stack.top >= stack.size
}

/// True when the stack holds no value.
pub fn stack_is_empty(stack: &stack_t) -> (empty: bool)
    requires
        stack.wf(),
    ensures
        empty == (stack@.len() == 0),
{
    stack.top == 0
}

} // verus!
