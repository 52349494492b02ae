//! The stack machine as mathematics: what a program is, what state a run
//! has, and what one instruction and one read do to it.

use crate::{Binding, Call, Cond, Constant, Function, Instruction, LittleError, LittleValue, Mem, Order};
use vstd::prelude::*;
use vstd::utf8::encode_utf8;

verus! {

/// The number of binding slots that a stream may hold.
pub const MAX_VALUES: usize = 500000;

/// The number of instructions that one `read` may run.
pub const MAX_STEPS: u64 = 0xffff_ffff_ffff_ffff;

/// A program with its call table resolved.
#[verifier::reject_recursive_types(V)]
pub struct Program<'a, V> {
    pub instructions: Seq<Instruction>,
    pub constants: Map<u32, V>,
    pub calls: Map<u32, &'a dyn Function<V>>,
}

/// The state of one run.
pub struct Machine<V> {
    /// The index of the next instruction.
    pub pc: nat,
    /// The output that no read has delivered yet.
    pub buf: Seq<u8>,
    /// The operand stack, its top last.
    pub stack: Seq<V>,
    /// The binding slots that have been reached so far.
    pub bindings: Seq<V>,
}

/// What one instruction leads to.
pub enum Step<V> {
    /// No instruction is left; the machine stays as it is.
    Done,
    /// The instruction ran.
    Continue(Machine<V>),
    /// The instruction asked for an interruption.
    Interupt(Machine<V>),
    /// The instruction failed.
    Fail(LittleError, Machine<V>),
}

/// What the run of instructions inside one read leads to.
pub enum Pull<V> {
    /// Enough output is there, or the program is done.
    Ready(Machine<V>),
    /// An instruction asked for an interruption.
    Interupt(Machine<V>),
    /// An instruction failed.
    Fail(LittleError, Machine<V>),
    /// The read ran as many instructions as it may.
    Exhausted(Machine<V>),
}

impl<V> Machine<V> {
    /// The state in which every run begins.
    pub open spec fn start() -> Machine<V> {
        Machine { pc: 0, buf: Seq::empty(), stack: Seq::empty(), bindings: Seq::empty() }
    }
}

/// The display form of a value as UTF-8 bytes.
pub open spec fn shown_bytes<V: LittleValue>(value: V) -> Seq<u8> {
    encode_utf8(value.shown())
}

/// The constant that `index` names.
pub open spec fn constant<V>(p: Program<V>, index: Constant) -> Result<V, LittleError> {
    if p.constants.contains_key(index.0) {
        Ok(p.constants[index.0])
    } else {
        Err(LittleError::ConstantMissing(index))
    }
}

/// The value of a binding: what was last loaded into it, or the value
/// type's default.
pub open spec fn bound<V: LittleValue>(bindings: Seq<V>, binding: Binding) -> V {
    if binding.0 < bindings.len() {
        bindings[binding.0 as int]
    } else {
        V::unset()
    }
}

/// The value that a memory location holds.
pub open spec fn resolve<V: LittleValue>(
    p: Program<V>,
    input: V,
    stack: Seq<V>,
    bindings: Seq<V>,
    mem: Mem,
) -> Result<V, LittleError> {
    match mem {
        Mem::Const(index) => constant(p, index),
        Mem::Binding(binding) => Ok(bound(bindings, binding)),
        Mem::Parameter { name } => match constant(p, name) {
            Ok(key) => match input.property(key.shown()) {
                Some(value) => Ok(value),
                None => Err(LittleError::ParameterMissing(name)),
            },
            Err(e) => Err(e),
        },
        Mem::Parameters => Ok(input),
        Mem::StackTop1 => if stack.len() >= 1 {
            Ok(stack[stack.len() - 1])
        } else {
            Err(LittleError::StackUnderflow)
        },
        Mem::StackTop2 => if stack.len() >= 2 {
            Ok(stack[stack.len() - 2])
        } else {
            Err(LittleError::StackUnderflow)
        },
    }
}

/// Whether `test` holds of the stack's top and the addressed value. Two
/// values that the order does not relate meet none of the four order tests.
pub open spec fn holds<V: LittleValue>(test: Cond, top: V, value: V) -> bool {
    match test {
        Cond::Eq => top.same(&value),
        Cond::Ne => !top.same(&value),
        Cond::Gt => top.order(&value) == Some(Order::Greater),
        Cond::Gte => top.order(&value) == Some(Order::Greater) || top.order(&value) == Some(
            Order::Equal,
        ),
        Cond::Lt => top.order(&value) == Some(Order::Less),
        Cond::Lte => top.order(&value) == Some(Order::Less) || top.order(&value) == Some(
            Order::Equal,
        ),
    }
}

/// The bindings after `value` was stored at `index`: the slots between the
/// old end and `index` hold the value type's default.
pub open spec fn stored<V: LittleValue>(bindings: Seq<V>, index: nat, value: V) -> Seq<V> {
    if index < bindings.len() {
        bindings.update(index as int, value)
    } else {
        (bindings + Seq::new((index - bindings.len()) as nat, |i: int| V::unset())).push(value)
    }
}

/// What the instruction at the program counter does.
pub open spec fn step<V: LittleValue>(p: Program<V>, input: V, m: Machine<V>) -> Step<V> {
    if m.pc >= p.instructions.len() {
        Step::Done
    } else {
        let next = (m.pc + 1) as nat;
        match p.instructions[m.pc as int] {
            Instruction::Output { location } => match resolve(p, input, m.stack, m.bindings, location) {
                Ok(value) => Step::Continue(
                    Machine { pc: next, buf: m.buf + shown_bytes(value), ..m },
                ),
                Err(e) => Step::Fail(e, m),
            },
            Instruction::Property { name } => if m.stack.len() == 0 {
                Step::Fail(LittleError::StackUnderflow, m)
            } else {
                match resolve(p, input, m.stack.drop_last(), m.bindings, name) {
                    Ok(key) => match m.stack.last().property(key.shown()) {
                        Some(value) => Step::Continue(
                            Machine { pc: next, stack: m.stack.drop_last().push(value), ..m },
                        ),
                        None => Step::Fail(LittleError::PropertyMissing, m),
                    },
                    Err(e) => Step::Fail(e, m),
                }
            },
            Instruction::Push { location } => match resolve(p, input, m.stack, m.bindings, location) {
                Ok(value) => Step::Continue(Machine { pc: next, stack: m.stack.push(value), ..m }),
                Err(e) => Step::Fail(e, m),
            },
            Instruction::Pop { times } => if times <= m.stack.len() {
                Step::Continue(
                    Machine { pc: next, stack: m.stack.take(m.stack.len() - times), ..m },
                )
            } else {
                Step::Fail(LittleError::StackUnderflow, Machine { stack: Seq::empty(), ..m })
            },
            Instruction::Load { binding, location } => match resolve(
                p,
                input,
                m.stack,
                m.bindings,
                location,
            ) {
                Ok(value) => if binding.0 < MAX_VALUES {
                    Step::Continue(
                        Machine {
                            pc: next,
                            bindings: stored(m.bindings, binding.0 as nat, value),
                            ..m
                        },
                    )
                } else {
                    Step::Fail(LittleError::BindingLimit(binding), m)
                },
                Err(e) => Step::Fail(e, m),
            },
            Instruction::Jump { pc } => Step::Continue(Machine { pc: pc as nat, ..m }),
            Instruction::CondJump { pc, location, test } => match resolve(
                p,
                input,
                m.stack,
                m.bindings,
                location,
            ) {
                Ok(value) => if m.stack.len() == 0 {
                    Step::Fail(LittleError::StackUnderflow, m)
                } else if holds(test, m.stack.last(), value) {
                    Step::Continue(Machine { pc: pc as nat, ..m })
                } else {
                    Step::Continue(Machine { pc: next, ..m })
                },
                Err(e) => Step::Fail(e, m),
            },
            Instruction::Call { call, argc, push_result_to_stack } => if !p.calls.contains_key(
                call.0,
            ) {
                Step::Fail(LittleError::CallMissing(call), m)
            } else if m.stack.len() < argc {
                Step::Fail(LittleError::StackUnderflow, m)
            } else {
                match p.calls[call.0].outcome(m.stack.skip(m.stack.len() - argc)) {
                    Ok(value) => Step::Continue(
                        Machine {
                            pc: next,
                            stack: if push_result_to_stack {
                                m.stack.push(value)
                            } else {
                                m.stack
                            },
                            ..m
                        },
                    ),
                    Err(e) => Step::Fail(LittleError::CallError(e), m),
                }
            },
            Instruction::Interupt => Step::Interupt(Machine { pc: next, ..m }),
        }
    }
}

/// What a read that wants `want` bytes does to the machine before it
/// hands any byte out: it runs instructions until `want` bytes are pending,
/// the program is done, an instruction interrupts or fails, or `fuel`
/// instructions have run.
pub open spec fn pull<V: LittleValue>(
    p: Program<V>,
    input: V,
    m: Machine<V>,
    want: nat,
    fuel: nat,
) -> Pull<V>
    decreases fuel,
{
    if m.buf.len() >= want {
        Pull::Ready(m)
    } else if fuel == 0 {
        Pull::Exhausted(m)
    } else {
        match step(p, input, m) {
            Step::Done => Pull::Ready(m),
            Step::Continue(after) => pull(p, input, after, want, (fuel - 1) as nat),
            Step::Interupt(after) => Pull::Interupt(after),
            Step::Fail(e, after) => Pull::Fail(e, after),
        }
    }
}

/// All the output of a run from `m` on: what is pending and what the rest
/// of the program writes. There is such an output where the program comes
/// to its end within `fuel` instructions and none of them interrupts or
/// fails.
pub open spec fn output<V: LittleValue>(p: Program<V>, input: V, m: Machine<V>, fuel: nat) -> Option<
    Seq<u8>,
>
    decreases fuel,
{
    match step(p, input, m) {
        Step::Done => Some(m.buf),
        Step::Continue(after) => if fuel == 0 {
            None
        } else {
            output(p, input, after, (fuel - 1) as nat)
        },
        Step::Interupt(_) => None,
        Step::Fail(_, _) => None,
    }
}

/// The number of bytes that a read into `room` bytes hands out of `pending`.
pub open spec fn handed(pending: Seq<u8>, room: nat) -> nat {
    if pending.len() <= room {
        pending.len()
    } else {
        room
    }
}

/// How a read ends that found `room` in its buffer and whose instructions
/// led to `outcome`: with `result`, with the buffer as `filled` and the
/// machine as `left`. Only a read that is ready hands bytes out: as many of
/// the pending ones as the buffer has room for, from the front, over the
/// front of the buffer.
pub open spec fn ends<V>(
    outcome: Pull<V>,
    room: Seq<u8>,
    result: Result<usize, LittleError>,
    filled: Seq<u8>,
    left: Machine<V>,
) -> bool {
    match outcome {
        Pull::Ready(m) => {
            let n = handed(m.buf, room.len());
            &&& result == Ok::<usize, LittleError>(n as usize)
            &&& filled == m.buf.take(n as int) + room.skip(n as int)
            &&& left == (Machine { buf: m.buf.skip(n as int), ..m })
        },
        Pull::Interupt(m) => {
            &&& result == Err::<usize, LittleError>(LittleError::Interupt)
            &&& filled == room
            &&& left == m
        },
        Pull::Fail(e, m) => {
            &&& result == Err::<usize, LittleError>(e)
            &&& filled == room
            &&& left == m
        },
        Pull::Exhausted(m) => {
            &&& result == Err::<usize, LittleError>(LittleError::StepLimit)
            &&& filled == room
            &&& left == m
        },
    }
}

} // verus!
