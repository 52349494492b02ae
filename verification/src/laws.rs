//! What holds of every program, every input and every state of the machine.

use crate::interpreter::InterpreterStream;
use crate::machine::{
    bound, handed, holds, output, pull, resolve, shown_bytes, step, stored, Machine, Program, Pull,
    Step, MAX_VALUES,
};
use crate::{Binding, Call, Cond, Constant, Instruction, LittleError, LittleValue, Mem};
use vstd::prelude::*;

verus! {

/// A program without instructions is done at once: a read finds its
/// machine as it began, with no output and no error.
pub proof fn lemma_empty_program_yields_nothing<V: LittleValue>(
    p: Program<V>,
    input: V,
    want: nat,
    fuel: nat,
)
    requires
        p.instructions.len() == 0,
        fuel > 0,
    ensures
        pull(p, input, Machine::start(), want, fuel) == Pull::Ready(Machine::<V>::start()),
        handed(Machine::<V>::start().buf, want) == 0,
{
}

/// `Output` of a constant appends exactly the display form of the value
/// that the constant table gives it, and changes nothing else.
pub proof fn lemma_output_constant<V: LittleValue>(
    p: Program<V>,
    input: V,
    m: Machine<V>,
    index: Constant,
)
    requires
        m.pc < p.instructions.len(),
        p.instructions[m.pc as int] == (Instruction::Output { location: Mem::Const(index) }),
        p.constants.contains_key(index.0),
    ensures
        step(p, input, m) == Step::Continue(
            Machine { pc: m.pc + 1, buf: m.buf + shown_bytes(p.constants[index.0]), ..m },
        ),
{
}

/// `Output` of the parameters appends exactly the display form of the
/// root value, and changes nothing else.
pub proof fn lemma_output_parameters<V: LittleValue>(p: Program<V>, input: V, m: Machine<V>)
    requires
        m.pc < p.instructions.len(),
        p.instructions[m.pc as int] == (Instruction::Output { location: Mem::Parameters }),
    ensures
        step(p, input, m) == Step::Continue(
            Machine { pc: m.pc + 1, buf: m.buf + shown_bytes(input), ..m },
        ),
{
}

/// A program that is one `Output` yields the display form of what the
/// location holds, and nothing else: a read that wants any byte and may run
/// two instructions finds exactly these bytes pending.
pub proof fn lemma_single_output_is_the_stream<V: LittleValue>(
    p: Program<V>,
    input: V,
    location: Mem,
    value: V,
    want: nat,
    fuel: nat,
)
    requires
        p.instructions == seq![Instruction::Output { location }],
        resolve(p, input, Seq::empty(), Seq::empty(), location) == Ok::<V, LittleError>(value),
        want > 0,
        fuel >= 2,
    ensures
        pull(p, input, Machine::start(), want, fuel) == Pull::Ready(
            Machine { pc: 1, buf: shown_bytes(value), ..Machine::<V>::start() },
        ),
{
    let start = Machine::<V>::start();
    let after = Machine { pc: 1, buf: shown_bytes(value), ..start };
    assert(start.buf + shown_bytes(value) =~= shown_bytes(value));
    assert(step(p, input, start) == Step::Continue(after));
    assert(step(p, input, after) == Step::<V>::Done);
    assert(pull(p, input, after, want, (fuel - 1) as nat) == Pull::Ready(after));
}

/// Two `Output` instructions in a row append the two display forms in
/// their order.
pub proof fn lemma_outputs_concatenate<V: LittleValue>(
    p: Program<V>,
    input: V,
    m: Machine<V>,
    first: Mem,
    second: Mem,
    a: V,
    b: V,
)
    requires
        m.pc + 1 < p.instructions.len(),
        p.instructions[m.pc as int] == (Instruction::Output { location: first }),
        p.instructions[m.pc as int + 1] == (Instruction::Output { location: second }),
        resolve(p, input, m.stack, m.bindings, first) == Ok::<V, LittleError>(a),
        resolve(p, input, m.stack, m.bindings, second) == Ok::<V, LittleError>(b),
    ensures
        step(p, input, m) matches Step::Continue(between) && step(p, input, between)
            == Step::Continue(
            Machine { pc: m.pc + 2, buf: m.buf + shown_bytes(a) + shown_bytes(b), ..m },
        ),
{
}

/// The instructions that read a location from the machine as it stands.
pub open spec fn reads(instruction: Instruction, location: Mem) -> bool {
    match instruction {
        Instruction::Output { location: l } => l == location,
        Instruction::Push { location: l } => l == location,
        Instruction::Load { location: l, .. } => l == location,
        Instruction::CondJump { location: l, .. } => l == location,
        _ => false,
    }
}

/// An instruction that reads the stack's top when the stack is empty, or
/// the item below the top when the stack holds fewer than two, fails with
/// a stack underflow and leaves the machine as it was.
pub proof fn lemma_stack_top_underflow<V: LittleValue>(p: Program<V>, input: V, m: Machine<V>)
    requires
        m.pc < p.instructions.len(),
        (reads(p.instructions[m.pc as int], Mem::StackTop1) && m.stack.len() < 1) || (reads(
            p.instructions[m.pc as int],
            Mem::StackTop2,
        ) && m.stack.len() < 2),
    ensures
        step(p, input, m) == Step::Fail(LittleError::StackUnderflow, m),
{
}

/// A location whose reference leads nowhere resolves to the error of its
/// kind: a constant that the table lacks, a parameter that the root value
/// lacks.
pub proof fn lemma_missing_references<V: LittleValue>(
    p: Program<V>,
    input: V,
    stack: Seq<V>,
    bindings: Seq<V>,
    index: Constant,
)
    ensures
        !p.constants.contains_key(index.0) ==> resolve(p, input, stack, bindings, Mem::Const(index))
            == Err::<V, LittleError>(LittleError::ConstantMissing(index)),
        !p.constants.contains_key(index.0) ==> resolve(
            p,
            input,
            stack,
            bindings,
            Mem::Parameter { name: index },
        ) == Err::<V, LittleError>(LittleError::ConstantMissing(index)),
        p.constants.contains_key(index.0) && input.property(p.constants[index.0].shown()) is None
            ==> resolve(p, input, stack, bindings, Mem::Parameter { name: index }) == Err::<
            V,
            LittleError,
        >(LittleError::ParameterMissing(index)),
{
}

/// An instruction that reads a location fails with the error that the
/// location resolves to, and leaves the machine as it was.
pub proof fn lemma_failed_read_fails<V: LittleValue>(
    p: Program<V>,
    input: V,
    m: Machine<V>,
    location: Mem,
    e: LittleError,
)
    requires
        m.pc < p.instructions.len(),
        reads(p.instructions[m.pc as int], location),
        resolve(p, input, m.stack, m.bindings, location) == Err::<V, LittleError>(e),
    ensures
        step(p, input, m) == Step::Fail(e, m),
{
}

/// `Property` takes the stack's top, reads the name from the machine that
/// is left, and puts in the top's place its property of that name. Where
/// the stack is empty, the name cannot be read or the top has no such
/// property, it fails and leaves the machine as it was.
pub proof fn lemma_property<V: LittleValue>(p: Program<V>, input: V, m: Machine<V>, name: Mem)
    requires
        m.pc < p.instructions.len(),
        p.instructions[m.pc as int] == (Instruction::Property { name }),
    ensures
        m.stack.len() == 0 ==> step(p, input, m) == Step::Fail(LittleError::StackUnderflow, m),
        m.stack.len() > 0 ==> step(p, input, m) == match resolve(
            p,
            input,
            m.stack.drop_last(),
            m.bindings,
            name,
        ) {
            Ok(key) => match m.stack.last().property(key.shown()) {
                Some(value) => Step::Continue(
                    Machine { pc: m.pc + 1, stack: m.stack.drop_last().push(value), ..m },
                ),
                None => Step::Fail(LittleError::PropertyMissing, m),
            },
            Err(e) => Step::Fail(e, m),
        },
{
}

/// A `Call` of a slot that the call table lacks fails with `CallMissing`
/// and leaves the machine as it was.
pub proof fn lemma_missing_call<V: LittleValue>(
    p: Program<V>,
    input: V,
    m: Machine<V>,
    call: Call,
    argc: u8,
    push_result_to_stack: bool,
)
    requires
        m.pc < p.instructions.len(),
        p.instructions[m.pc as int] == (Instruction::Call { call, argc, push_result_to_stack }),
        !p.calls.contains_key(call.0),
    ensures
        step(p, input, m) == Step::Fail(LittleError::CallMissing(call), m),
{
}

/// A `Call` hands the function the last `argc` items of the stack and
/// takes none of them off: the stack stays as it was, but for the result
/// on top of it where the instruction asks for that. With fewer than `argc`
/// items it fails with a stack underflow, with an error of the function it
/// fails with that error, and either way it leaves the machine as it was.
pub proof fn lemma_call<V: LittleValue>(
    p: Program<V>,
    input: V,
    m: Machine<V>,
    call: Call,
    argc: u8,
    push_result_to_stack: bool,
)
    requires
        m.pc < p.instructions.len(),
        p.instructions[m.pc as int] == (Instruction::Call { call, argc, push_result_to_stack }),
        p.calls.contains_key(call.0),
    ensures
        m.stack.len() < argc ==> step(p, input, m) == Step::Fail(LittleError::StackUnderflow, m),
        m.stack.len() >= argc ==> step(p, input, m) == match p.calls[call.0].outcome(
            m.stack.skip(m.stack.len() - argc),
        ) {
            Ok(value) => Step::Continue(
                Machine {
                    pc: m.pc + 1,
                    stack: if push_result_to_stack {
                        m.stack.push(value)
                    } else {
                        m.stack
                    },
                    ..m
                },
            ),
            Err(e) => Step::Fail(LittleError::CallError(e), m),
        },
{
}

/// No instruction takes the bindings beyond the number of values that a
/// stream may hold.
pub proof fn lemma_bindings_within_limit<V: LittleValue>(p: Program<V>, input: V, m: Machine<V>)
    requires
        m.bindings.len() <= MAX_VALUES,
    ensures
        match step(p, input, m) {
            Step::Done => true,
            Step::Continue(after) => after.bindings.len() <= MAX_VALUES,
            Step::Interupt(after) => after.bindings.len() <= MAX_VALUES,
            Step::Fail(_, after) => after.bindings.len() <= MAX_VALUES,
        },
{
}

/// An instruction other than `Load` leaves the bindings as they were.
pub proof fn lemma_bindings_stay<V: LittleValue>(p: Program<V>, input: V, m: Machine<V>)
    requires
        m.pc < p.instructions.len(),
        !(p.instructions[m.pc as int] is Load),
    ensures
        match step(p, input, m) {
            Step::Done => true,
            Step::Continue(after) => after.bindings == m.bindings,
            Step::Interupt(after) => after.bindings == m.bindings,
            Step::Fail(_, after) => after.bindings == m.bindings,
        },
{
}

/// After a `Load` into a binding, an `Output` of that binding appends the
/// display form of the value that was loaded, whatever ran in between, as
/// long as it left the bindings as they were.
pub proof fn lemma_load_then_output<V: LittleValue>(
    p: Program<V>,
    input: V,
    m: Machine<V>,
    binding: Binding,
    location: Mem,
    value: V,
    later: Machine<V>,
)
    requires
        m.pc < p.instructions.len(),
        p.instructions[m.pc as int] == (Instruction::Load { binding, location }),
        resolve(p, input, m.stack, m.bindings, location) == Ok::<V, LittleError>(value),
        binding.0 < MAX_VALUES,
        step(p, input, m) matches Step::Continue(loaded) && later.bindings == loaded.bindings,
        later.pc < p.instructions.len(),
        p.instructions[later.pc as int] == (Instruction::Output {
            location: Mem::Binding(binding),
        }),
    ensures
        step(p, input, later) == Step::Continue(
            Machine { pc: later.pc + 1, buf: later.buf + shown_bytes(value), ..later },
        ),
{
}

/// `Push` followed by `Pop` of one item leaves the machine as it was, but
/// for the program counter, which stands behind the two.
pub proof fn lemma_push_pop_is_no_op<V: LittleValue>(
    p: Program<V>,
    input: V,
    m: Machine<V>,
    location: Mem,
    value: V,
)
    requires
        m.pc + 1 < p.instructions.len(),
        p.instructions[m.pc as int] == (Instruction::Push { location }),
        p.instructions[m.pc as int + 1] == (Instruction::Pop { times: 1 }),
        resolve(p, input, m.stack, m.bindings, location) == Ok::<V, LittleError>(value),
    ensures
        step(p, input, m) matches Step::Continue(between) && step(p, input, between)
            == Step::Continue(Machine { pc: m.pc + 2, ..m }),
{
    let between = Machine { pc: m.pc + 1, stack: m.stack.push(value), ..m };
    assert(between.stack.take(between.stack.len() - 1) =~= m.stack);
}

/// `Jump` sets the program counter to its target, whatever the state, and
/// changes nothing else.
pub proof fn lemma_jump<V: LittleValue>(p: Program<V>, input: V, m: Machine<V>, pc: u16)
    requires
        m.pc < p.instructions.len(),
        p.instructions[m.pc as int] == (Instruction::Jump { pc }),
    ensures
        step(p, input, m) == Step::Continue(Machine { pc: pc as nat, ..m }),
{
}

/// `CondJump` jumps if and only if its test holds of the stack's top and
/// the addressed value; either way the stack stays as it was.
pub proof fn lemma_cond_jump<V: LittleValue>(
    p: Program<V>,
    input: V,
    m: Machine<V>,
    pc: u16,
    location: Mem,
    test: Cond,
    value: V,
)
    requires
        m.pc < p.instructions.len(),
        p.instructions[m.pc as int] == (Instruction::CondJump { pc, location, test }),
        resolve(p, input, m.stack, m.bindings, location) == Ok::<V, LittleError>(value),
        m.stack.len() > 0,
    ensures
        step(p, input, m) == Step::Continue(
            Machine {
                pc: if holds(test, m.stack.last(), value) {
                    pc as nat
                } else {
                    m.pc + 1
                },
                ..m
            },
        ),
{
}

/// `Pop` of no item changes nothing but the program counter.
pub proof fn lemma_pop_zero<V: LittleValue>(p: Program<V>, input: V, m: Machine<V>)
    requires
        m.pc < p.instructions.len(),
        p.instructions[m.pc as int] == (Instruction::Pop { times: 0 }),
    ensures
        step(p, input, m) == Step::Continue(Machine { pc: m.pc + 1, ..m }),
{
    assert(m.stack.take(m.stack.len() - 0) =~= m.stack);
}

/// Storing at index `n` leaves at least `n + 1` slots: the slots that
/// were there keep their values, the slot `n` has the value, and the
/// slots that came new between them have the value type's default.
pub proof fn lemma_stored_grows<V: LittleValue>(bindings: Seq<V>, n: nat, value: V)
    ensures
        stored(bindings, n, value).len() == if n < bindings.len() {
            bindings.len()
        } else {
            n + 1
        },
        stored(bindings, n, value)[n as int] == value,
        forall|i: int|
            0 <= i < bindings.len() && i != n ==> stored(bindings, n, value)[i] == bindings[i],
        forall|i: int| bindings.len() <= i < n ==> stored(bindings, n, value)[i] == V::unset(),
        bound(stored(bindings, n, value), Binding(n as u32)) == value || n > u32::MAX,
{
}

/// A `Load` into a binding beyond the limit fails, leaves the machine as
/// it was, and so fails every read that comes to it: the stream does not
/// get past it.
pub proof fn lemma_binding_limit_is_fatal<V: LittleValue>(
    p: Program<V>,
    input: V,
    m: Machine<V>,
    binding: Binding,
    location: Mem,
    value: V,
    want: nat,
    fuel: nat,
)
    requires
        m.pc < p.instructions.len(),
        p.instructions[m.pc as int] == (Instruction::Load { binding, location }),
        resolve(p, input, m.stack, m.bindings, location) == Ok::<V, LittleError>(value),
        binding.0 >= MAX_VALUES,
        m.buf.len() < want,
        fuel > 0,
    ensures
        step(p, input, m) == Step::Fail(LittleError::BindingLimit(binding), m),
        pull(p, input, m, want, fuel) == Pull::Fail(LittleError::BindingLimit(binding), m),
{
}

/// An instruction that failed fails again in the same way, and so does
/// every read that comes to it: a stream does not get past a failure.
pub proof fn lemma_failure_is_final<V: LittleValue>(
    p: Program<V>,
    input: V,
    m: Machine<V>,
    want: nat,
    fuel: nat,
)
    requires
        step(p, input, m) is Fail,
    ensures
        step(p, input, m) matches Step::Fail(e, after) && step(p, input, after) == Step::Fail(
            e,
            after,
        ) && (after.buf.len() < want && fuel > 0 ==> pull(p, input, after, want, fuel)
            == Pull::Fail(e, after)),
{
}

/// A read into no room runs no instruction and hands out no byte.
pub proof fn lemma_empty_read<V: LittleValue>(p: Program<V>, input: V, m: Machine<V>, fuel: nat)
    ensures
        pull(p, input, m, 0, fuel) == Pull::Ready(m),
        handed(m.buf, 0) == 0,
{
}

/// Two streams that run the same program on the same input and stand in
/// the same state read the same: what a read gives depends on nothing else.
pub proof fn lemma_reads_repeat<V: LittleValue>(
    one: InterpreterStream<V>,
    other: InterpreterStream<V>,
    want: nat,
    fuel: nat,
)
    requires
        one.program() == other.program(),
        one.input() == other.input(),
        one@ == other@,
    ensures
        pull(one.program(), one.input(), one@, want, fuel) == pull(
            other.program(),
            other.input(),
            other@,
            want,
            fuel,
        ),
{
}

/// No instruction reads the pending output: with other bytes before it, an
/// instruction does the same and leaves those bytes before what it leaves.
proof fn lemma_step_ignores_pending<V: LittleValue>(
    p: Program<V>,
    input: V,
    m: Machine<V>,
    before: Seq<u8>,
)
    ensures
        step(p, input, Machine { buf: before + m.buf, ..m }) == match step(p, input, m) {
            Step::Done => Step::Done,
            Step::Continue(after) => Step::Continue(Machine { buf: before + after.buf, ..after }),
            Step::Interupt(after) => Step::Interupt(Machine { buf: before + after.buf, ..after }),
            Step::Fail(e, after) => Step::Fail(e, Machine { buf: before + after.buf, ..after }),
        },
{
    if m.pc < p.instructions.len() {
        match p.instructions[m.pc as int] {
            Instruction::Output { location } => {
                match resolve(p, input, m.stack, m.bindings, location) {
                    Ok(value) => {
                        assert((before + m.buf) + shown_bytes(value) =~= before + (m.buf
                            + shown_bytes(value)));
                    },
                    Err(_) => {},
                }
            },
            _ => {},
        }
    }
}

/// With other bytes before the pending output, the output of the run has
/// those bytes before it.
proof fn lemma_output_after_pending<V: LittleValue>(
    p: Program<V>,
    input: V,
    m: Machine<V>,
    before: Seq<u8>,
    fuel: nat,
)
    ensures
        output(p, input, Machine { buf: before + m.buf, ..m }, fuel) == match output(
            p,
            input,
            m,
            fuel,
        ) {
            Some(rest) => Some(before + rest),
            None => None,
        },
    decreases fuel,
{
    lemma_step_ignores_pending(p, input, m, before);
    match step(p, input, m) {
        Step::Continue(after) => {
            if fuel > 0 {
                lemma_output_after_pending(p, input, after, before, (fuel - 1) as nat);
            }
        },
        _ => {},
    }
}

/// A run that comes to its end within some number of instructions comes to
/// the same end within more.
proof fn lemma_output_with_more_fuel<V: LittleValue>(
    p: Program<V>,
    input: V,
    m: Machine<V>,
    fuel: nat,
    more: nat,
)
    requires
        output(p, input, m, fuel) is Some,
        fuel <= more,
    ensures
        output(p, input, m, more) == output(p, input, m, fuel),
    decreases fuel,
{
    match step(p, input, m) {
        Step::Continue(after) => {
            lemma_output_with_more_fuel(p, input, after, (fuel - 1) as nat, (more - 1) as nat);
        },
        _ => {},
    }
}

/// The instructions that a read runs change nothing of the run's output,
/// and where the run has an output none of them interrupts or fails. A read
/// that is ready with less than it wanted has found the program done.
proof fn lemma_pull_keeps_output<V: LittleValue>(
    p: Program<V>,
    input: V,
    m: Machine<V>,
    want: nat,
    steps: nat,
    fuel: nat,
)
    requires
        output(p, input, m, fuel) is Some,
    ensures
        match pull(p, input, m, want, steps) {
            Pull::Ready(ready) => output(p, input, ready, fuel) == output(p, input, m, fuel) && (
            ready.buf.len() >= want || step(p, input, ready) is Done),
            Pull::Exhausted(left) => output(p, input, left, fuel) == output(p, input, m, fuel),
            Pull::Interupt(_) => false,
            Pull::Fail(_, _) => false,
        },
    decreases steps,
{
    if m.buf.len() < want && steps > 0 {
        match step(p, input, m) {
            Step::Continue(after) => {
                lemma_output_with_more_fuel(p, input, after, (fuel - 1) as nat, fuel);
                lemma_pull_keeps_output(p, input, after, want, (steps - 1) as nat, fuel);
            },
            _ => {},
        }
    }
}

/// The bytes that reads hand out are the output of the run, in its order,
/// whatever room each read has: a read hands out the front of the output
/// and leaves a run whose output is the rest. It neither fails nor is it
/// interrupted, and it hands out no byte with room for one only where no
/// output is left.
pub proof fn lemma_reads_hand_out_the_output<V: LittleValue>(
    p: Program<V>,
    input: V,
    m: Machine<V>,
    want: nat,
    steps: nat,
    fuel: nat,
)
    requires
        output(p, input, m, fuel) is Some,
    ensures
        pull(p, input, m, want, steps) is Ready || pull(p, input, m, want, steps) is Exhausted,
        pull(p, input, m, want, steps) matches Pull::Ready(ready) ==> {
            let all = output(p, input, m, fuel)->Some_0;
            let n = handed(ready.buf, want);
            &&& n <= all.len()
            &&& ready.buf.take(n as int) == all.take(n as int)
            &&& output(p, input, Machine { buf: ready.buf.skip(n as int), ..ready }, fuel) == Some(
                all.skip(n as int),
            )
            &&& n == 0 && want > 0 ==> all.len() == 0
        },
{
    lemma_pull_keeps_output(p, input, m, want, steps, fuel);
    match pull(p, input, m, want, steps) {
        Pull::Ready(ready) => {
            let all = output(p, input, m, fuel)->Some_0;
            let n = handed(ready.buf, want);
            let front = ready.buf.take(n as int);
            let left = Machine { buf: ready.buf.skip(n as int), ..ready };
            assert(front + left.buf =~= ready.buf);
            assert(ready == Machine { buf: front + left.buf, ..left });
            lemma_output_after_pending(p, input, left, front, fuel);
            let rest = output(p, input, left, fuel)->Some_0;
            assert(all == front + rest);
            assert(all.take(n as int) =~= front);
            assert(all.skip(n as int) =~= rest);
        },
        _ => {},
    }
}

/// A program that is one `Output` has the display form of what the
/// location holds for its output, and nothing else.
pub proof fn lemma_single_output_is_the_output<V: LittleValue>(
    p: Program<V>,
    input: V,
    location: Mem,
    value: V,
    fuel: nat,
)
    requires
        p.instructions == seq![Instruction::Output { location }],
        resolve(p, input, Seq::empty(), Seq::empty(), location) == Ok::<V, LittleError>(value),
        fuel >= 1,
    ensures
        output(p, input, Machine::start(), fuel) == Some(shown_bytes(value)),
{
    let start = Machine::<V>::start();
    let after = Machine { pc: 1, buf: shown_bytes(value), ..start };
    assert(start.buf + shown_bytes(value) =~= shown_bytes(value));
    assert(step(p, input, start) == Step::Continue(after));
    assert(step(p, input, after) == Step::<V>::Done);
    assert(output(p, input, after, (fuel - 1) as nat) == Some(shown_bytes(value)));
}

/// A program without instructions has the empty output.
pub proof fn lemma_empty_program_has_no_output<V: LittleValue>(p: Program<V>, input: V, fuel: nat)
    requires
        p.instructions.len() == 0,
    ensures
        output(p, input, Machine::start(), fuel) == Some(Seq::<u8>::empty()),
{
}

/// The jump targets of a program all lie within it, its end counted in.
pub open spec fn jumps_within(instructions: Seq<Instruction>) -> bool {
    forall|i: int|
        0 <= i < instructions.len() ==> match #[trigger] instructions[i] {
            Instruction::Jump { pc } => pc <= instructions.len(),
            Instruction::CondJump { pc, .. } => pc <= instructions.len(),
            _ => true,
        }
}

/// In a program whose jump targets lie within it, the program counter
/// stays at an instruction or at the end.
pub proof fn lemma_pc_stays_within<V: LittleValue>(p: Program<V>, input: V, m: Machine<V>)
    requires
        jumps_within(p.instructions),
        m.pc <= p.instructions.len(),
    ensures
        match step(p, input, m) {
            Step::Done => true,
            Step::Continue(after) => after.pc <= p.instructions.len(),
            Step::Interupt(after) => after.pc <= p.instructions.len(),
            Step::Fail(_, after) => after.pc <= p.instructions.len(),
        },
{
    if m.pc < p.instructions.len() {
        let instruction = p.instructions[m.pc as int];
    }
}

} // verus!
