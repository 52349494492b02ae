//! Template interpreter.

use crate::machine::{
    bound, constant, ends, handed, holds, pull, resolve, shown_bytes, step, stored, Machine,
    Program, Pull, Step, MAX_STEPS, MAX_VALUES,
};
use crate::options;
use crate::options::joined;
use crate::stream::{fill, ByteStream};
use crate::{
    Binding, Build, BuildError, Call, Cond, Constant, Execute, Fingerprint, Function, Instruction,
    LittleError, LittleValue, Mem, Names, Options, Order, Template,
};
use vstd::prelude::*;
use vstd::slice::slice_subrange;

verus! {

/// Executes template without compilation.
pub struct Interpreter;

impl Interpreter {
    pub fn new() -> Interpreter {
        Interpreter
    }
}

/// Whether `r` is what a build of `template` under `id` with the functions
/// `calls` has to give, `r` being the error or the id and the program of
/// the executable. Each name of the template's call table has to be among
/// `calls`: the first that is not is the error. Nothing else of the
/// template is checked.
pub open spec fn built<'a, V>(
    id: Seq<char>,
    template: Template<V>,
    calls: Map<Seq<char>, &'a dyn Function<V>>,
    r: Result<(Seq<char>, Program<'a, V>), BuildError>,
) -> bool {
    match r {
        Ok((name, program)) => {
            &&& forall|key: Seq<char>|
                template.calls_template@.contains_key(key) ==> calls.contains_key(key)
            &&& name == id
            &&& program.instructions == template.instructions@
            &&& program.constants == template.constants@
            &&& program.calls == joined(
                template.calls_template.names(),
                template.calls_template@,
                calls,
            )
        },
        Err(BuildError::FunctionNotFound { required }) => exists|i: int|
            {
                &&& 0 <= i < template.calls_template.names().len()
                &&& #[trigger] template.calls_template.names()[i] == required@
                &&& !calls.contains_key(required@)
                &&& forall|j: int|
                    0 <= j < i ==> calls.contains_key(#[trigger] template.calls_template.names()[j])
            },
        Err(_) => false,
    }
}

impl<'a, V: LittleValue + 'a> Build<'a, V> for Interpreter {
    type Output = Executable<'a, V>;

    /// Loads the interpreter's executable.
    ///
    /// Also maps templates call indices to runtime calls.
    fn build(
        &'a mut self,
        id: &str,
        template: Template<V>,
        calls: &'a Names<&'a dyn Function<V>>,
    ) -> (r: Result<Executable<'a, V>, BuildError>)
        ensures
            built(
                id@,
                template,
                calls@,
                match r {
                    Ok(executable) => Ok((executable.id(), executable@)),
                    Err(e) => Err(e),
                },
            ),
    {
        Executable::link(id, template, calls)
    }

    /// Loads existing executable by unique fingerprint and env fingerprint.
    ///
    /// The interpreter keeps no executables, so there is none to find.
    fn load(&'a mut self, id: &str, env: Fingerprint, calls: &'a Vec<&'a dyn Function<V>>) -> (r:
        Result<Executable<'a, V>, BuildError>)
        ensures
            r matches Err(BuildError::ExecutableNotFound { id: missing }) && missing@ == id@,
    {
        Err(BuildError::ExecutableNotFound { id: id.to_owned() })
    }
}

#[verifier::reject_recursive_types(V)]
pub struct Executable<'a, V> {
    id: String,
    instructions: Vec<Instruction>,
    constants: Options<Constant, V>,
    calls: Options<Call, &'a dyn Function<V>>,
}

impl<'a, V> View for Executable<'a, V> {
    type V = Program<'a, V>;

    closed spec fn view(&self) -> Program<'a, V> {
        Program {
            instructions: self.instructions@,
            constants: self.constants@,
            calls: self.calls@,
        }
    }
}

impl<'a, V: LittleValue + 'a> Executable<'a, V> {
    /// Resolves the template's call table against `calls` and keeps the
    /// rest of the template as it is.
    pub(crate) fn link(id: &str, template: Template<V>, calls: &'a Names<&'a dyn Function<V>>) -> (r:
        Result<Executable<'a, V>, BuildError>)
        ensures
            built(
                id@,
                template,
                calls@,
                match r {
                    Ok(executable) => Ok((executable.id(), executable@)),
                    Err(e) => Err(e),
                },
            ),
    {
        let built = match template.calls_template.build(calls) {
            Ok(built) => built,
            Err(options::Error::ParameterMissing(s)) => {
                return Err(BuildError::FunctionNotFound { required: s });
            },
        };
        Ok(
            Executable::<V> {
                id: id.to_owned(),
                instructions: template.instructions,
                constants: template.constants,
                calls: built,
            },
        )
    }
}

impl<'a, V: LittleValue + 'a> Execute<'a, V> for Executable<'a, V> {
    type Stream = InterpreterStream<'a, V>;

    /// Makes a stream that runs the program on `data` from its beginning.
    fn execute(&'a self, data: V) -> (stream: InterpreterStream<'a, V>)
        ensures
            stream@ == Machine::<V>::start(),
            stream.program() == self@,
            stream.input() == data,
    {
        InterpreterStream {
            pc: 0,
            buf: Vec::new(),
            values: Values {
                stack: Vec::new(),
                values: Vec::new(),
                executable: self,
                parameters: data,
            },
        }
    }

    closed spec fn id(&self) -> Seq<char> {
        self.id@
    }

    fn get_id<'r>(&'r self) -> (id: &'r str) {
        self.id.as_str()
    }

    /// No environment is required: the fingerprint is empty.
    open spec fn env(&self) -> Seq<u8> {
        Seq::new(20, |i: int| 0u8)
    }

    fn identify_env(&self) -> (env: Fingerprint) {
        Fingerprint::empty()
    }
}

/// What one instruction came to.
pub enum ExecutionResult {
    Done,
    Continue,
    Interupt,
}

/// A value that an instruction reads: borrowed where it lies in the
/// machine, owned where it had to be made.
enum Operand<'r, V> {
    Borrowed(&'r V),
    Owned(V),
}

impl<'r, V: LittleValue> Operand<'r, V> {
    spec fn value(&self) -> V {
        match self {
            Operand::Borrowed(v) => **v,
            Operand::Owned(v) => *v,
        }
    }

    fn as_ref(&self) -> (r: &V)
        ensures
            *r == self.value(),
    {
        match self {
            Operand::Borrowed(v) => *v,
            Operand::Owned(v) => v,
        }
    }

    fn into_owned(self) -> (r: V)
        ensures
            r == self.value(),
    {
        match self {
            Operand::Borrowed(v) => v.duplicate(),
            Operand::Owned(v) => v,
        }
    }
}

#[verifier::reject_recursive_types(V)]
struct Values<'a, V> {
    stack: Vec<V>,
    values: Vec<V>,
    parameters: V,
    executable: &'a Executable<'a, V>,
}

impl<'a, V: LittleValue> Values<'a, V> {
    fn get_const(&self, i: Constant) -> (r: Result<Operand<'_, V>, LittleError>)
        ensures
            match r {
                Ok(operand) => constant(self.executable@, i) == Ok::<V, LittleError>(
                    operand.value(),
                ),
                Err(e) => constant(self.executable@, i) == Err::<V, LittleError>(e),
            },
    {
        match self.executable.constants.get(i) {
            Some(value) => Ok(Operand::Borrowed(value)),
            None => Err(LittleError::ConstantMissing(i)),
        }
    }

    fn get_mem_value(&self, mem: &Mem) -> (r: Result<Operand<'_, V>, LittleError>)
        ensures
            match r {
                Ok(operand) => resolve(
                    self.executable@,
                    self.parameters,
                    self.stack@,
                    self.values@,
                    *mem,
                ) == Ok::<V, LittleError>(operand.value()),
                Err(e) => resolve(self.executable@, self.parameters, self.stack@, self.values@, *mem)
                    == Err::<V, LittleError>(e),
            },
    {
        match *mem {
            Mem::Binding(i) => Ok(self.get(i)),
            Mem::Parameter { name: name_constant } => {
                let name = self.get_const(name_constant)?;
                let key = name.as_ref().display();
                match self.parameters.get_property(key.as_str()) {
                    Some(value) => Ok(Operand::Owned(value)),
                    None => Err(LittleError::ParameterMissing(name_constant)),
                }
            },
            Mem::Parameters => Ok(Operand::Borrowed(&self.parameters)),
            Mem::Const(i) => self.get_const(i),
            Mem::StackTop1 => {
                let len = self.stack.len();
                if len >= 1 {
                    Ok(Operand::Borrowed(&self.stack[len - 1]))
                } else {
                    Err(LittleError::StackUnderflow)
                }
            },
            Mem::StackTop2 => {
                let len = self.stack.len();
                if len >= 2 {
                    Ok(Operand::Borrowed(&self.stack[len - 2]))
                } else {
                    Err(LittleError::StackUnderflow)
                }
            },
        }
    }

    fn set(&mut self, binding: Binding, value: V) -> (r: Result<(), LittleError>)
        ensures
            final(self).stack == old(self).stack,
            final(self).parameters == old(self).parameters,
            final(self).executable == old(self).executable,
            binding.0 < MAX_VALUES ==> r is Ok && final(self).values@ == stored(
                old(self).values@,
                binding.0 as nat,
                value,
            ),
            binding.0 >= MAX_VALUES ==> r == Err::<(), LittleError>(
                LittleError::BindingLimit(binding),
            ) && final(self).values == old(self).values,
    {
        let i = binding.0 as usize;
        if !self.ensure_capacity_for_index(i) {
            return Err(LittleError::BindingLimit(binding));
        }
        self.values[i] = value;
        proof {
            assert(self.values@ =~= stored(old(self).values@, binding.0 as nat, value));
        }
        Ok(())
    }

    fn get(&self, binding: Binding) -> (r: Operand<'_, V>)
        ensures
            r.value() == bound(self.values@, binding),
    {
        let i = binding.0 as usize;
        if i >= self.values.len() {
            Operand::Owned(V::default_value())
        } else {
            Operand::Borrowed(&self.values[i])
        }
    }

    /// Grows the bindings with default values until `index` is a slot of
    /// theirs; refuses an index beyond what a stream may hold.
    fn ensure_capacity_for_index(&mut self, index: usize) -> (fits: bool)
        ensures
            fits == (index < MAX_VALUES),
            final(self).stack == old(self).stack,
            final(self).parameters == old(self).parameters,
            final(self).executable == old(self).executable,
            !fits ==> final(self).values == old(self).values,
            fits && index < old(self).values@.len() ==> final(self).values == old(self).values,
            fits && index >= old(self).values@.len() ==> final(self).values@ == old(self).values@
                + Seq::new((index + 1 - old(self).values@.len()) as nat, |i: int| V::unset()),
    {
        if index >= MAX_VALUES {
            return false;
        }
        let required_len = index + 1;
        while self.values.len() < required_len
            invariant
                required_len == index + 1,
                self.stack == old(self).stack,
                self.parameters == old(self).parameters,
                self.executable == old(self).executable,
                old(self).values@.len() <= self.values@.len(),
                index < old(self).values@.len() ==> self.values == old(self).values,
                index >= old(self).values@.len() ==> self.values@.len() <= required_len
                    && self.values@ == old(self).values@ + Seq::new(
                    (self.values@.len() - old(self).values@.len()) as nat,
                    |i: int| V::unset(),
                ),
            decreases required_len - self.values@.len(),
        {
            self.values.push(V::default_value());
            proof {
                assert(self.values@ =~= old(self).values@ + Seq::new(
                    (self.values@.len() - old(self).values@.len()) as nat,
                    |i: int| V::unset(),
                ));
            }
        }
        proof {
            if index >= old(self).values@.len() {
                assert(self.values@.len() == required_len);
            } else {
                assert(self.values == old(self).values);
            }
            assert(old(self).values@ + Seq::new(0, |i: int| V::unset()) =~= old(self).values@);
        }
        true
    }
}

/// Tests `test` on the stack's top and the addressed value.
fn check<V: LittleValue>(test: Cond, top: &V, value: &V) -> (r: bool)
    ensures
        r == holds(test, *top, *value),
{
    match test {
        Cond::Eq => top.equals(value),
        Cond::Ne => !top.equals(value),
        Cond::Gt => match top.compare(value) {
            Some(Order::Greater) => true,
            _ => false,
        },
        Cond::Gte => match top.compare(value) {
            Some(Order::Greater) => true,
            Some(Order::Equal) => true,
            _ => false,
        },
        Cond::Lt => match top.compare(value) {
            Some(Order::Less) => true,
            _ => false,
        },
        Cond::Lte => match top.compare(value) {
            Some(Order::Less) => true,
            Some(Order::Equal) => true,
            _ => false,
        },
    }
}

#[verifier::reject_recursive_types(V)]
pub struct InterpreterStream<'a, V> {
    pc: usize,
    buf: Vec<u8>,
    values: Values<'a, V>,
}

impl<'a, V> View for InterpreterStream<'a, V> {
    type V = Machine<V>;

    closed spec fn view(&self) -> Machine<V> {
        Machine {
            pc: self.pc as nat,
            buf: self.buf@,
            stack: self.values.stack@,
            bindings: self.values.values@,
        }
    }
}

impl<'a, V: LittleValue> InterpreterStream<'a, V> {
    /// The program that the stream runs.
    pub closed spec fn program(&self) -> Program<'a, V> {
        self.values.executable@
    }

    /// The root value that the stream runs the program on.
    pub closed spec fn input(&self) -> V {
        self.values.parameters
    }

    /// Returns specified number of stack items.
    ///
    /// If stack is smaller, returns None.
    pub fn peek_stack<'r>(&'r self, slice_size: usize) -> (r: Option<&'r [V]>)
        ensures
            match r {
                Some(items) => slice_size <= self@.stack.len() && items@ == self@.stack.skip(
                    self@.stack.len() - slice_size,
                ),
                None => slice_size > self@.stack.len(),
            },
    {
        let stack_len = self.values.stack.len();

        if stack_len < slice_size {
            return None;
        }
        Some(slice_subrange(self.values.stack.as_slice(), stack_len - slice_size, stack_len))
    }

    /// Runs the instruction at the program counter.
    pub fn execute(&mut self) -> (r: Result<ExecutionResult, LittleError>)
        ensures
            final(self).program() == old(self).program(),
            final(self).input() == old(self).input(),
            match step(old(self).program(), old(self).input(), old(self)@) {
                Step::Done => r matches Ok(ExecutionResult::Done) && final(self)@ == old(self)@,
                Step::Continue(after) => r matches Ok(ExecutionResult::Continue) && final(self)@
                    == after,
                Step::Interupt(after) => r matches Ok(ExecutionResult::Interupt) && final(self)@
                    == after,
                Step::Fail(e, after) => {
                    &&& r == Err::<ExecutionResult, LittleError>(e)
                    &&& final(self)@ == after
                },
            },
    {
        let executable = self.values.executable;
        if self.pc >= executable.instructions.len() {
            return Ok(ExecutionResult::Done);
        }
        let instruction = executable.instructions[self.pc];
        match instruction {
            Instruction::Output { location } => {
                let value = self.values.get_mem_value(&location)?;
                let text = value.as_ref().display();
                self.buf.extend_from_slice(text.as_str().as_bytes());
                proof {
                    assert(self.buf@ =~= old(self).buf@ + shown_bytes(value.value()));
                }
            },
            Instruction::Property { name } => {
                let obj = match self.values.stack.pop() {
                    None => {
                        return Err(LittleError::StackUnderflow);
                    },
                    Some(v) => v,
                };
                proof {
                    assert(self.values.stack@.push(obj) =~= old(self).values.stack@);
                }
                let key = match self.values.get_mem_value(&name) {
                    Ok(operand) => operand.as_ref().display(),
                    Err(e) => {
                        self.values.stack.push(obj);
                        return Err(e);
                    },
                };
                match obj.get_property(key.as_str()) {
                    Some(value) => {
                        self.values.stack.push(value);
                    },
                    None => {
                        self.values.stack.push(obj);
                        return Err(LittleError::PropertyMissing);
                    },
                }
            },
            Instruction::Pop { times } => {
                let len = self.values.stack.len();
                if times as usize > len {
                    self.values.stack.clear();
                    return Err(LittleError::StackUnderflow);
                }
                self.values.stack.truncate(len - times as usize);
            },
            Instruction::Push { location } => {
                let value = self.values.get_mem_value(&location)?.into_owned();
                self.values.stack.push(value);
            },
            Instruction::Load { binding, location } => {
                let value = self.values.get_mem_value(&location)?.into_owned();
                self.values.set(binding, value)?;
            },
            Instruction::Jump { pc } => {
                self.pc = pc as usize;
                return Ok(ExecutionResult::Continue);
            },
            Instruction::CondJump { pc, location, test } => {
                let value = self.values.get_mem_value(&location)?;
                let len = self.values.stack.len();
                if len == 0 {
                    return Err(LittleError::StackUnderflow);
                }
                let should_jump = check(test, &self.values.stack[len - 1], value.as_ref());
                if should_jump {
                    self.pc = pc as usize;
                    return Ok(ExecutionResult::Continue);
                }
            },
            Instruction::Call { call, argc, push_result_to_stack } => {
                let fun = match executable.calls.get(call) {
                    Some(f) => *f,
                    None => {
                        return Err(LittleError::CallMissing(call));
                    },
                };
                let stack_len = self.values.stack.len();
                if stack_len < argc as usize {
                    return Err(LittleError::StackUnderflow);
                }
                let result = fun.invoke(
                    slice_subrange(self.values.stack.as_slice(), stack_len - argc as usize, stack_len),
                );
                match result {
                    Ok(value) => {
                        if push_result_to_stack {
                            self.values.stack.push(value);
                        }
                    },
                    Err(e) => {
                        return Err(LittleError::CallError(e));
                    },
                }
            },
            Instruction::Interupt => {
                self.pc += 1;
                return Ok(ExecutionResult::Interupt);
            },
        }
        self.pc += 1;
        Ok(ExecutionResult::Continue)
    }

    /// Hands the front of the pending output over to `buf`, as far as it
    /// has room, and keeps the rest.
    pub fn consume_buf(&mut self, buf: &mut [u8]) -> (n: usize)
        ensures
            n == handed(old(self)@.buf, old(buf)@.len()),
            final(buf)@ == old(self)@.buf.take(n as int) + old(buf)@.skip(n as int),
            final(self)@ == (Machine { buf: old(self)@.buf.skip(n as int), ..old(self)@ }),
            final(self).program() == old(self).program(),
            final(self).input() == old(self).input(),
    {
        let n: usize = if self.buf.len() <= buf.len() {
            self.buf.len()
        } else {
            buf.len()
        };
        fill(buf, slice_subrange(self.buf.as_slice(), 0, n));
        let rest = self.buf.split_off(n);
        self.buf = rest;
        proof {
            assert(self.buf@ =~= old(self)@.buf.skip(n as int));
        }
        n
    }

    /// Reads as `read` does, but runs at most `steps` instructions before it
    /// gives up with `StepLimit`.
    pub fn read_within(&mut self, buf: &mut [u8], steps: u64) -> (r: Result<usize, LittleError>)
        ensures
            final(self).program() == old(self).program(),
            final(self).input() == old(self).input(),
            ends(
                pull(old(self).program(), old(self).input(), old(self)@, old(buf)@.len(), steps as nat),
                old(buf)@,
                r,
                final(buf)@,
                final(self)@,
            ),
    {
        let mut left: u64 = steps;
        loop
            invariant
                self.program() == old(self).program(),
                self.input() == old(self).input(),
                buf@ == old(buf)@,
                pull(
                    old(self).program(),
                    old(self).input(),
                    old(self)@,
                    old(buf)@.len(),
                    steps as nat,
                ) == pull(self.program(), self.input(), self@, buf@.len(), left as nat),
            ensures
                pull(
                    old(self).program(),
                    old(self).input(),
                    old(self)@,
                    old(buf)@.len(),
                    steps as nat,
                ) == Pull::Ready(self@),
            decreases left,
        {
            if self.buf.len() >= buf.len() {
                break ;
            }
            if left == 0 {
                return Err(LittleError::StepLimit);
            }
            match self.execute() {
                Ok(res) => match res {
                    ExecutionResult::Done => {
                        break ;
                    },
                    ExecutionResult::Continue => {
                        left -= 1;
                    },
                    ExecutionResult::Interupt => {
                        return Err(LittleError::Interupt);
                    },
                },
                Err(e) => {
                    return Err(e);
                },
            }
        }
        Ok(self.consume_buf(buf))
    }
}

impl<'a, V: LittleValue> ByteStream for InterpreterStream<'a, V> {
    /// Runs the program until `buf` can be filled, the program is done, or
    /// an instruction interrupts or fails, and hands the pending output
    /// over to `buf` as far as it has room. A result of zero bytes for a
    /// `buf` with room is the end of the stream. After an interruption the
    /// next read goes on with the instruction that follows. A read that has
    /// run `MAX_STEPS` instructions and is not ready gives up with
    /// `StepLimit`; the next read goes on where it stopped.
    fn read(&mut self, buf: &mut [u8]) -> (r: Result<usize, LittleError>)
        ensures
            final(self).program() == old(self).program(),
            final(self).input() == old(self).input(),
            ends(
                pull(old(self).program(), old(self).input(), old(self)@, old(buf)@.len(), MAX_STEPS as nat),
                old(buf)@,
                r,
                final(buf)@,
                final(self)@,
            ),
    {
        self.read_within(buf, MAX_STEPS)
    }
}

} // verus!
