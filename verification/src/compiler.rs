//! Template compiler.
//!
//! The compiler has no code generator of its own yet: what it builds runs
//! on the interpreter's machine, and so yields what the interpreter yields.

use crate::interpreter::{built, InterpreterStream};
use crate::machine::{ends, pull, Machine, Program, MAX_STEPS};
use crate::stream::ByteStream;
use crate::{
    interpreter, Build, BuildError, Execute, Fingerprint, Function, LittleError, LittleValue, Names,
    Template,
};
use vstd::prelude::*;

verus! {

pub struct Compiler;

impl Compiler {
    pub fn new() -> Compiler {
        Compiler
    }
}

impl<'a, V: LittleValue + 'a> Build<'a, V> for Compiler {
    type Output = Executable<'a, V>;

    /// Builds as the interpreter does.
    fn build(
        &'a mut self,
        id: &str,
        template: Template<V>,
        calls: &'a Names<&'a dyn Function<V>>,
    ) -> (r: Result<Executable<'a, V>, BuildError>)
        ensures
            built(
                id@,
                template,
                calls@,
                match r {
                    Ok(executable) => Ok((executable.id(), executable@)),
                    Err(e) => Err(e),
                },
            ),
    {
        match interpreter::Executable::link(id, template, calls) {
            Ok(inner) => Ok(Executable { inner: inner }),
            Err(e) => Err(e),
        }
    }

    /// The compiler keeps no executables, so there is none to find.
    fn load(&'a mut self, id: &str, env: Fingerprint, calls: &'a Vec<&'a dyn Function<V>>) -> (r:
        Result<Executable<'a, V>, BuildError>)
        ensures
            r matches Err(BuildError::ExecutableNotFound { id: missing }) && missing@ == id@,
    {
        Err(BuildError::ExecutableNotFound { id: id.to_owned() })
    }
}

#[verifier::reject_recursive_types(V)]
pub struct Executable<'a, V> {
    inner: interpreter::Executable<'a, V>,
}

impl<'a, V> View for Executable<'a, V> {
    type V = Program<'a, V>;

    closed spec fn view(&self) -> Program<'a, V> {
        self.inner@
    }
}

impl<'a, V: LittleValue + 'a> Execute<'a, V> for Executable<'a, V> {
    type Stream = CompilerStream<'a, V>;

    /// Makes a stream that runs the program on `data` from its beginning.
    fn execute(&'a self, data: V) -> (stream: CompilerStream<'a, V>)
        ensures
            stream@ == Machine::<V>::start(),
            stream.program() == self@,
            stream.input() == data,
    {
        CompilerStream { inner: self.inner.execute(data) }
    }

    closed spec fn id(&self) -> Seq<char> {
        self.inner.id()
    }

    fn get_id<'r>(&'r self) -> (id: &'r str) {
        self.inner.get_id()
    }

    /// No environment is required: the fingerprint is empty.
    open spec fn env(&self) -> Seq<u8> {
        Seq::new(20, |i: int| 0u8)
    }

    fn identify_env(&self) -> (env: Fingerprint) {
        Fingerprint::empty()
    }
}

#[verifier::reject_recursive_types(V)]
pub struct CompilerStream<'a, V> {
    inner: InterpreterStream<'a, V>,
}

impl<'a, V> View for CompilerStream<'a, V> {
    type V = Machine<V>;

    closed spec fn view(&self) -> Machine<V> {
        self.inner@
    }
}

impl<'a, V: LittleValue> CompilerStream<'a, V> {
    /// The program that the stream runs.
    pub closed spec fn program(&self) -> Program<'a, V> {
        self.inner.program()
    }

    /// The root value that the stream runs the program on.
    pub closed spec fn input(&self) -> V {
        self.inner.input()
    }
}

impl<'a, V: LittleValue> ByteStream for CompilerStream<'a, V> {
    /// Reads as the interpreter's stream does.
    fn read(&mut self, buf: &mut [u8]) -> (r: Result<usize, LittleError>)
        ensures
            final(self).program() == old(self).program(),
            final(self).input() == old(self).input(),
            ends(
                pull(
                    old(self).program(),
                    old(self).input(),
                    old(self)@,
                    old(buf)@.len(),
                    MAX_STEPS as nat,
                ),
                old(buf)@,
                r,
                final(buf)@,
                final(self)@,
            ),
    {
        self.inner.read(buf)
    }
}

} // verus!
