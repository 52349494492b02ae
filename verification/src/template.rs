//! The program that the engine runs.

use crate::{Call, Constant, Instruction, Options, OptionsTemplate};
use vstd::prelude::*;

verus! {

/// All the data required to load the processor.
pub struct Template<V> {
    pub constants: Options<Constant, V>,
    pub calls_template: OptionsTemplate<Call>,
    pub instructions: Vec<Instruction>,
    pub bindings_capacity: u32,
}

impl<V> Template<V> {
    pub fn new(
        constants: Options<Constant, V>,
        calls_template: OptionsTemplate<Call>,
        instructions: Vec<Instruction>,
        bindings_capacity: u32,
    ) -> (r: Template<V>)
        ensures
            r.constants == constants,
            r.calls_template == calls_template,
            r.instructions == instructions,
            r.bindings_capacity == bindings_capacity,
    {
        Template {
            constants: constants,
            calls_template: calls_template,
            instructions: instructions,
            bindings_capacity: bindings_capacity,
        }
    }

    pub fn empty() -> (r: Template<V>)
        ensures
            r.constants@ == Map::<u32, V>::empty(),
            r.calls_template@ == Map::<Seq<char>, Call>::empty(),
            r.calls_template.names() == Seq::<Seq<char>>::empty(),
            r.instructions@ == Seq::<Instruction>::empty(),
            r.bindings_capacity == 0,
    {
        Template {
            constants: Options::empty(),
            calls_template: OptionsTemplate::empty(),
            instructions: Vec::new(),
            bindings_capacity: 0,
        }
    }

    pub fn push_constant(self, index: Constant, value: V) -> (r: Self)
        ensures
            r.constants@ == self.constants@.insert(index.0, value),
            r.calls_template == self.calls_template,
            r.instructions == self.instructions,
            r.bindings_capacity == self.bindings_capacity,
    {
        let mut template = self;
        template.constants.push(index, value);
        template
    }

    pub fn push_call(self, key: &str, index: Call) -> (r: Self)
        ensures
            r.calls_template@ == self.calls_template@.insert(key@, index),
            r.calls_template.names() == if self.calls_template@.contains_key(key@) {
                self.calls_template.names()
            } else {
                self.calls_template.names().push(key@)
            },
            r.constants == self.constants,
            r.instructions == self.instructions,
            r.bindings_capacity == self.bindings_capacity,
    {
        let mut template = self;
        template.calls_template.push(key, index);
        template
    }

    pub fn push_instruction(&mut self, instruction: Instruction)
        ensures
            final(self).instructions@ == old(self).instructions@.push(instruction),
            final(self).constants == old(self).constants,
            final(self).calls_template == old(self).calls_template,
            final(self).bindings_capacity == old(self).bindings_capacity,
    {
        self.instructions.push(instruction);
    }

    pub fn push_instructions(self, instructions: Vec<Instruction>) -> (r: Self)
        ensures
            r.instructions@ == self.instructions@ + instructions@,
            r.constants == self.constants,
            r.calls_template == self.calls_template,
            r.bindings_capacity == self.bindings_capacity,
    {
        let mut template = self;
        let mut more = instructions;
        template.instructions.append(&mut more);
        template
    }
}

} // verus!
