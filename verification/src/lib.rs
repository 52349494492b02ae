//! A small, embeddable template execution engine.
//!
//! A template is a sequence of low-level instructions which, run against a
//! root value supplied by the host, produces a stream of bytes. The engine is
//! generic over the value type: see [`LittleValue`].
//!
//! A [`Template`] is built into an executable by the [`interpreter`], with
//! the functions of the host that it names; an executable is run on a root
//! value as a stream, which is read piece by piece. The module [`machine`]
//! says what each instruction and each read does, and [`laws`] what follows
//! from that for every program.

use crate::endian::{le_bytes, unsigned};
use vstd::prelude::*;

pub mod endian;
mod error;
pub mod options;
mod template;

pub mod bytecode;
pub mod compiler;
pub mod interpreter;
pub mod laws;
pub mod machine;
pub mod stream;

pub use error::{BuildError, LittleError, SeekError};
pub use options::{Names, Options, OptionsTemplate, Slot};
pub use stream::ByteStream;
pub use template::Template;

verus! {

/// Mutable internal machine binding.
#[derive(Copy, Clone, Eq, PartialEq, Structural, Hash, Debug)]
pub struct Binding(pub u32);

/// Immutable external machine function.
#[derive(Copy, Clone, Eq, PartialEq, Structural, Hash, Debug)]
pub struct Call(pub u32);

/// Immutable internal machine constant.
#[derive(Copy, Clone, Eq, PartialEq, Structural, Hash, Debug)]
pub struct Constant(pub u32);

impl Slot for Binding {
    open spec fn id(&self) -> u32 {
        self.0
    }

    fn index(&self) -> u32 {
        self.0
    }
}

impl Slot for Call {
    open spec fn id(&self) -> u32 {
        self.0
    }

    fn index(&self) -> u32 {
        self.0
    }
}

impl Slot for Constant {
    open spec fn id(&self) -> u32 {
        self.0
    }

    fn index(&self) -> u32 {
        self.0
    }
}

/// Memory location.
///
/// This may be required by `Output`, `Push` or `Load` instructions.
#[derive(Copy, Clone, Debug)]
pub enum Mem {
    /// Constant item.
    Const(Constant),
    /// Binding.
    Binding(Binding),
    /// Parameter with name.
    Parameter { name: Constant },
    /// All parameters.
    Parameters,
    /// Last value on stack.
    StackTop1,
    /// Last - 1 value on stack.
    StackTop2,
}

/// Jump condition.
///
/// Used by `CondJump` instruction.
#[derive(Copy, Clone, Debug)]
pub enum Cond {
    /// Jump if stack value equals `Mem`.
    Eq,
    /// Jump if stack value not equals `Mem`.
    Ne,
    /// Jump if stack value greater than `Mem`.
    Gt,
    /// Jump if stack value less than `Mem`.
    Lt,
    /// Jump if stack value greater than or equals `Mem`.
    Gte,
    /// Jump if stack value less than or equals `Mem`.
    Lte,
}

/// Executable template instruction.
#[derive(Copy, Clone, Debug)]
pub enum Instruction {
    /// Output specified `Mem`.
    Output { location: Mem },
    /// Replace a value in `StackTop1` with its property named `Mem`.
    Property { name: Mem },
    /// Push data from `Mem` to stack.
    Push { location: Mem },
    /// Pop specified number of stack items.
    Pop { times: u16 },
    /// Jump to instruction.
    Jump { pc: u16 },
    /// Jump to instruction based on `Cond`.
    CondJump { pc: u16, location: Mem, test: Cond },
    /// Call function with specified amount of stack items and store result to stack if bool = true.
    Call { call: Call, argc: u8, push_result_to_stack: bool },
    /// Copy value from `Mem` to `Binding`.
    Load { binding: Binding, location: Mem },
    /// Interupt execution, it is up to the user to know what to do with the stack at current state.
    Interupt,
}

/// How one value stands to another in the value type's order.
#[derive(Copy, Clone, Eq, PartialEq, Structural, Debug)]
pub enum Order {
    Less,
    Equal,
    Greater,
}

/// Little Value abstraction, used by runtime.
///
/// The engine asks five things of a value: a display form, an equality, a
/// (possibly partial) order, a default, and properties found by name. Each
/// executable method answers with what the spec function beside it names,
/// so an implementation has to be a function of its arguments alone.
pub trait LittleValue: Sized {
    /// The display form of the value.
    spec fn shown(&self) -> Seq<char>;

    /// Whether two values are equal to the value type.
    spec fn same(&self, other: &Self) -> bool;

    /// How the value stands to `other`; `None` where the two are not comparable.
    spec fn order(&self, other: &Self) -> Option<Order>;

    /// The property of the value that `key` names, if it has one.
    spec fn property(&self, key: Seq<char>) -> Option<Self>;

    /// The value of an unset binding.
    spec fn unset() -> Self;

    /// Renders the display form.
    fn display(&self) -> (text: String)
        ensures
            text@ == self.shown(),
    ;

    /// Tests equality.
    fn equals(&self, other: &Self) -> (same: bool)
        ensures
            same == self.same(other),
    ;

    /// Compares with `other`.
    fn compare(&self, other: &Self) -> (order: Option<Order>)
        ensures
            order == self.order(other),
    ;

    /// Looks a property up by name.
    fn get_property(&self, key: &str) -> (found: Option<Self>)
        ensures
            found == self.property(key@),
    ;

    /// Makes the value of an unset binding.
    fn default_value() -> (value: Self)
        ensures
            value == Self::unset(),
    ;

    /// Makes an owned copy.
    fn duplicate(&self) -> (copy: Self)
        ensures
            copy == *self,
    ;
}

/// External template function.
///
/// This function is called from inside processor, and is used to implement various helpers.
/// What it returns has to depend on the arguments alone: `outcome` names it.
pub trait Function<V> {
    /// What the function returns for `args`.
    spec fn outcome(&self, args: Seq<V>) -> Result<V, String>;

    fn invoke(&self, args: &[V]) -> (result: Result<V, String>)
        ensures
            result == self.outcome(args@),
    ;
}

/// Structure used to uniquely identify executable blobs.
#[derive(Hash, Eq, PartialEq)]
pub struct Fingerprint([u8; 20]);

impl View for Fingerprint {
    type V = Seq<u8>;

    /// The twenty bytes of the fingerprint.
    closed spec fn view(&self) -> Seq<u8> {
        self.0@
    }
}

impl Fingerprint {
    /// The fingerprint of twenty zero bytes.
    pub fn empty() -> (r: Fingerprint)
        ensures
            r@ == Seq::new(20, |i: int| 0u8),
    {
        let bytes: [u8; 20] = [0;20];
        proof {
            assert(bytes == vstd::array::spec_array_fill_for_copy_type::<u8, 20>(0u8));
            assert(bytes@ =~= Seq::new(20, |i: int| 0u8));
        }
        Fingerprint(bytes)
    }

    pub fn new(inner: [u8; 20]) -> (r: Fingerprint)
        ensures
            r@ == inner@,
    {
        Fingerprint(inner)
    }
}

pub trait IdentifyValue {
    fn identify_value(&self) -> Option<Fingerprint>;

    fn hash_value<H: Sha1Hasher>(&self, hasher: &mut H) -> Result<(), ()>;
}

/// A hasher that is fed bytes and numbers. A number is fed as its bytes,
/// the least significant first, a negative one in two's complement.
pub trait Sha1Hasher {
    /// The bytes that were written into the hasher so far.
    spec fn written(&self) -> Seq<u8>;

    /// Completes a round of hashing, producing the output hash generated.
    fn finish(&self) -> Fingerprint;

    /// Writes some data into this `Hasher`
    fn write(&mut self, bytes: &[u8])
        ensures
            final(self).written() == old(self).written() + bytes@,
    ;

    /// Write a single `u8` into this hasher
    fn write_u8(&mut self, i: u8)
        ensures
            final(self).written() == old(self).written() + le_bytes(i as nat, 1),
    {
        let bytes = [i];
        proof {
            reveal_with_fuel(le_bytes, 2);
            assert(bytes@ =~= le_bytes(i as nat, 1));
        }
        self.write(bytes.as_slice())
    }

    /// Write a single `u16` into this hasher.
    fn write_u16(&mut self, i: u16)
        ensures
            final(self).written() == old(self).written() + le_bytes(i as nat, 2),
    {
        let bytes = endian::write_u16(i);
        self.write(bytes.as_slice());
    }

    /// Write a single `u32` into this hasher.
    fn write_u32(&mut self, i: u32)
        ensures
            final(self).written() == old(self).written() + le_bytes(i as nat, 4),
    {
        let bytes = endian::write_u32(i);
        self.write(bytes.as_slice());
    }

    /// Write a single `u64` into this hasher.
    fn write_u64(&mut self, i: u64)
        ensures
            final(self).written() == old(self).written() + le_bytes(i as nat, 8),
    {
        let bytes = endian::write_u64(i);
        self.write(bytes.as_slice());
    }

    /// Write a single `i8` into this hasher.
    fn write_i8(&mut self, i: i8)
        ensures
            final(self).written() == old(self).written() + le_bytes(unsigned(i as int, 1), 1),
    {
        let bytes = endian::write_i8(i);
        self.write(bytes.as_slice());
    }

    /// Write a single `i16` into this hasher.
    fn write_i16(&mut self, i: i16)
        ensures
            final(self).written() == old(self).written() + le_bytes(unsigned(i as int, 2), 2),
    {
        let bytes = endian::write_i16(i);
        self.write(bytes.as_slice());
    }

    /// Write a single `i32` into this hasher.
    fn write_i32(&mut self, i: i32)
        ensures
            final(self).written() == old(self).written() + le_bytes(unsigned(i as int, 4), 4),
    {
        let bytes = endian::write_i32(i);
        self.write(bytes.as_slice());
    }

    /// Write a single `i64` into this hasher.
    fn write_i64(&mut self, i: i64)
        ensures
            final(self).written() == old(self).written() + le_bytes(unsigned(i as int, 8), 8),
    {
        let bytes = endian::write_i64(i);
        self.write(bytes.as_slice());
    }
}

/// Seek to an offset.
pub trait PositionSeek {
    /// Seek to an offset, in position, in some container/stream.
    ///
    /// A seek beyond the end of a container is allowed, but implementation defined.
    ///
    /// If the seek operation completed successfully, this method returns the new
    /// position from the start of the container.
    fn seek(&mut self, pos: usize) -> Result<usize, SeekError>;
}

/// Converts template into a runable version.
///
/// Consumes `Template` and produces object that has `Execute` trait,
/// so it is possible to call `execute` on it.
///
/// Also requires `calls` list that could be mapped to calls required by processor.
pub trait Build<'a, V> {
    type Output: Execute<'a, V>;

    /// Builds executable from template.
    fn build(
        &'a mut self,
        id: &str,
        template: Template<V>,
        calls: &'a Names<&'a dyn Function<V>>,
    ) -> Result<Self::Output, BuildError>;

    /// Loads existing executable by unique fingerprint and env fingerprint.
    fn load(
        &'a mut self,
        id: &str,
        env: Fingerprint,
        calls: &'a Vec<&'a dyn Function<V>>,
    ) -> Result<Self::Output, BuildError>;
}

/// Executes compiled blob and converts input value to output stream.
pub trait Execute<'a, V> {
    type Stream: ByteStream;

    /// Run this executable.
    fn execute(&'a self, data: V) -> Self::Stream;

    /// The id that the executable was built under.
    spec fn id(&self) -> Seq<char>;

    /// Get executable's id.
    fn get_id<'r>(&'r self) -> (id: &'r str)
        ensures
            id@ == self.id(),
    ;

    /// The bytes of the environment fingerprint that the executable requires.
    spec fn env(&self) -> Seq<u8>;

    /// Get environment fingerprint required by executable.
    fn identify_env(&self) -> (env: Fingerprint)
        ensures
            env@ == self.env(),
    ;
}

} // verus!
