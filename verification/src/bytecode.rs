//! Bytecode helpers.

use crate::endian::{
    le_bytes, le_value, lemma_le_bytes_len, lemma_le_bytes_of_value, lemma_le_value_of_bytes,
    read_u32, span, write_u32,
};
use crate::stream::{seek_and_buf_copy, window};
use vstd::prelude::*;

verus! {

/// Bytecode representation.
pub trait Bytecode {

}

/// Serialize and deserialize a structure from bytes.
pub trait Serializer: Sized {
    /// The bytes that stand for the structure.
    spec fn encoding(&self) -> Seq<u8>;

    /// Write contents to the end of `writer`, returns bytes written.
    fn serialize(&self, writer: &mut Vec<u8>) -> (r: Result<u64, Error>)
        ensures
            match r {
                Ok(n) => n == self.encoding().len() && final(writer)@ == old(writer)@
                    + self.encoding(),
                Err(_) => final(writer)@ == old(writer)@,
            },
    ;

    /// Read contents from the front of `reader`, return tuple of bytes read and new structure.
    fn deserialize(reader: &[u8]) -> (r: Result<(u64, Self), Error>)
        ensures
            r matches Ok((n, structure)) ==> n <= reader@.len() && structure.encoding()
                == reader@.take(n as int),
    ;
}

/// Bytecode read/write error.
#[derive(Debug)]
pub enum Error {
    /// Failed to read cache header, assume this is not valid cache file.
    InvalidBinaryFormat,
    UnexpectedEOF,
    Io(std::io::Error),
}

/// The magic number as a header's four bytes spell it.
pub const MAGIC: u32 = 52231103;

/// Bytecode file header.
#[derive(Eq, PartialEq, Debug)]
pub struct Header {
    magic: u32,
}

impl View for Header {
    type V = u32;

    /// The number that the header carries.
    closed spec fn view(&self) -> u32 {
        self.magic
    }
}

impl Header {
    pub fn new() -> (r: Header)
        ensures
            r@ == MAGIC,
    {
        Header { magic: Header::magic() }
    }

    /// Check if header is valid.
    pub fn is_magical(&self) -> (r: bool)
        ensures
            r == (self@ == MAGIC),
    {
        self.magic == Header::magic()
    }

    /// Return magic header number.
    fn magic() -> (r: u32)
        ensures
            r == MAGIC,
    {
        MAGIC
    }
}

impl Serializer for Header {
    /// A header is its number in four bytes, the least significant first.
    open spec fn encoding(&self) -> Seq<u8> {
        le_bytes(self@ as nat, 4)
    }

    /// Appends the header's four bytes. It cannot fail.
    fn serialize(&self, output: &mut Vec<u8>) -> (r: Result<u64, Error>)
        ensures
            r matches Ok(4),
    {
        let bytes = write_u32(self.magic);
        proof {
            lemma_le_bytes_len(self.magic as nat, 4);
        }
        output.extend_from_slice(bytes.as_slice());
        proof {
            assert(output@ =~= old(output)@ + self.encoding());
        }
        Ok(4)
    }

    /// Reads a header from the first four bytes, whatever number they
    /// spell. Fewer than four bytes are the one error.
    fn deserialize(input: &[u8]) -> (r: Result<(u64, Header), Error>)
        ensures
            match r {
                Ok((n, header)) => input@.len() >= 4 && n == 4 && header@ as nat == le_value(
                    input@.take(4),
                ),
                Err(e) => input@.len() < 4 && e is UnexpectedEOF,
            },
    {
        if input.len() < 4 {
            return Err(Error::UnexpectedEOF);
        }
        let magic = read_u32(input);
        proof {
            lemma_le_bytes_of_value(input@.take(4));
        }
        Ok((4, Header { magic: magic }))
    }
}

/// What is read back from a header's bytes, and from what may follow them,
/// is the header: `read` is any header that `deserialize` may give for them.
pub proof fn lemma_header_round_trip(header: Header, rest: Seq<u8>, read: Header)
    requires
        read@ as nat == le_value((header.encoding() + rest).take(4)),
    ensures
        header.encoding().len() == 4,
        read == header,
{
    lemma_le_bytes_len(header@ as nat, 4);
    assert((header.encoding() + rest).take(4) =~= header.encoding());
    assert(span(4) == 0x1_0000_0000) by {
        reveal_with_fuel(span, 5);
    }
    lemma_le_value_of_bytes(header@ as nat, 4);
}

/// Reads a header from the front of `input`, checks its magic number, and
/// copies to `output` the two bytes that lie three bytes behind the header,
/// as far as `input` has them.
pub fn devil(input: &[u8], output: &mut Vec<u8>) -> (r: Result<(), Error>)
    ensures
        match r {
            Ok(_) => {
                &&& input@.len() >= 4
                &&& le_value(input@.take(4)) == MAGIC
                &&& final(output)@ == old(output)@ + window(input@, 7, 2)
            },
            Err(e) => {
                &&& final(output)@ == old(output)@
                &&& if input@.len() < 4 {
                    e is UnexpectedEOF
                } else {
                    e is InvalidBinaryFormat && le_value(input@.take(4)) != MAGIC
                }
            },
        },
{
    let (data_start, header) = match Header::deserialize(input) {
        Ok(read) => read,
        Err(e) => {
            return Err(e);
        },
    };
    if !header.is_magical() {
        return Err(Error::InvalidBinaryFormat);
    }
    let mut buf = vec![0u8; 2];
    seek_and_buf_copy(data_start + 3, 2, buf.as_mut_slice(), input, output);
    Ok(())
}

} // verus!
