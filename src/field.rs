//! Typed values of a data block, decoded from and encoded to the bytes that a read
//! delivers and a write sends.
use vstd::prelude::*;
use crate::codec::{be_u16, hi_byte, lo_byte, read_u16, write_u16};
use crate::error::Error;

verus! {

/// Where a value lies in a data block: a byte offset and, for bits, a bit position.
/// It is written `byte.bit`, so 8.3 is bit 3 of byte 8.
#[derive(Debug, Clone, Copy, PartialEq, Eq, Structural)]
pub struct Offset {
    /// Byte offset in the block.
    pub byte: i32,
    /// Bit position in the byte, the digit after the point.
    pub bit: u8,
}

impl Offset {
    /// The offset `byte.bit`.
    pub fn new(byte: i32, bit: u8) -> (r: Offset)
        ensures
            r == (Offset { byte, bit }),
    {
        Offset { byte, bit }
    }
}

/// A value stored in a data block.
pub trait Field {
    /// The number of the data block.
    fn data_block(&self) -> i32;

    /// The byte offset in the data block.
    fn offset(&self) -> i32;

    /// The bytes to write back.
    fn to_bytes(&self) -> Vec<u8>;
}

/// Whether bit `pos` of `b` is set.
pub open spec fn bit_of(b: u8, pos: u8) -> bool {
    b & (1u8 << pos) != 0
}

/// `b` with bit `pos` set to `v`, the other bits unchanged.
pub open spec fn with_bit(b: u8, pos: u8, v: bool) -> u8 {
    if v {
        b | (1u8 << pos)
    } else {
        b & !(1u8 << pos)
    }
}

/// Setting a bit gives that bit the new value and leaves every other bit as it was.
pub proof fn lemma_with_bit(b: u8, pos: u8, v: bool)
    requires
        pos <= 7,
    ensures
        bit_of(with_bit(b, pos, v), pos) == v,
        forall|i: u8| i <= 7 && i != pos ==> bit_of(with_bit(b, pos, v), i) == bit_of(b, i),
{
    assert((b | (1u8 << pos)) & (1u8 << pos) != 0) by (bit_vector)
        requires
            pos <= 7,
    ;
    assert((b & !(1u8 << pos)) & (1u8 << pos) == 0) by (bit_vector)
        requires
            pos <= 7,
    ;
    assert forall|i: u8| i <= 7 && i != pos implies bit_of(with_bit(b, pos, v), i) == bit_of(b, i) by {
        assert(((b | (1u8 << pos)) & (1u8 << i) != 0) == (b & (1u8 << i) != 0)) by (bit_vector)
            requires
                pos <= 7,
                i <= 7,
                i != pos,
        ;
        assert(((b & !(1u8 << pos)) & (1u8 << i) != 0) == (b & (1u8 << i) != 0)) by (bit_vector)
            requires
                pos <= 7,
                i <= 7,
                i != pos,
        ;
    }
}

/// A single bit of a data block, kept with the byte that holds it.
#[derive(Debug)]
pub struct Bool {
    data_block: i32,
    offset: Offset,
    byte: u8,
    value: bool,
}

/// Whether `f` is the bit that `bytes` hold at `offset` of block `data_block`.
pub open spec fn bool_decodes(data_block: i32, offset: Offset, bytes: Seq<u8>, f: Bool) -> bool {
    &&& f.spec_data_block() == data_block
    &&& f.spec_offset() == offset
    &&& f.spec_bytes() == bytes
    &&& f.spec_value() == bit_of(bytes[0], offset.bit)
}

impl Bool {
    /// The number of the data block.
    pub closed spec fn spec_data_block(&self) -> i32 {
        self.data_block
    }

    /// The offset of the bit.
    pub closed spec fn spec_offset(&self) -> Offset {
        self.offset
    }

    /// The byte to write back.
    pub closed spec fn spec_bytes(&self) -> Seq<u8> {
        seq![self.byte]
    }

    /// The value of the bit.
    pub closed spec fn spec_value(&self) -> bool {
        self.value
    }

    /// The bit position is a position of a byte, and the value is that bit of the byte.
    pub closed spec fn wf(&self) -> bool {
        self.offset.bit <= 7 && self.value == bit_of(self.byte, self.offset.bit)
    }

    /// Decodes the bit at `offset` from the single byte that holds it.
    pub fn new(data_block: i32, offset: Offset, bytes: Vec<u8>) -> (r: Result<Bool, Error>)
        ensures
            bytes@.len() != 1 ==> (r matches Err(Error::TryFrom(b, _)) && b@ == bytes@),
            bytes@.len() == 1 && offset.bit > 7 ==> (r matches Err(Error::TryFrom(b, _)) && b@
                == bytes@),
            bytes@.len() == 1 && offset.bit <= 7 ==> (r matches Ok(f) && f.wf() && bool_decodes(
                data_block,
                offset,
                bytes@,
                f,
            )),
    {
        if bytes.len() != 1 {
            return Err(Error::TryFrom(bytes, "Bool.new: expected buf size 1".to_string()));
        }
        if offset.bit > 7 {
            return Err(Error::TryFrom(bytes, "Bool.new: max offset is 7".to_string()));
        }
        let byte = bytes[0];
        let r = Bool { data_block, offset, byte, value: byte & (1u8 << offset.bit) != 0 };
        assert(r.spec_bytes() =~= bytes@);
        Ok(r)
    }

    /// `b` with bit `bit_pos` set to `val`.
    fn set_value_at(b: u8, bit_pos: u8, val: bool) -> (r: u8)
        requires
            bit_pos <= 7,
        ensures
            r == with_bit(b, bit_pos, val),
    {
        if val {
            b | (1u8 << bit_pos)
        } else {
            b & !(1u8 << bit_pos)
        }
    }

    /// Size of the value in bytes.
    pub fn size() -> (r: i32)
        ensures
            r == 1,
    {
        1
    }

    /// The value of the bit.
    pub fn value(&self) -> (r: bool)
        ensures
            r == self.spec_value(),
    {
        self.value
    }

    /// Sets the bit, in the value and in the byte to write back.
    pub fn set_value(&mut self, v: bool)
        requires
            old(self).wf(),
        ensures
            final(self).wf(),
            final(self).spec_value() == v,
            final(self).spec_bytes() == seq![with_bit(old(self).spec_bytes()[0], old(self).spec_offset().bit, v)],
            bit_of(final(self).spec_bytes()[0], old(self).spec_offset().bit) == v,
            forall|i: u8|
                i <= 7 && i != old(self).spec_offset().bit ==> bit_of(final(self).spec_bytes()[0], i)
                    == bit_of(old(self).spec_bytes()[0], i),
            final(self).spec_offset() == old(self).spec_offset(),
            final(self).spec_data_block() == old(self).spec_data_block(),
    {
        proof {
            lemma_with_bit(self.byte, self.offset.bit, v);
        }
        self.value = v;
        self.byte = Bool::set_value_at(self.byte, self.offset.bit, v);
    }

    /// The number of the data block.
    pub fn data_block(&self) -> (r: i32)
        ensures
            r == self.spec_data_block(),
    {
        self.data_block
    }

    /// The byte offset in the data block.
    pub fn offset(&self) -> (r: i32)
        ensures
            r == self.spec_offset().byte,
    {
        self.offset.byte
    }

    /// The byte to write back.
    pub fn to_bytes(&self) -> (r: Vec<u8>)
        ensures
            r@ == self.spec_bytes(),
    {
        let r = vec![self.byte];
        assert(r@ =~= self.spec_bytes());
        r
    }
}

impl Field for Bool {
    fn data_block(&self) -> i32 {
        Bool::data_block(self)
    }

    fn offset(&self) -> i32 {
        Bool::offset(self)
    }

    fn to_bytes(&self) -> Vec<u8> {
        Bool::to_bytes(self)
    }
}

/// The bytes of a word, high byte first.
pub open spec fn word_bytes(v: u16) -> Seq<u8> {
    seq![hi_byte(v), lo_byte(v)]
}

/// An unsigned 16-bit word of a data block.
#[derive(Debug)]
pub struct Word {
    data_block: i32,
    offset: Offset,
    value: u16,
}

impl Word {
    /// The number of the data block.
    pub closed spec fn spec_data_block(&self) -> i32 {
        self.data_block
    }

    /// The offset of the word.
    pub closed spec fn spec_offset(&self) -> Offset {
        self.offset
    }

    /// The value of the word.
    pub closed spec fn spec_value(&self) -> u16 {
        self.value
    }

    /// Decodes the word at `offset` from its two bytes, high byte first; a word lies on
    /// whole bytes, so a bit position other than 0 is refused.
    pub fn new(data_block: i32, offset: Offset, bytes: Vec<u8>) -> (r: Result<Word, Error>)
        ensures
            bytes@.len() != 2 ==> (r matches Err(Error::TryFrom(b, _)) && b@ == bytes@),
            bytes@.len() == 2 && offset.bit != 0 ==> (r matches Err(Error::TryFrom(b, _)) && b@
                == bytes@),
            bytes@.len() == 2 && offset.bit == 0 ==> (r matches Ok(f) && f.spec_data_block()
                == data_block && f.spec_offset() == offset && f.spec_value() == be_u16(
                bytes@[0],
                bytes@[1],
            )),
    {
        if bytes.len() != 2 {
            return Err(Error::TryFrom(bytes, "Word.new: expected buf size 2".to_string()));
        }
        if offset.bit != 0 {
            return Err(Error::TryFrom(bytes, "Word.new: a word has no bit offset".to_string()));
        }
        let value = read_u16(bytes.as_slice(), 0);
        Ok(Word { data_block, offset, value })
    }

    /// Size of the value in bytes.
    pub fn size() -> (r: i32)
        ensures
            r == 2,
    {
        2
    }

    /// The value of the word.
    pub fn value(&self) -> (r: u16)
        ensures
            r == self.spec_value(),
    {
        self.value
    }

    /// Sets the value of the word.
    pub fn set_value(&mut self, v: u16)
        ensures
            final(self).spec_value() == v,
            final(self).spec_offset() == old(self).spec_offset(),
            final(self).spec_data_block() == old(self).spec_data_block(),
    {
        self.value = v;
    }

    /// The number of the data block.
    pub fn data_block(&self) -> (r: i32)
        ensures
            r == self.spec_data_block(),
    {
        self.data_block
    }

    /// The byte offset in the data block.
    pub fn offset(&self) -> (r: i32)
        ensures
            r == self.spec_offset().byte,
    {
        self.offset.byte
    }

    /// The two bytes to write back, high byte first.
    pub fn to_bytes(&self) -> (r: Vec<u8>)
        ensures
            r@ == word_bytes(self.spec_value()),
    {
        let mut r: Vec<u8> = vec![0u8, 0u8];
        write_u16(&mut r, 0, self.value);
        assert(r@ =~= word_bytes(self.value));
        r
    }
}

impl Field for Word {
    fn data_block(&self) -> i32 {
        Word::data_block(self)
    }

    fn offset(&self) -> i32 {
        Word::offset(self)
    }

    fn to_bytes(&self) -> Vec<u8> {
        Word::to_bytes(self)
    }
}

/// A bit decoded from its byte writes back that same byte as long as it is not set.
pub proof fn law_bool_bytes_kept(data_block: i32, offset: Offset, bytes: Seq<u8>, f: Bool)
    requires
        bool_decodes(data_block, offset, bytes, f),
    ensures
        f.spec_bytes() == bytes,
{
}

/// A word encodes to two bytes that decode to it again.
pub proof fn law_word_round_trip(v: u16)
    ensures
        word_bytes(v).len() == 2,
        be_u16(word_bytes(v)[0], word_bytes(v)[1]) == v,
{
}

} // verus!
