//! Fixed-width binary-table rows: column types, the values they hold, and
//! the schema that places columns within a row.
use vstd::prelude::*;
use crate::error::TileError;
use crate::pixel_transform::RawFloat;
use crate::read_big_endian::ReadBigEndian;

verus! {

/// A column type that reads a value from a fixed number of bytes of a row.
pub trait ReadColumn {
    type Value;

    /// The number of bytes the column occupies.
    spec fn width(&self) -> nat;

    /// The value held in `row` by the column placed at `offset`.
    spec fn spec_read(&self, row: Seq<u8>, offset: int) -> Self::Value;

    fn bytes(&self) -> (r: usize)
        ensures
            r == self.width(),
    ;

    fn read(&self, row: &[u8], offset: usize) -> (r: Self::Value)
        requires
            offset + self.width() <= row@.len(),
        ensures
            r == self.spec_read(row@, offset as int),
    ;
}

/// A location in the heap: `size` bytes starting `offset` bytes into it.
#[derive(Clone, Copy, Debug, PartialEq, Eq)]
pub struct Address {
    pub size: u64,
    pub offset: u64,
}

/// The width of a heap descriptor: two 32-bit (`P`) or two 64-bit (`Q`)
/// signed integers, size first.
#[derive(Clone, Copy, Debug, PartialEq, Eq)]
pub enum AddressType {
    I32,
    I64,
}

/// The address a descriptor with these signed fields denotes: an error for
/// a negative field, nothing for size zero.
pub open spec fn address_of(size: int, offset: int) -> Result<Option<Address>, TileError> {
    if size < 0 {
        Err(TileError::NegativeSize)
    } else if offset < 0 {
        Err(TileError::NegativeOffset)
    } else if size == 0 {
        Ok(None)
    } else {
        Ok(Some(Address { size: size as u64, offset: offset as u64 }))
    }
}

fn make_address(size: i64, offset: i64) -> (r: Result<Option<Address>, TileError>)
    ensures
        r == address_of(size as int, offset as int),
{
    if size < 0 {
        Err(TileError::NegativeSize)
    } else if offset < 0 {
        Err(TileError::NegativeOffset)
    } else if size == 0 {
        Ok(None)
    } else {
        Ok(Some(Address { size: size as u64, offset: offset as u64 }))
    }
}

impl AddressType {
    /// The letter of this descriptor width in a column's format code.
    pub fn type_code(&self) -> (r: char)
        ensures
            r == (match self {
                AddressType::I32 => 'P',
                AddressType::I64 => 'Q',
            }),
    {
        match self {
            AddressType::I32 => 'P',
            AddressType::I64 => 'Q',
        }
    }
}

impl ReadColumn for AddressType {
    type Value = Result<Option<Address>, TileError>;

    open spec fn width(&self) -> nat {
        match self {
            AddressType::I32 => 8,
            AddressType::I64 => 16,
        }
    }

    open spec fn spec_read(&self, row: Seq<u8>, offset: int) -> Result<Option<Address>, TileError> {
        match self {
            AddressType::I32 => address_of(
                <i32 as ReadBigEndian>::from_be(row.subrange(offset, offset + 4)) as int,
                <i32 as ReadBigEndian>::from_be(row.subrange(offset + 4, offset + 8)) as int,
            ),
            AddressType::I64 => address_of(
                <i64 as ReadBigEndian>::from_be(row.subrange(offset, offset + 8)) as int,
                <i64 as ReadBigEndian>::from_be(row.subrange(offset + 8, offset + 16)) as int,
            ),
        }
    }

    fn bytes(&self) -> (r: usize) {
        match self {
            AddressType::I32 => 8,
            AddressType::I64 => 16,
        }
    }

    fn read(&self, row: &[u8], offset: usize) -> (r: Result<Option<Address>, TileError>) {
        let _row_len = row.len();
        match self {
            AddressType::I32 => {
                let size = i32::read_big_endian(row, offset);
                let start = i32::read_big_endian(row, offset + 4);
                make_address(size as i64, start as i64)
            },
            AddressType::I64 => {
                let size = i64::read_big_endian(row, offset);
                let start = i64::read_big_endian(row, offset + 8);
                make_address(size, start)
            },
        }
    }
}

/// The stored width of an integer column, or of quantized pixels.
#[derive(Clone, Copy, Debug, PartialEq, Eq)]
pub enum IntegerType {
    U8,
    I16,
    I32,
    I64,
}

impl ReadColumn for IntegerType {
    type Value = i64;

    open spec fn width(&self) -> nat {
        match self {
            IntegerType::U8 => 1,
            IntegerType::I16 => 2,
            IntegerType::I32 => 4,
            IntegerType::I64 => 8,
        }
    }

    open spec fn spec_read(&self, row: Seq<u8>, offset: int) -> i64 {
        match self {
            IntegerType::U8 => row[offset] as i64,
            IntegerType::I16 => <i16 as ReadBigEndian>::from_be(row.subrange(offset, offset + 2)) as i64,
            IntegerType::I32 => <i32 as ReadBigEndian>::from_be(row.subrange(offset, offset + 4)) as i64,
            IntegerType::I64 => <i64 as ReadBigEndian>::from_be(row.subrange(offset, offset + 8)),
        }
    }

    fn bytes(&self) -> (r: usize) {
        match self {
            IntegerType::U8 => 1,
            IntegerType::I16 => 2,
            IntegerType::I32 => 4,
            IntegerType::I64 => 8,
        }
    }

    fn read(&self, row: &[u8], offset: usize) -> (r: i64) {
        match self {
            IntegerType::U8 => row[offset] as i64,
            IntegerType::I16 => i16::read_big_endian(row, offset) as i64,
            IntegerType::I32 => i32::read_big_endian(row, offset) as i64,
            IntegerType::I64 => i64::read_big_endian(row, offset),
        }
    }
}

/// The width of a floating-point column.
#[derive(Clone, Copy, Debug, PartialEq, Eq)]
pub enum FloatType {
    F32,
    F64,
}

impl FloatType {
    /// The letter of this width in a column's format code.
    pub fn type_code(&self) -> (r: char)
        ensures
            r == (match self {
                FloatType::F32 => 'E',
                FloatType::F64 => 'F',
            }),
    {
        match self {
            FloatType::F32 => 'E',
            FloatType::F64 => 'F',
        }
    }
}

impl ReadColumn for FloatType {
    type Value = RawFloat;

    open spec fn width(&self) -> nat {
        match self {
            FloatType::F32 => 4,
            FloatType::F64 => 8,
        }
    }

    open spec fn spec_read(&self, row: Seq<u8>, offset: int) -> RawFloat {
        match self {
            FloatType::F32 => RawFloat::F32(<u32 as ReadBigEndian>::from_be(row.subrange(offset, offset + 4))),
            FloatType::F64 => RawFloat::F64(<u64 as ReadBigEndian>::from_be(row.subrange(offset, offset + 8))),
        }
    }

    fn bytes(&self) -> (r: usize) {
        match self {
            FloatType::F32 => 4,
            FloatType::F64 => 8,
        }
    }

    fn read(&self, row: &[u8], offset: usize) -> (r: RawFloat) {
        match self {
            FloatType::F32 => RawFloat::F32(u32::read_big_endian(row, offset)),
            FloatType::F64 => RawFloat::F64(u64::read_big_endian(row, offset)),
        }
    }
}

/// A column type placed at a byte offset within the row.
#[derive(Clone, Copy, Debug, PartialEq, Eq)]
pub struct OffsetColumn<T> {
    pub type_: T,
    pub offset: usize,
}

impl<T: ReadColumn> OffsetColumn<T> {
    /// Places `type_` at the running offset `*offset` and advances the
    /// running offset past it.
    pub fn new(type_: T, offset: &mut usize) -> (r: Self)
        requires
            *old(offset) + type_.width() <= usize::MAX,
        ensures
            r.type_ == type_,
            r.offset == *old(offset),
            *final(offset) == *old(offset) + type_.width(),
    {
        let width = type_.bytes();
        let r = OffsetColumn { type_, offset: *offset };
        *offset = *offset + width;
        r
    }

    pub fn bytes(&self) -> (r: usize)
        ensures
            r == self.type_.width(),
    {
        self.type_.bytes()
    }

    /// The column's value in `row`.
    pub fn read(&self, row: &[u8]) -> (r: T::Value)
        requires
            self.offset + self.type_.width() <= row@.len(),
        ensures
            r == self.type_.spec_read(row@, self.offset as int),
    {
        self.type_.read(row, self.offset)
    }
}

} // verus!
