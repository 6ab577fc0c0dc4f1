//! The ordered columns of a compressed-image table row.
use vstd::prelude::*;
use crate::bintable::{Address, AddressType, FloatType, IntegerType, OffsetColumn, ReadColumn};
use crate::error::TileError;
use crate::pixel_transform::RawFloat;

verus! {

/// The role of a column in a compressed-image table, with its on-disk type.
#[derive(Clone, Copy, Debug, PartialEq, Eq)]
pub enum Column {
    /// COMPRESSED_DATA: the payload compressed with the image's algorithm;
    /// `stored` is the width of the integers that quantized pixels are stored as.
    CompressedData { pointer: AddressType, stored: IntegerType },
    /// GZIP_COMPRESSED_DATA: a payload compressed with GZIP_1.
    GzipCompressedData(AddressType),
    /// UNCOMPRESSED_DATA: a payload stored without compression.
    UncompressedData(AddressType),
    /// ZSCALE: the row's quantization scale.
    ZScale(FloatType),
    /// ZZERO: the row's quantization zero point.
    ZZero(FloatType),
    /// ZBLANK: the row's blank sentinel.
    ZBlank(IntegerType),
    /// Any other column, of the given width in bytes.
    Other(usize),
}

/// What a column holds in one row.
#[derive(Clone, Copy, Debug, PartialEq, Eq)]
pub enum ColumnValue {
    Data(Result<Option<Address>, TileError>),
    Float(RawFloat),
    Integer(i64),
    Ignored,
}

impl ReadColumn for Column {
    type Value = ColumnValue;

    open spec fn width(&self) -> nat {
        match self {
            Column::CompressedData { pointer, .. } => pointer.width(),
            Column::GzipCompressedData(p) => p.width(),
            Column::UncompressedData(p) => p.width(),
            Column::ZScale(f) => f.width(),
            Column::ZZero(f) => f.width(),
            Column::ZBlank(i) => i.width(),
            Column::Other(w) => *w as nat,
        }
    }

    open spec fn spec_read(&self, row: Seq<u8>, offset: int) -> ColumnValue {
        match self {
            Column::CompressedData { pointer, .. } => ColumnValue::Data(pointer.spec_read(row, offset)),
            Column::GzipCompressedData(p) => ColumnValue::Data(p.spec_read(row, offset)),
            Column::UncompressedData(p) => ColumnValue::Data(p.spec_read(row, offset)),
            Column::ZScale(f) => ColumnValue::Float(f.spec_read(row, offset)),
            Column::ZZero(f) => ColumnValue::Float(f.spec_read(row, offset)),
            Column::ZBlank(i) => ColumnValue::Integer(i.spec_read(row, offset)),
            Column::Other(_) => ColumnValue::Ignored,
        }
    }

    fn bytes(&self) -> (r: usize) {
        match self {
            Column::CompressedData { pointer, .. } => pointer.bytes(),
            Column::GzipCompressedData(p) => p.bytes(),
            Column::UncompressedData(p) => p.bytes(),
            Column::ZScale(f) => f.bytes(),
            Column::ZZero(f) => f.bytes(),
            Column::ZBlank(i) => i.bytes(),
            Column::Other(w) => *w,
        }
    }

    fn read(&self, row: &[u8], offset: usize) -> (r: ColumnValue) {
        match self {
            Column::CompressedData { pointer, .. } => ColumnValue::Data(pointer.read(row, offset)),
            Column::GzipCompressedData(p) => ColumnValue::Data(p.read(row, offset)),
            Column::UncompressedData(p) => ColumnValue::Data(p.read(row, offset)),
            Column::ZScale(f) => ColumnValue::Float(f.read(row, offset)),
            Column::ZZero(f) => ColumnValue::Float(f.read(row, offset)),
            Column::ZBlank(i) => ColumnValue::Integer(i.read(row, offset)),
            Column::Other(_) => ColumnValue::Ignored,
        }
    }
}

/// The total width of a sequence of placed columns.
pub open spec fn columns_width(cols: Seq<OffsetColumn<Column>>) -> nat
    decreases cols.len(),
{
    if cols.len() == 0 {
        0
    } else {
        columns_width(cols.drop_last()) + cols.last().type_.width()
    }
}

/// The columns of a row in declaration order, each at the sum of the widths
/// of those before it.
#[derive(Clone, Debug)]
pub struct Schema {
    pub columns: Vec<OffsetColumn<Column>>,
    pub bytes_per_row: usize,
}

impl Schema {
    /// Each column starts where the ones before it end, and the row is as
    /// long as all of them.
    pub open spec fn wf(&self) -> bool {
        &&& forall|i: int|
            0 <= i < self.columns@.len() ==> (#[trigger] self.columns@[i]).offset == columns_width(
                self.columns@.take(i),
            )
        &&& self.bytes_per_row == columns_width(self.columns@)
    }

    /// A schema with no columns.
    pub fn new() -> (r: Schema)
        ensures
            r.wf(),
            r.columns@.len() == 0,
            r.bytes_per_row == 0,
    {
        Schema { columns: Vec::new(), bytes_per_row: 0 }
    }

    /// Appends `column` at the end of the row.
    pub fn push(&mut self, column: Column)
        requires
            old(self).wf(),
            old(self).bytes_per_row + column.width() <= usize::MAX,
        ensures
            final(self).wf(),
            final(self).columns@ == old(self).columns@.push(
                OffsetColumn { type_: column, offset: old(self).bytes_per_row },
            ),
            final(self).bytes_per_row == old(self).bytes_per_row + column.width(),
    {
        let ghost before = self.columns@;
        let mut offset = self.bytes_per_row;
        let placed = OffsetColumn::new(column, &mut offset);
        self.columns.push(placed);
        self.bytes_per_row = offset;
        proof {
            let after = self.columns@;
            assert(after.drop_last() =~= before);
            assert forall|i: int| 0 <= i < after.len() implies (#[trigger] after[i]).offset
                == columns_width(after.take(i)) by {
                if i < before.len() {
                    assert(after.take(i) =~= before.take(i));
                } else {
                    assert(after.take(i) =~= before);
                }
            }
        }
    }

    /// The width of a row.
    pub fn bytes_per_row(&self) -> (r: usize)
        ensures
            r == self.bytes_per_row,
    {
        self.bytes_per_row
    }

    /// Every column of a well-formed schema lies within the row.
    pub proof fn lemma_columns_within_row(&self)
        requires
            self.wf(),
        ensures
            forall|i: int|
                0 <= i < self.columns@.len() ==> #[trigger] self.columns@[i].offset
                    + self.columns@[i].type_.width() <= self.bytes_per_row,
    {
        let cols = self.columns@;
        assert forall|i: int| 0 <= i < cols.len() implies #[trigger] cols[i].offset
            + cols[i].type_.width() <= self.bytes_per_row by {
            assert(cols.take(i + 1).drop_last() =~= cols.take(i));
            lemma_prefix_width(cols, i + 1);
        }
    }
}

/// A prefix of the columns is no wider than all of them.
proof fn lemma_prefix_width(cols: Seq<OffsetColumn<Column>>, k: int)
    requires
        0 <= k <= cols.len(),
    ensures
        columns_width(cols.take(k)) <= columns_width(cols),
    decreases cols.len(),
{
    if k < cols.len() {
        let front = cols.drop_last();
        assert(cols.take(k) =~= front.take(k));
        lemma_prefix_width(front, k);
    } else {
        assert(cols.take(k) =~= cols);
    }
}

} // verus!
