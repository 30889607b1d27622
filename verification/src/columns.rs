//! The columns of a batch as they arrive from a data frame, and the encoder's
//! entry point over them.

use vstd::prelude::*;
use crate::layout::{layout_of, MAX_BOUND};
use crate::variant_id::{batch_ids, local_compute};

verus! {

/// A column of a data frame, by the kind of its values.
#[derive(Debug, PartialEq, Eq)]
pub enum Column {
    /// Unsigned 64-bit integers, each of which may be absent.
    UInt64(Vec<Option<u64>>),
    /// Strings, each of which may be absent.
    Utf8(Vec<Option<String>>),
    /// A column of any other kind.
    Other,
}

/// Why a batch was refused before any record was read.
#[derive(Clone, Copy, Debug, PartialEq, Eq, Structural)]
pub enum ComputeError {
    /// The column at this index does not hold unsigned 64-bit integers.
    NotUInt64(usize),
    /// The column at this index does not hold strings.
    NotUtf8(usize),
}

impl Column {
    /// The values of an integer column; nothing for another kind.
    pub open spec fn integers(&self) -> Option<Seq<Option<u64>>> {
        match self {
            Column::UInt64(values) => Some(values@),
            _ => None,
        }
    }

    /// The values of a string column; nothing for another kind.
    pub open spec fn strings(&self) -> Option<Seq<Option<String>>> {
        match self {
            Column::Utf8(values) => Some(values@),
            _ => None,
        }
    }
}

/// The first column whose kind is not the one expected, if there is one:
/// positions, references, alternates, then the column that carries the bound.
pub open spec fn kind_error(inputs: Seq<Column>) -> Option<ComputeError> {
    if inputs[0].integers().is_none() {
        Some(ComputeError::NotUInt64(0))
    } else if inputs[1].strings().is_none() {
        Some(ComputeError::NotUtf8(1))
    } else if inputs[2].strings().is_none() {
        Some(ComputeError::NotUtf8(2))
    } else if inputs[3].integers().is_none() {
        Some(ComputeError::NotUInt64(3))
    } else {
        None
    }
}

/// The bound of the batch: the first value of the fourth column.
pub open spec fn batch_bound(inputs: Seq<Column>) -> Option<u64> {
    match inputs[3].integers() {
        Some(values) => if values.len() > 0 {
            values[0]
        } else {
            None
        },
        None => None,
    }
}

/// What the encoder returns for four columns: the first kind error, or the
/// identifiers of the batch under the layout of its bound.
pub open spec fn compute_spec(inputs: Seq<Column>) -> Result<Seq<Option<u64>>, ComputeError> {
    match kind_error(inputs) {
        Some(error) => Err(error),
        None => Ok(
            batch_ids(
                layout_of(batch_bound(inputs).unwrap()),
                inputs[0].integers().unwrap(),
                inputs[1].strings().unwrap(),
                inputs[2].strings().unwrap(),
            ),
        ),
    }
}

/// Encodes a batch given as four columns: positions, references, alternates,
/// and a column whose first value is the largest position of the batch.
///
/// Columns of the wrong kind are refused, the first of them named. Where the
/// kinds are right the bound must be present and leave bit 63 free.
pub fn compute(inputs: &[Column]) -> (result: Result<Vec<Option<u64>>, ComputeError>)
    requires
        inputs@.len() >= 4,
        kind_error(inputs@).is_none() ==> batch_bound(inputs@).is_some() && batch_bound(
            inputs@,
        ).unwrap() <= MAX_BOUND,
    ensures
        match result {
            Ok(ids) => compute_spec(inputs@) == Ok::<Seq<Option<u64>>, ComputeError>(ids@),
            Err(error) => compute_spec(inputs@) == Err::<Seq<Option<u64>>, ComputeError>(error),
        },
{
    match &inputs[0] {
        Column::UInt64(real_pos) => match &inputs[1] {
            Column::Utf8(ref_seq) => match &inputs[2] {
                Column::Utf8(alt_seq) => match &inputs[3] {
                    Column::UInt64(bound) => {
                        let max_pos: u64 = bound[0].unwrap();
                        Ok(local_compute(real_pos, ref_seq, alt_seq, max_pos))
                    },
                    _ => Err(ComputeError::NotUInt64(3)),
                },
                _ => Err(ComputeError::NotUtf8(2)),
            },
            _ => Err(ComputeError::NotUtf8(1)),
        },
        _ => Err(ComputeError::NotUInt64(0)),
    }
}

} // verus!
