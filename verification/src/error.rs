//! Why a document cannot be decoded.

use vstd::prelude::*;

verus! {

/// The lookup tables that a document refers to by index.
#[derive(Clone, Copy, Debug, PartialEq, Eq, Structural)]
pub enum Table {
    /// The styles of cells.
    CellStyle,
    /// The styles of conditional formatting rules.
    DifferentialStyle,
    /// The shared strings.
    SharedString,
}

/// What is wrong with an event.
#[derive(Clone, Copy, Debug, PartialEq, Eq, Structural)]
pub enum Fault {
    /// The document ends inside a block that is still open.
    UnexpectedEnd,
    /// An element lacks an attribute that it must carry.
    MissingAttribute,
    /// A value cannot be read as what it must be.
    UnparsableValue,
    /// An index points past the end of its table.
    IndexOutOfRange { table: Table, index: usize },
    /// A color stands where no threshold comes before it.
    UnpairedColor,
    /// The markup itself could not be read.
    InvalidMarkup,
}

/// A fault, and the position in the stream of the event that has it.
#[derive(Clone, Copy, Debug, PartialEq, Eq, Structural)]
pub struct XlsxError {
    pub fault: Fault,
    pub position: usize,
}

/// An error at the event at `position`.
pub open spec fn fault_at(fault: Fault, position: int) -> XlsxError {
    XlsxError { fault, position: position as usize }
}

/// What a value of the library stands for, or the fault that came in its
/// place.
pub open spec fn deep_result<T: DeepView>(result: Result<T, Fault>) -> Result<T::V, Fault> {
    match result {
        Ok(value) => Ok(value.deep_view()),
        Err(fault) => Err(fault),
    }
}

/// What reading a run of events hands back, as plain values: what was
/// read and the position after it, or the error.
pub open spec fn deep_parsed<T: DeepView>(parsed: Result<(T, usize), XlsxError>) -> Result<
    (T::V, int),
    XlsxError,
> {
    match parsed {
        Ok((value, next)) => Ok((value.deep_view(), next as int)),
        Err(error) => Err(error),
    }
}

} // verus!
