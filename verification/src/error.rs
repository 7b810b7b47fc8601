//! The ways in which a row can fail to become an entry.
use vstd::prelude::*;
use vstd::std_specs::convert::FromSpecImpl;

verus! {

/// The error of the `csv` crate, carried through as an opaque value.
#[verifier::external_type_specification]
#[verifier::external_body]
pub struct ExCsvError(csv::Error);

/// Why a row was turned down. Each validation rule has a kind of its own;
/// `CsvError` stands for a row that could not be read in the first place.
#[derive(Clone, Copy, Debug, PartialEq, Eq, Structural)]
pub enum ErrorKind {
    MissingId,
    MissingFnsku,
    MissingPackType,
    MissingUnits,
    MissingPackedDimensions,
    MissingPackedWeight,
    NonDivisibleCaseQt,
    MissingCaseQt,
    InvalidPackType,
    MissingGroup,
    MissingUnitWeight,
    CsvError,
}

impl ErrorKind {
    /// The sentence that describes the error.
    pub open spec fn spec_message(&self) -> Seq<char> {
        match self {
            ErrorKind::MissingId => "Row is missing an Id"@,
            ErrorKind::MissingFnsku => "Row is missing an Fnsku"@,
            ErrorKind::MissingPackType => "Row is missing the PackType"@,
            ErrorKind::MissingUnits => "Row is missing the unit quantity"@,
            ErrorKind::MissingPackedDimensions => "Row is declared as packed with dimensions missing"@,
            ErrorKind::MissingPackedWeight => "Row is declared as packed with weight missing"@,
            ErrorKind::NonDivisibleCaseQt => "Row is declared as packed with Units that are not evenly \n        divisible by the CaseQt"@,
            ErrorKind::MissingCaseQt => "Row is declared as packed with CaseQt missing"@,
            ErrorKind::InvalidPackType => "A PackType is included, but cannot be recognized"@,
            ErrorKind::MissingGroup => "Row is declared as Loose with StagingGroup missing"@,
            ErrorKind::MissingUnitWeight => "Row is declared as Loose with UnitWeight missing"@,
            ErrorKind::CsvError => "Unable to deserialized StringRecord"@,
        }
    }

    /// The sentence that describes the error, as an owned string.
    pub fn message(&self) -> (r: String)
        ensures
            r@ == self.spec_message(),
    {
        let text: &str = match self {
            ErrorKind::MissingId => "Row is missing an Id",
            ErrorKind::MissingFnsku => "Row is missing an Fnsku",
            ErrorKind::MissingPackType => "Row is missing the PackType",
            ErrorKind::MissingUnits => "Row is missing the unit quantity",
            ErrorKind::MissingPackedDimensions => "Row is declared as packed with dimensions missing",
            ErrorKind::MissingPackedWeight => "Row is declared as packed with weight missing",
            ErrorKind::NonDivisibleCaseQt => "Row is declared as packed with Units that are not evenly \n        divisible by the CaseQt",
            ErrorKind::MissingCaseQt => "Row is declared as packed with CaseQt missing",
            ErrorKind::InvalidPackType => "A PackType is included, but cannot be recognized",
            ErrorKind::MissingGroup => "Row is declared as Loose with StagingGroup missing",
            ErrorKind::MissingUnitWeight => "Row is declared as Loose with UnitWeight missing",
            ErrorKind::CsvError => "Unable to deserialized StringRecord",
        };
        text.to_owned()
    }
}

impl From<csv::Error> for ErrorKind {
    /// Whatever went wrong while a row was read, the row's outcome is
    /// `CsvError`.
    fn from(_value: csv::Error) -> (r: Self) {
        ErrorKind::CsvError
    }
}

impl FromSpecImpl<csv::Error> for ErrorKind {
    open spec fn obeys_from_spec() -> bool {
        true
    }

    open spec fn from_spec(_value: csv::Error) -> Self {
        ErrorKind::CsvError
    }
}

} // verus!
