//! The errors of Alternator operations.
use vstd::prelude::*;

use crate::cql::cass_error::{retries_exceeded_message, retries_exceeded_text};
use crate::value::{Value, ValueView};

verus! {

/// An error of an Alternator operation.
#[derive(Debug, PartialEq)]
pub struct AlternatorError(pub AlternatorErrorKind);

/// What went wrong.
#[derive(Debug, PartialEq)]
pub enum AlternatorErrorKind {
    /// No connection to the address could be made, and why.
    FailedToConnect(String, String),
    QueryRetriesExceeded(String),
    Overloaded(String),
    PartitionRowPresetNotFound(String),
    /// A value cannot be converted.
    ConversionError(ConversionProblem),
    CustomError(String),
    Error(String),
}

/// Why a value cannot be converted.
#[derive(Debug, PartialEq)]
pub enum ConversionProblem {
    /// A set of this key holds an element of another type.
    InvalidSetElement { key: String, item: Value },
    /// A set of this key is no vector.
    ExpectedVector { key: String },
    /// There is no attribute for such a value.
    UnsupportedValue(Value),
    /// The text denotes no number.
    InvalidNumber(String),
    /// There is no value for such an attribute, of this description.
    UnsupportedAttribute(String),
}

/// What an [`AlternatorError`] stands for.
pub enum AlternatorErrorView {
    FailedToConnect(Seq<char>, Seq<char>),
    QueryRetriesExceeded(Seq<char>),
    Overloaded(Seq<char>),
    PartitionRowPresetNotFound(Seq<char>),
    InvalidSetElement { key: Seq<char>, item: ValueView },
    ExpectedVector { key: Seq<char> },
    UnsupportedValue(ValueView),
    InvalidNumber(Seq<char>),
    UnsupportedAttribute(Seq<char>),
    CustomError(Seq<char>),
    Error(Seq<char>),
}

impl View for AlternatorError {
    type V = AlternatorErrorView;

    open spec fn view(&self) -> AlternatorErrorView {
        match self.0 {
            AlternatorErrorKind::FailedToConnect(
                addr,
                e,
            ) => AlternatorErrorView::FailedToConnect(addr@, e@),
            AlternatorErrorKind::QueryRetriesExceeded(
                s,
            ) => AlternatorErrorView::QueryRetriesExceeded(s@),
            AlternatorErrorKind::Overloaded(s) => AlternatorErrorView::Overloaded(s@),
            AlternatorErrorKind::PartitionRowPresetNotFound(
                s,
            ) => AlternatorErrorView::PartitionRowPresetNotFound(s@),
            AlternatorErrorKind::ConversionError(
                ConversionProblem::InvalidSetElement { key, item },
            ) => AlternatorErrorView::InvalidSetElement { key: key@, item: item@ },
            AlternatorErrorKind::ConversionError(
                ConversionProblem::ExpectedVector { key },
            ) => AlternatorErrorView::ExpectedVector { key: key@ },
            AlternatorErrorKind::ConversionError(
                ConversionProblem::UnsupportedValue(value),
            ) => AlternatorErrorView::UnsupportedValue(value@),
            AlternatorErrorKind::ConversionError(
                ConversionProblem::InvalidNumber(s),
            ) => AlternatorErrorView::InvalidNumber(s@),
            AlternatorErrorKind::ConversionError(
                ConversionProblem::UnsupportedAttribute(s),
            ) => AlternatorErrorView::UnsupportedAttribute(s@),
            AlternatorErrorKind::CustomError(s) => AlternatorErrorView::CustomError(s@),
            AlternatorErrorKind::Error(s) => AlternatorErrorView::Error(s@),
        }
    }
}

impl AlternatorErrorView {
    /// The text of the error, up to the description of a value that cannot be converted, which
    /// comes last.
    pub open spec fn text(self) -> Seq<char> {
        match self {
            AlternatorErrorView::FailedToConnect(addr, e) => "Failed to connect to Alternator at "@
                + addr + ": "@ + e,
            AlternatorErrorView::QueryRetriesExceeded(s) => "QueryRetriesExceeded: "@ + s,
            AlternatorErrorView::Overloaded(s) => "Overloaded: "@ + s,
            AlternatorErrorView::PartitionRowPresetNotFound(
                s,
            ) => "Partition row preset not found: "@ + s,
            AlternatorErrorView::InvalidSetElement {
                key,
                item,
            } => "Invalid element type found in set "@ + key + ": "@,
            AlternatorErrorView::ExpectedVector { key } => "Expected a vector of elements for "@
                + key,
            AlternatorErrorView::UnsupportedValue(_) => "Unsupported Rune Value type for: "@,
            AlternatorErrorView::InvalidNumber(s) => "Invalid number format: "@ + s,
            AlternatorErrorView::UnsupportedAttribute(
                s,
            ) => "Unsupported Alternator AttributeValue type: "@ + s,
            AlternatorErrorView::CustomError(s) => s,
            AlternatorErrorView::Error(s) => s,
        }
    }
}

impl AlternatorError {
    pub fn new(kind: AlternatorErrorKind) -> (r: AlternatorError)
        ensures
            r.0 == kind,
    {
        AlternatorError(kind)
    }

    /// All attempts were used up.
    pub fn query_retries_exceeded(retry_number: u64) -> (r: AlternatorError)
        ensures
            r@ == AlternatorErrorView::QueryRetriesExceeded(retries_exceeded_text(retry_number)),
    {
        AlternatorError(
            AlternatorErrorKind::QueryRetriesExceeded(retries_exceeded_message(retry_number)),
        )
    }

    /// No connection to the first of the addresses could be made.
    pub fn failed_to_connect(addresses: &Vec<String>, reason: String) -> (r: AlternatorError)
        ensures
            r@ == AlternatorErrorView::FailedToConnect(
                if addresses@.len() > 0 {
                    addresses@[0]@
                } else {
                    Seq::empty()
                },
                reason@,
            ),
    {
        let address = if addresses.len() > 0 {
            addresses[0].clone()
        } else {
            String::new()
        };
        AlternatorError(AlternatorErrorKind::FailedToConnect(address, reason))
    }

    /// Tells what went wrong, up to the description of a value that cannot be converted.
    pub fn string_display(&self) -> (r: String)
        ensures
            r@ == self@.text(),
    {
        match &self.0 {
            AlternatorErrorKind::FailedToConnect(addr, e) => "Failed to connect to Alternator at "
                .to_owned().concat(addr.as_str()).concat(": ").concat(e.as_str()),
            AlternatorErrorKind::QueryRetriesExceeded(s) => "QueryRetriesExceeded: ".to_owned()
                .concat(s.as_str()),
            AlternatorErrorKind::Overloaded(s) => "Overloaded: ".to_owned().concat(s.as_str()),
            AlternatorErrorKind::PartitionRowPresetNotFound(
                s,
            ) => "Partition row preset not found: ".to_owned().concat(s.as_str()),
            AlternatorErrorKind::ConversionError(problem) => match problem {
                ConversionProblem::InvalidSetElement {
                    key,
                    ..
                } => "Invalid element type found in set ".to_owned().concat(key.as_str()).concat(
                    ": ",
                ),
                ConversionProblem::ExpectedVector {
                    key,
                } => "Expected a vector of elements for ".to_owned().concat(key.as_str()),
                ConversionProblem::UnsupportedValue(
                    _,
                ) => "Unsupported Rune Value type for: ".to_owned(),
                ConversionProblem::InvalidNumber(s) => "Invalid number format: ".to_owned().concat(
                    s.as_str(),
                ),
                ConversionProblem::UnsupportedAttribute(
                    s,
                ) => "Unsupported Alternator AttributeValue type: ".to_owned().concat(s.as_str()),
            },
            AlternatorErrorKind::CustomError(s) => s.clone(),
            AlternatorErrorKind::Error(s) => s.clone(),
        }
    }
}

/// The text of an error ends with what it is about, behind what went wrong.
pub proof fn errors_tell_what_they_are_about(about: Seq<char>, reason: Seq<char>, value: ValueView)
    ensures
        AlternatorErrorView::FailedToConnect(about, reason).text()
            == "Failed to connect to Alternator at "@ + about + ": "@ + reason,
        AlternatorErrorView::QueryRetriesExceeded(about).text() == "QueryRetriesExceeded: "@
            + about,
        AlternatorErrorView::Overloaded(about).text() == "Overloaded: "@ + about,
        AlternatorErrorView::PartitionRowPresetNotFound(about).text()
            == "Partition row preset not found: "@ + about,
        (AlternatorErrorView::InvalidSetElement { key: about, item: value }).text()
            == "Invalid element type found in set "@ + about + ": "@,
        (AlternatorErrorView::ExpectedVector { key: about }).text()
            == "Expected a vector of elements for "@ + about,
        AlternatorErrorView::UnsupportedValue(value).text() == "Unsupported Rune Value type for: "@,
        AlternatorErrorView::InvalidNumber(about).text() == "Invalid number format: "@ + about,
        AlternatorErrorView::UnsupportedAttribute(about).text()
            == "Unsupported Alternator AttributeValue type: "@ + about,
        AlternatorErrorView::CustomError(about).text() == about,
        AlternatorErrorView::Error(about).text() == about,
{
}

} // verus!
