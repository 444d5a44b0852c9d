//! The errors of CQL operations.
use vstd::prelude::*;

use crate::text::{texts, u64_text};
use crate::value::{Value, ValueKind, ValueView};
use super::column::{ColumnType, ColumnTypeView};
use super::cql_value::{cql_models, CqlValue, CqlValueView};

verus! {

/// An error of a CQL operation.
#[derive(Debug, PartialEq)]
pub struct CassError(pub CassErrorKind);

/// A statement together with the values that it was bound to.
#[derive(Debug, PartialEq)]
pub struct QueryInfo {
    pub cql: String,
    pub params: Vec<CqlValue>,
}

/// What a value could not be converted to.
#[derive(Debug, PartialEq)]
pub enum ConversionTarget {
    /// The name of a type.
    Named(String),
    /// The type of a column.
    Column(ColumnType),
}

/// What went wrong.
#[derive(Debug, PartialEq)]
pub enum CassErrorKind {
    /// No connection to any of the addresses could be made, and why.
    FailedToConnect(Vec<String>, String),
    /// No statement was prepared under the key.
    PreparedStatementNotFound(String),
    QueryRetriesExceeded(String),
    /// A value cannot be converted to what it is bound to, and why.
    QueryParamConversion(Value, ConversionTarget, Option<String>),
    /// A number does not fit into a type.
    ValueOutOfRange(String, String),
    InvalidNumberOfQueryParams,
    /// Parameters cannot be passed in a value of this type.
    InvalidQueryParamsObject(ValueKind),
    /// The statement could not be prepared, and why.
    Prepare(String, String),
    /// The statement could not be executed, and why.
    QueryExecution(QueryInfo, String),
    /// The number of rows is checked for `select` statements only.
    QueryResponseValidationNotApplicable(QueryInfo),
    /// The number of rows is not the expected one.
    QueryResponseValidation {
        query: QueryInfo,
        rows_min: u64,
        rows_max: u64,
        rows_cnt: u64,
        message: String,
    },
    CustomError(String),
    Error(String),
}

/// What a [`QueryInfo`] stands for.
pub struct QueryInfoView {
    pub cql: Seq<char>,
    pub params: Seq<CqlValueView>,
}

/// What a [`ConversionTarget`] stands for.
pub enum ConversionTargetView {
    Named(Seq<char>),
    Column(ColumnTypeView),
}

/// What a [`CassError`] stands for.
pub enum CassErrorView {
    FailedToConnect(Seq<Seq<char>>, Seq<char>),
    PreparedStatementNotFound(Seq<char>),
    QueryRetriesExceeded(Seq<char>),
    QueryParamConversion(ValueView, ConversionTargetView, Option<Seq<char>>),
    ValueOutOfRange(Seq<char>, Seq<char>),
    InvalidNumberOfQueryParams,
    InvalidQueryParamsObject(ValueKind),
    Prepare(Seq<char>, Seq<char>),
    QueryExecution(QueryInfoView, Seq<char>),
    QueryResponseValidationNotApplicable(QueryInfoView),
    QueryResponseValidation {
        query: QueryInfoView,
        rows_min: u64,
        rows_max: u64,
        rows_cnt: u64,
        message: Seq<char>,
    },
    CustomError(Seq<char>),
    Error(Seq<char>),
}

impl View for QueryInfo {
    type V = QueryInfoView;

    open spec fn view(&self) -> QueryInfoView {
        QueryInfoView { cql: self.cql@, params: cql_models(self.params@) }
    }
}

impl View for ConversionTarget {
    type V = ConversionTargetView;

    open spec fn view(&self) -> ConversionTargetView {
        match self {
            ConversionTarget::Named(s) => ConversionTargetView::Named(s@),
            ConversionTarget::Column(t) => ConversionTargetView::Column(t@),
        }
    }
}

/// The text of a string that may be missing.
pub open spec fn option_text(s: Option<String>) -> Option<Seq<char>> {
    match s {
        Some(s) => Some(s@),
        None => None,
    }
}

impl View for CassError {
    type V = CassErrorView;

    open spec fn view(&self) -> CassErrorView {
        match self.0 {
            CassErrorKind::FailedToConnect(addresses, reason) => CassErrorView::FailedToConnect(
                texts(addresses@),
                reason@,
            ),
            CassErrorKind::PreparedStatementNotFound(
                key,
            ) => CassErrorView::PreparedStatementNotFound(key@),
            CassErrorKind::QueryRetriesExceeded(s) => CassErrorView::QueryRetriesExceeded(s@),
            CassErrorKind::QueryParamConversion(
                value,
                target,
                reason,
            ) => CassErrorView::QueryParamConversion(value@, target@, option_text(reason)),
            CassErrorKind::ValueOutOfRange(value, typ) => CassErrorView::ValueOutOfRange(
                value@,
                typ@,
            ),
            CassErrorKind::InvalidNumberOfQueryParams => CassErrorView::InvalidNumberOfQueryParams,
            CassErrorKind::InvalidQueryParamsObject(
                kind,
            ) => CassErrorView::InvalidQueryParamsObject(kind),
            CassErrorKind::Prepare(cql, reason) => CassErrorView::Prepare(cql@, reason@),
            CassErrorKind::QueryExecution(query, reason) => CassErrorView::QueryExecution(
                query@,
                reason@,
            ),
            CassErrorKind::QueryResponseValidationNotApplicable(
                query,
            ) => CassErrorView::QueryResponseValidationNotApplicable(query@),
            CassErrorKind::QueryResponseValidation {
                query,
                rows_min,
                rows_max,
                rows_cnt,
                message,
            } => CassErrorView::QueryResponseValidation {
                query: query@,
                rows_min,
                rows_max,
                rows_cnt,
                message: message@,
            },
            CassErrorKind::CustomError(s) => CassErrorView::CustomError(s@),
            CassErrorKind::Error(s) => CassErrorView::Error(s@),
        }
    }
}

/// What is said when all attempts were used up.
pub open spec fn retries_exceeded_text(retry_number: u64) -> Seq<char> {
    "Max retry attempts ("@ + crate::text::nat_text(retry_number as nat) + ") reached"@
}

/// Says that all attempts were used up.
pub fn retries_exceeded_message(retry_number: u64) -> (r: String)
    ensures
        r@ == retries_exceeded_text(retry_number),
{
    "Max retry attempts (".to_owned().concat(u64_text(retry_number).as_str()).concat(") reached")
}

impl CassError {
    /// An error that is only a message.
    pub fn error(message: &str) -> (r: CassError)
        ensures
            r@ == CassErrorView::Error(message@),
    {
        CassError(CassErrorKind::Error(message.to_owned()))
    }

    /// The statement could not be prepared.
    pub fn prepare_error(cql: &str, reason: String) -> (r: CassError)
        ensures
            r@ == CassErrorView::Prepare(cql@, reason@),
    {
        CassError(CassErrorKind::Prepare(cql.to_owned(), reason))
    }

    /// The statement could not be executed.
    pub fn query_execution_error(cql: &str, params: &Vec<CqlValue>, reason: String) -> (r: CassError)
        ensures
            r@ == CassErrorView::QueryExecution(
                (QueryInfoView { cql: cql@, params: cql_models(params@) }),
                reason@,
            ),
    {
        let query = QueryInfo { cql: cql.to_owned(), params: CqlValue::duplicate_all(params) };
        CassError(CassErrorKind::QueryExecution(query, reason))
    }

    /// The number of rows was to be checked for a statement that is no `select`.
    pub fn query_response_validation_not_applicable_error(
        cql: &str,
        params: &Vec<CqlValue>,
    ) -> (r: CassError)
        ensures
            r@ == CassErrorView::QueryResponseValidationNotApplicable(
                (QueryInfoView { cql: cql@, params: cql_models(params@) }),
            ),
    {
        let query = QueryInfo { cql: cql.to_owned(), params: CqlValue::duplicate_all(params) };
        CassError(CassErrorKind::QueryResponseValidationNotApplicable(query))
    }

    /// The number of rows is not the expected one.
    pub fn query_validation_error(
        cql: &str,
        params: &Vec<CqlValue>,
        rows_min: u64,
        rows_max: u64,
        rows_cnt: u64,
        message: String,
    ) -> (r: CassError)
        ensures
            r@ == (CassErrorView::QueryResponseValidation {
                query: (QueryInfoView { cql: cql@, params: cql_models(params@) }),
                rows_min,
                rows_max,
                rows_cnt,
                message: message@,
            }),
    {
        let query = QueryInfo { cql: cql.to_owned(), params: CqlValue::duplicate_all(params) };
        CassError(
            CassErrorKind::QueryResponseValidation { query, rows_min, rows_max, rows_cnt, message },
        )
    }

    /// All attempts were used up.
    pub fn query_retries_exceeded(retry_number: u64) -> (r: CassError)
        ensures
            r@ == CassErrorView::QueryRetriesExceeded(retries_exceeded_text(retry_number)),
    {
        CassError(CassErrorKind::QueryRetriesExceeded(retries_exceeded_message(retry_number)))
    }
}

/// Where all attempts were used up, it is told how many there were.
pub proof fn used_up_attempts_are_told(retry_number: u64)
    ensures
        retries_exceeded_text(retry_number) == "Max retry attempts ("@ + crate::text::nat_text(
            retry_number as nat,
        ) + ") reached"@,
{
}

} // verus!
