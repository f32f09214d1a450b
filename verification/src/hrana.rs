//! The messages of the Hrana protocol that carry no statement, the errors of
//! a batch and of a statement, and the shape that a statement has to have.

use vstd::prelude::*;

verus! {

/// A request to open a stream.
#[derive(Debug, Clone, Copy, PartialEq, Eq, Structural)]
pub struct OpenStreamReq {
    pub stream_id: i32,
}

/// The answer to a request to open a stream.
#[derive(Debug, Clone, Copy, PartialEq, Eq, Structural)]
pub struct OpenStreamResp {}

/// A request to close a stream.
#[derive(Debug, Clone, Copy, PartialEq, Eq, Structural)]
pub struct CloseStreamReq {
    pub stream_id: i32,
}

/// The answer to a request to close a stream.
#[derive(Debug, Clone, Copy, PartialEq, Eq, Structural)]
pub struct CloseStreamResp {}

/// A column of a result.
#[derive(Debug)]
pub struct Col {
    pub name: Option<String>,
}

/// Why a batch could not be run.
#[derive(Debug, Clone, Copy, PartialEq, Eq, Structural)]
pub enum BatchError {
    /// The transaction of the batch timed out.
    TransactionTimeout,
    /// The server cannot handle more transactions.
    TransactionBusy,
}

/// The code under which a batch error is reported.
pub open spec fn spec_batch_error_code(e: BatchError) -> Seq<char> {
    match e {
        BatchError::TransactionTimeout => "TRANSACTION_TIMEOUT"@,
        BatchError::TransactionBusy => "TRANSACTION_BUSY"@,
    }
}

impl BatchError {
    /// The code under which this error is reported to the client.
    pub fn code(&self) -> (code: &'static str)
        ensures
            code@ == spec_batch_error_code(*self),
    {
        match self {
            BatchError::TransactionTimeout => "TRANSACTION_TIMEOUT",
            BatchError::TransactionBusy => "TRANSACTION_BUSY",
        }
    }

    /// What this error says, in words.
    pub fn message(&self) -> (text: &'static str)
        ensures
            text@ == match *self {
                BatchError::TransactionTimeout => "Transaction timed out"@,
                BatchError::TransactionBusy => "Server cannot handle additional transactions"@,
            },
    {
        match self {
            BatchError::TransactionTimeout => "Transaction timed out",
            BatchError::TransactionBusy => "Server cannot handle additional transactions",
        }
    }
}

/// Why a statement of a request is not run, as far as the request itself
/// tells.
#[derive(Debug, Clone, Copy, PartialEq, Eq, Structural)]
pub enum StmtError {
    /// The SQL text holds no statement.
    SqlNoStmt,
    /// The SQL text holds more than one statement.
    SqlManyStmts,
    /// The request gives both positional and named arguments.
    ArgsBothPositionalAndNamed,
    /// The transaction timed out.
    TransactionTimeout,
    /// The server cannot handle more transactions.
    TransactionBusy,
}

/// How the arguments of a statement are given.
#[derive(Debug, Clone, Copy, PartialEq, Eq, Structural)]
pub enum ParamsKind {
    /// By their position.
    Positional,
    /// By their name.
    Named,
}

/// The code under which a statement error is reported.
pub open spec fn spec_stmt_error_code(e: StmtError) -> Seq<char> {
    match e {
        StmtError::SqlNoStmt => "SQL_NO_STATEMENT"@,
        StmtError::SqlManyStmts => "SQL_MANY_STATEMENTS"@,
        StmtError::ArgsBothPositionalAndNamed => "ARGS_BOTH_POSITIONAL_AND_NAMED"@,
        StmtError::TransactionTimeout => "TRANSACTION_TIMEOUT"@,
        StmtError::TransactionBusy => "TRANSACTION_BUSY"@,
    }
}

/// What the shape of a statement of a request comes to: the SQL text has to
/// hold exactly one statement, and the arguments are given by position or by
/// name, not both. The number of statements is looked at first. Without any
/// argument the arguments count as positional.
pub open spec fn spec_stmt_shape(n_statements: usize, n_args: usize, n_named_args: usize) -> Result<
    ParamsKind,
    StmtError,
> {
    if n_statements == 0 {
        Err(StmtError::SqlNoStmt)
    } else if n_statements > 1 {
        Err(StmtError::SqlManyStmts)
    } else if n_named_args == 0 {
        Ok(ParamsKind::Positional)
    } else if n_args == 0 {
        Ok(ParamsKind::Named)
    } else {
        Err(StmtError::ArgsBothPositionalAndNamed)
    }
}

/// Decides whether a statement of a request can be made into a query, given
/// how many statements its SQL text holds and how many positional and named
/// arguments come with it, and how its arguments are bound.
pub fn stmt_shape(n_statements: usize, n_args: usize, n_named_args: usize) -> (shape: Result<
    ParamsKind,
    StmtError,
>)
    ensures
        shape == spec_stmt_shape(n_statements, n_args, n_named_args),
{
    if n_statements == 0 {
        Err(StmtError::SqlNoStmt)
    } else if n_statements > 1 {
        Err(StmtError::SqlManyStmts)
    } else if n_named_args == 0 {
        Ok(ParamsKind::Positional)
    } else if n_args == 0 {
        Ok(ParamsKind::Named)
    } else {
        Err(StmtError::ArgsBothPositionalAndNamed)
    }
}

impl StmtError {
    /// The code under which this error is reported to the client.
    pub fn code(&self) -> (code: &'static str)
        ensures
            code@ == spec_stmt_error_code(*self),
    {
        match self {
            StmtError::SqlNoStmt => "SQL_NO_STATEMENT",
            StmtError::SqlManyStmts => "SQL_MANY_STATEMENTS",
            StmtError::ArgsBothPositionalAndNamed => "ARGS_BOTH_POSITIONAL_AND_NAMED",
            StmtError::TransactionTimeout => "TRANSACTION_TIMEOUT",
            StmtError::TransactionBusy => "TRANSACTION_BUSY",
        }
    }
}

} // verus!
