use vstd::prelude::*;

verus! {

/// The kind of handle an entry point is asked to work on.
#[derive(Debug, Clone, Copy, PartialEq, Eq, Structural)]
pub enum HandleType {
    Env,
    Dbc,
    Stmt,
    Desc,
}

/// The status code that every entry point of the binding layer returns.
#[derive(Debug, Clone, Copy, PartialEq, Eq, Structural)]
pub enum SqlReturn {
    Success,
    SuccessWithInfo,
    Error,
    InvalidHandle,
    NoData,
}

} // verus!
