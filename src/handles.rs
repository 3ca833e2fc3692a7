use std::collections::HashSet;
use vstd::prelude::*;

use crate::codes::HandleType;
use crate::diagnostics::ODBCError;

verus! {

/// An opaque handle value: an index into a `HandleTable`.
pub type Handle = usize;

/// The handle value that names no handle.
pub const NULL_HANDLE: Handle = 0;

/// A handle of one of the four kinds, with its contents.
#[derive(Debug)]
pub enum MongoHandle {
    Env(Env),
    Connection(Connection),
    Statement(Statement),
    Descriptor(Descriptor),
}

impl MongoHandle {
    /// The diagnostic records of the handle, oldest first.
    pub open spec fn records(&self) -> Seq<ODBCError> {
        match self {
            MongoHandle::Env(e) => e.errors@,
            MongoHandle::Connection(c) => c.errors@,
            MongoHandle::Statement(s) => s.errors@,
            MongoHandle::Descriptor(d) => d.errors@,
        }
    }

    /// The handle is of the kind `handle_type` names.
    pub open spec fn has_type(&self, handle_type: HandleType) -> bool {
        match handle_type {
            HandleType::Env => self is Env,
            HandleType::Dbc => self is Connection,
            HandleType::Stmt => self is Statement,
            HandleType::Desc => self is Descriptor,
        }
    }

    /// `self` and `other` are of one kind and differ in their diagnostic
    /// records at most.
    pub open spec fn same_but_records(&self, other: &MongoHandle) -> bool {
        match (self, other) {
            (MongoHandle::Env(a), MongoHandle::Env(b)) => {
                &&& a.attributes == b.attributes
                &&& a.state == b.state
                &&& a.connections@ == b.connections@
            },
            (MongoHandle::Connection(a), MongoHandle::Connection(b)) => {
                &&& a.env == b.env
                &&& a.attributes == b.attributes
                &&& a.state == b.state
                &&& a.statements@ == b.statements@
            },
            (MongoHandle::Statement(a), MongoHandle::Statement(b)) => {
                &&& a.connection == b.connection
                &&& a.attributes == b.attributes
                &&& a.state == b.state
            },
            (MongoHandle::Descriptor(_), MongoHandle::Descriptor(_)) => true,
            _ => false,
        }
    }

    pub fn as_env(&self) -> (r: Option<&Env>)
        ensures
            (self is Env) <==> r is Some,
            self is Env ==> r->0 == self->Env_0,
    {
        match self {
            MongoHandle::Env(e) => Some(e),
            _ => None,
        }
    }

    pub fn as_connection(&self) -> (r: Option<&Connection>)
        ensures
            (self is Connection) <==> r is Some,
            self is Connection ==> r->0 == self->Connection_0,
    {
        match self {
            MongoHandle::Connection(c) => Some(c),
            _ => None,
        }
    }

    pub fn as_statement(&self) -> (r: Option<&Statement>)
        ensures
            (self is Statement) <==> r is Some,
            self is Statement ==> r->0 == self->Statement_0,
    {
        match self {
            MongoHandle::Statement(s) => Some(s),
            _ => None,
        }
    }

    pub fn as_descriptor(&self) -> (r: Option<&Descriptor>)
        ensures
            (self is Descriptor) <==> r is Some,
            self is Descriptor ==> r->0 == self->Descriptor_0,
    {
        match self {
            MongoHandle::Descriptor(d) => Some(d),
            _ => None,
        }
    }

    /// Whether the handle is of the kind `handle_type` names.
    pub fn is_type(&self, handle_type: HandleType) -> (r: bool)
        ensures
            r == self.has_type(handle_type),
    {
        match handle_type {
            HandleType::Env => self.as_env().is_some(),
            HandleType::Dbc => self.as_connection().is_some(),
            HandleType::Stmt => self.as_statement().is_some(),
            HandleType::Desc => self.as_descriptor().is_some(),
        }
    }

    /// Appends a diagnostic record to the handle.
    pub fn add_diag_info(&mut self, error: ODBCError)
        ensures
            final(self).records() == old(self).records().push(error),
            final(self).same_but_records(old(self)),
    {
        match self {
            MongoHandle::Env(e) => e.errors.push(error),
            MongoHandle::Connection(c) => c.errors.push(error),
            MongoHandle::Statement(s) => s.errors.push(error),
            MongoHandle::Descriptor(d) => d.errors.push(error),
        }
    }

    /// The diagnostic records of the handle, oldest first.
    pub fn errors(&self) -> (r: &Vec<ODBCError>)
        ensures
            r@ == self.records(),
    {
        match self {
            MongoHandle::Env(e) => &e.errors,
            MongoHandle::Connection(c) => &c.errors,
            MongoHandle::Statement(s) => &s.errors,
            MongoHandle::Descriptor(d) => &d.errors,
        }
    }
}

#[derive(Debug)]
pub struct Env {
    pub attributes: EnvAttributes,
    pub state: EnvState,
    /// The connections allocated from this environment.
    pub connections: HashSet<Handle>,
    pub errors: Vec<ODBCError>,
}

impl Env {
    pub fn with_state(state: EnvState) -> (r: Self)
        ensures
            r.attributes.odbc_ver == 3,
            r.state == state,
            r.connections@ == Set::<Handle>::empty(),
            r.errors@ == Seq::<ODBCError>::empty(),
    {
        Env {
            attributes: EnvAttributes::default(),
            state,
            connections: HashSet::new(),
            errors: Vec::new(),
        }
    }
}

#[derive(Debug, Clone, Copy, PartialEq, Eq, Structural)]
pub struct EnvAttributes {
    pub odbc_ver: i32,
}

impl Default for EnvAttributes {
    fn default() -> (r: Self)
        ensures
            r.odbc_ver == 3,
    {
        EnvAttributes { odbc_ver: 3 }
    }
}

#[derive(Debug, Clone, Copy, PartialEq, Eq, Structural)]
pub enum EnvState {
    Allocated,
    ConnectionAllocated,
}

#[derive(Debug)]
pub struct Connection {
    /// The environment this connection was allocated from.
    pub env: Handle,
    pub attributes: ConnectionAttributes,
    pub state: ConnectionState,
    /// The statements allocated from this connection.
    pub statements: HashSet<Handle>,
    pub errors: Vec<ODBCError>,
}

impl Connection {
    pub fn with_state(env: Handle, state: ConnectionState) -> (r: Self)
        ensures
            r.env == env,
            r.attributes.current_db is None,
            r.state == state,
            r.statements@ == Set::<Handle>::empty(),
            r.errors@ == Seq::<ODBCError>::empty(),
    {
        Connection {
            env,
            attributes: ConnectionAttributes::default(),
            state,
            statements: HashSet::new(),
            errors: Vec::new(),
        }
    }
}

#[derive(Debug)]
pub struct ConnectionAttributes {
    /// The database that statements of the connection run against.
    pub current_db: Option<String>,
}

impl Default for ConnectionAttributes {
    fn default() -> (r: Self)
        ensures
            r.current_db is None,
    {
        ConnectionAttributes { current_db: None }
    }
}

#[derive(Debug, Clone, Copy, PartialEq, Eq, Structural)]
pub enum ConnectionState {
    Allocated,
    ConnectionFunctionNeedsDataEnv,
    Connected,
    StatementAllocated,
    TransactionInProgress,
}

#[derive(Debug)]
pub struct Statement {
    /// The connection this statement was allocated from.
    pub connection: Handle,
    pub attributes: StatementAttributes,
    pub state: StatementState,
    pub errors: Vec<ODBCError>,
}

impl Statement {
    pub fn with_state(connection: Handle, state: StatementState) -> (r: Self)
        ensures
            r.connection == connection,
            r.state == state,
            r.errors@ == Seq::<ODBCError>::empty(),
    {
        Statement {
            connection,
            attributes: StatementAttributes::default(),
            state,
            errors: Vec::new(),
        }
    }
}

#[derive(Debug, Clone, Copy, PartialEq, Eq, Structural)]
pub struct StatementAttributes {}

impl Default for StatementAttributes {
    fn default() -> (r: Self) {
        StatementAttributes {  }
    }
}

#[derive(Debug, Clone, Copy, PartialEq, Eq, Structural)]
pub enum StatementState {
    Allocated,
    Prepared,
    PreparedHasResultSet,
    ExecutedNoResultSet,
    ExecutedHasResultSet,
    CursorFetchSet,
    CursorExtendedFetchSet,
    FunctionNeedsDataNoParam,
    FunctionNeedsDataNoPut,
    FunctionNeedsDataPutCalled,
    Executing,
    AsyncCancelled,
}

#[derive(Debug)]
pub struct Descriptor {
    pub errors: Vec<ODBCError>,
}

impl Default for Descriptor {
    fn default() -> (r: Self)
        ensures
            r.errors@ == Seq::<ODBCError>::empty(),
    {
        Descriptor { errors: Vec::new() }
    }
}

} // verus!
