//! Handle management and diagnostics for an ODBC driver over a document
//! database: an arena of environment, connection, statement and descriptor
//! handles with their ownership links, and the per-handle diagnostic records
//! together with the rules for copying them into caller buffers.

pub mod codes;
pub mod diagnostics;
pub mod handles;
pub mod table;

pub use codes::{HandleType, SqlReturn};
pub use diagnostics::{
    copy_message_narrow, copy_message_wide, to_narrow, to_wide, DiagRec, MessageCopy, ODBCError,
    SQLState, VENDOR_IDENTIFIER,
};
pub use handles::{
    Connection, ConnectionAttributes, ConnectionState, Descriptor, Env, EnvAttributes, EnvState,
    Handle, MongoHandle, Statement, StatementAttributes, StatementState, NULL_HANDLE,
};
pub use table::HandleTable;
