use mongo_odbc::{
    copy_message_narrow, copy_message_wide, to_narrow, to_wide, ConnectionState, EnvState,
    HandleTable, HandleType, ODBCError, SQLState, SqlReturn, NULL_HANDLE,
};

fn wide_to_string(units: &[u16]) -> String {
    String::from_utf16(units).unwrap()
}

fn record_count(table: &HandleTable, h: usize) -> usize {
    table.get(h).unwrap().errors().len()
}

#[test]
fn error_getters() {
    let e = ODBCError::Unimplemented("SQLDrivers".to_string());
    assert_eq!(SQLState::HYC00, e.get_sql_state());
    assert_eq!("HYC00", e.get_sql_state().as_str());
    assert_eq!(
        "[MongoDB][API] The feature SQLDrivers is not implemented",
        e.get_error_message()
    );
    assert_eq!(0, e.get_native_err_code());
}

#[test]
fn record_copy_out() {
    let e = ODBCError::Unimplemented("SQLDriv✐𑜲".to_string());
    let rec = e.get_diag_rec(37);
    assert_eq!(SqlReturn::SuccessWithInfo, rec.status);
    assert_eq!(35, rec.text_length);
    assert_eq!(36, rec.message.len());
    assert_eq!(
        "[MongoDB][API] The feature SQLDriv✐\0",
        wide_to_string(&rec.message)
    );
    assert_eq!("HYC00\0", wide_to_string(&rec.sql_state));
    let rec = e.get_diag_rec(57);
    assert_eq!(SqlReturn::Success, rec.status);
    assert_eq!(56, rec.text_length);
    let rec = e.get_diag_rec(0);
    assert_eq!(SqlReturn::SuccessWithInfo, rec.status);
    assert!(rec.message.is_empty());
    let e = ODBCError::Unimplemented("SQLDrivers".to_string());
    let rec = e.get_diag_rec_narrow(15);
    assert_eq!(SqlReturn::SuccessWithInfo, rec.status);
    assert_eq!(b"[MongoDB][API]\0".to_vec(), rec.message);
    assert_eq!(b"HYC00\0".to_vec(), rec.sql_state);
}

#[test]
fn wide_form_uses_surrogate_pairs() {
    assert_eq!(vec![0x41u16, 0x2710, 0xD805, 0xDF32], to_wide("A✐𑜲"));
    assert_eq!(Vec::<u16>::new(), to_wide(""));
    assert_eq!(vec![0x41u8, 0xE2, 0x9C, 0x90], to_narrow("A✐"));
}

#[test]
fn environment_defaults() {
    let mut table = HandleTable::new();
    let env = table.sql_alloc_handle(HandleType::Env, NULL_HANDLE).unwrap();
    let e = table.get(env).unwrap().as_env().unwrap();
    assert_eq!(3, e.attributes.odbc_ver);
    assert!(e.errors.is_empty());
    let conn = table.sql_alloc_handle(HandleType::Dbc, env).unwrap();
    let c = table.get(conn).unwrap().as_connection().unwrap();
    assert_eq!(env, c.env);
    assert!(c.attributes.current_db.is_none());
}

#[test]
fn parent_state_follows_children() {
    let mut table = HandleTable::new();
    let env = table.sql_alloc_handle(HandleType::Env, NULL_HANDLE).unwrap();
    let c1 = table.sql_alloc_handle(HandleType::Dbc, env).unwrap();
    let c2 = table.sql_alloc_handle(HandleType::Dbc, env).unwrap();
    let e = table.get(env).unwrap().as_env().unwrap();
    assert_eq!(2, e.connections.len());
    assert_eq!(EnvState::ConnectionAllocated, e.state);

    let s1 = table.sql_alloc_handle(HandleType::Stmt, c1).unwrap();
    let s2 = table.sql_alloc_handle(HandleType::Stmt, c1).unwrap();
    let c = table.get(c1).unwrap().as_connection().unwrap();
    assert_eq!(ConnectionState::StatementAllocated, c.state);
    assert_eq!(SqlReturn::Success, table.sql_free_handle(HandleType::Stmt, s1));
    let c = table.get(c1).unwrap().as_connection().unwrap();
    assert_eq!(ConnectionState::StatementAllocated, c.state);
    assert_eq!(1, c.statements.len());
    assert_eq!(SqlReturn::Success, table.sql_free_handle(HandleType::Stmt, s2));
    let c = table.get(c1).unwrap().as_connection().unwrap();
    assert_eq!(ConnectionState::Connected, c.state);
    assert!(c.statements.is_empty());

    assert_eq!(SqlReturn::Success, table.sql_free_handle(HandleType::Dbc, c1));
    let e = table.get(env).unwrap().as_env().unwrap();
    assert_eq!(EnvState::ConnectionAllocated, e.state);
    assert_eq!(1, e.connections.len());
    assert_eq!(SqlReturn::Success, table.sql_free_handle(HandleType::Dbc, c2));
    let e = table.get(env).unwrap().as_env().unwrap();
    assert_eq!(EnvState::Allocated, e.state);
    assert!(e.connections.is_empty());
}

#[test]
fn allocation_needs_parent_of_right_kind() {
    let mut table = HandleTable::new();
    let env = table.sql_alloc_handle(HandleType::Env, NULL_HANDLE).unwrap();
    let conn = table.sql_alloc_handle(HandleType::Dbc, env).unwrap();
    assert_eq!(
        Err(SqlReturn::InvalidHandle),
        table.sql_alloc_handle(HandleType::Dbc, conn)
    );
    assert_eq!(
        Err(SqlReturn::InvalidHandle),
        table.sql_alloc_handle(HandleType::Stmt, env)
    );
    assert_eq!(
        Err(SqlReturn::InvalidHandle),
        table.sql_alloc_handle(HandleType::Desc, env)
    );
    assert_eq!(
        Err(SqlReturn::InvalidHandle),
        table.sql_alloc_handle(HandleType::Dbc, 1000)
    );
    // An environment ignores its parent argument.
    assert!(table.sql_alloc_handle(HandleType::Env, conn).is_ok());
    let desc = table.sql_alloc_handle(HandleType::Desc, conn).unwrap();
    assert!(table.get(desc).unwrap().as_descriptor().is_some());
    // A descriptor is not entered among the connection's statements.
    let c = table.get(conn).unwrap().as_connection().unwrap();
    assert!(c.statements.is_empty());
    assert_eq!(ConnectionState::Allocated, c.state);
}

#[test]
fn free_with_wrong_kind_keeps_handle_linked() {
    let mut table = HandleTable::new();
    let env = table.sql_alloc_handle(HandleType::Env, NULL_HANDLE).unwrap();
    let conn = table.sql_alloc_handle(HandleType::Dbc, env).unwrap();
    assert_eq!(
        SqlReturn::InvalidHandle,
        table.sql_free_handle(HandleType::Stmt, conn)
    );
    assert_eq!(
        SqlReturn::InvalidHandle,
        table.sql_free_handle(HandleType::Desc, conn)
    );
    let e = table.get(env).unwrap().as_env().unwrap();
    assert_eq!(1, e.connections.len());
    assert_eq!(EnvState::ConnectionAllocated, e.state);
    assert!(table.get(conn).is_some());
}

#[test]
fn freed_handle_is_gone() {
    let mut table = HandleTable::new();
    let env = table.sql_alloc_handle(HandleType::Env, NULL_HANDLE).unwrap();
    assert_eq!(SqlReturn::Success, table.sql_free_handle(HandleType::Env, env));
    assert!(table.get(env).is_none());
    assert_eq!(
        SqlReturn::InvalidHandle,
        table.sql_free_handle(HandleType::Env, env)
    );
    assert_eq!(
        SqlReturn::InvalidHandle,
        table.sql_free_handle(HandleType::Env, NULL_HANDLE)
    );
    // A later handle never reuses the value of a freed one.
    let env2 = table.sql_alloc_handle(HandleType::Env, NULL_HANDLE).unwrap();
    assert_ne!(env, env2);
}

#[test]
fn free_connection_after_its_environment_fails() {
    let mut table = HandleTable::new();
    let env = table.sql_alloc_handle(HandleType::Env, NULL_HANDLE).unwrap();
    let conn = table.sql_alloc_handle(HandleType::Dbc, env).unwrap();
    let stmt = table.sql_alloc_handle(HandleType::Stmt, conn).unwrap();
    assert_eq!(SqlReturn::Success, table.sql_free_handle(HandleType::Env, env));
    assert_eq!(
        SqlReturn::InvalidHandle,
        table.sql_free_handle(HandleType::Dbc, conn)
    );
    assert!(table.get(conn).is_some());
    assert_eq!(SqlReturn::Success, table.sql_free_handle(HandleType::Stmt, stmt));
}

#[test]
fn records_in_append_order() {
    let mut table = HandleTable::new();
    let env = table.sql_alloc_handle(HandleType::Env, NULL_HANDLE).unwrap();
    assert!(table
        .add_diag_info(env, ODBCError::Unimplemented("SQLDrivers".to_string()))
        .is_ok());
    assert!(table
        .add_diag_info(env, ODBCError::Unimplemented("SQLTables".to_string()))
        .is_ok());
    let r1 = table.get_diag_rec_w(HandleType::Env, env, 1, 100);
    assert_eq!(SqlReturn::Success, r1.status);
    assert_eq!(
        "[MongoDB][API] The feature SQLDrivers is not implemented\0",
        wide_to_string(&r1.message)
    );
    let r2 = table.get_diag_rec_w(HandleType::Env, env, 2, 100);
    assert_eq!(SqlReturn::Success, r2.status);
    assert_eq!(
        "[MongoDB][API] The feature SQLTables is not implemented\0",
        wide_to_string(&r2.message)
    );
    assert_eq!(55, r2.text_length);
    let r3 = table.get_diag_rec_w(HandleType::Env, env, 3, 100);
    assert_eq!(SqlReturn::NoData, r3.status);
    assert!(r3.message.is_empty());
    assert!(r3.sql_state.is_empty());
}

#[test]
fn add_diag_info_needs_live_handle() {
    let mut table = HandleTable::new();
    assert!(table
        .add_diag_info(NULL_HANDLE, ODBCError::Unimplemented("SQLDrivers".to_string()))
        .is_err());
    assert!(table
        .add_diag_info(7, ODBCError::Unimplemented("SQLDrivers".to_string()))
        .is_err());
}

#[test]
fn truncated_message_keeps_room_for_terminator() {
    let mut table = HandleTable::new();
    let env = table.sql_alloc_handle(HandleType::Env, NULL_HANDLE).unwrap();
    assert!(table
        .add_diag_info(env, ODBCError::Unimplemented("SQLDrivers".to_string()))
        .is_ok());
    // 56 message units and the terminator: 57 in all.
    let rec = table.get_diag_rec_w(HandleType::Env, env, 1, 15);
    assert_eq!(SqlReturn::SuccessWithInfo, rec.status);
    assert_eq!(15, rec.message.len());
    assert_eq!("[MongoDB][API]\0", wide_to_string(&rec.message));
    assert_eq!(14, rec.text_length);
    // Exactly the message length: the terminator does not fit.
    let rec = table.get_diag_rec_w(HandleType::Env, env, 1, 56);
    assert_eq!(SqlReturn::SuccessWithInfo, rec.status);
    assert_eq!(55, rec.text_length);
    // One more unit: all of it fits.
    let rec = table.get_diag_rec_w(HandleType::Env, env, 1, 57);
    assert_eq!(SqlReturn::Success, rec.status);
    assert_eq!(56, rec.text_length);
    // No room at all.
    let rec = table.get_diag_rec_w(HandleType::Env, env, 1, 0);
    assert_eq!(SqlReturn::SuccessWithInfo, rec.status);
    assert!(rec.message.is_empty());
    assert_eq!(0, rec.text_length);
    assert_eq!("HYC00\0", wide_to_string(&rec.sql_state));
}

#[test]
fn surrogate_pair_is_never_split() {
    let mut table = HandleTable::new();
    let env = table.sql_alloc_handle(HandleType::Env, NULL_HANDLE).unwrap();
    assert!(table
        .add_diag_info(env, ODBCError::Unimplemented("SQLDriv✐𑜲".to_string()))
        .is_ok());
    // The pair stands at units 35 and 36; 36 units would end inside it.
    let rec = table.get_diag_rec_w(HandleType::Env, env, 1, 37);
    assert_eq!(SqlReturn::SuccessWithInfo, rec.status);
    assert_eq!(35, rec.text_length);
    assert_eq!(
        "[MongoDB][API] The feature SQLDriv✐\0",
        wide_to_string(&rec.message)
    );
    let rec = table.get_diag_rec_w(HandleType::Env, env, 1, 38);
    assert_eq!(37, rec.text_length);
    assert_eq!(
        "[MongoDB][API] The feature SQLDriv✐𑜲\0",
        wide_to_string(&rec.message)
    );
}

#[test]
fn copy_message_edges() {
    let units: Vec<u16> = vec![0x41, 0xD805, 0xDF32, 0x42];
    let c = copy_message_wide(&units, 3);
    assert_eq!(vec![0x41u16, 0], c.text);
    assert_eq!(1, c.text_length);
    assert_eq!(SqlReturn::SuccessWithInfo, c.status);
    let c = copy_message_wide(&units, 5);
    assert_eq!(vec![0x41u16, 0xD805, 0xDF32, 0x42, 0], c.text);
    assert_eq!(SqlReturn::Success, c.status);
    let empty: Vec<u16> = Vec::new();
    let c = copy_message_wide(&empty, 1);
    assert_eq!(vec![0u16], c.text);
    assert_eq!(SqlReturn::Success, c.status);
    let c = copy_message_wide(&empty, 0);
    assert!(c.text.is_empty());
    assert_eq!(SqlReturn::SuccessWithInfo, c.status);

    let bytes: Vec<u8> = b"abcdef".to_vec();
    let c = copy_message_narrow(&bytes, 4);
    assert_eq!(b"abc\0".to_vec(), c.text);
    assert_eq!(3, c.text_length);
    assert_eq!(SqlReturn::SuccessWithInfo, c.status);
    let c = copy_message_narrow(&bytes, 7);
    assert_eq!(b"abcdef\0".to_vec(), c.text);
    assert_eq!(SqlReturn::Success, c.status);
}

#[test]
fn narrow_diag_rec() {
    let mut table = HandleTable::new();
    let env = table.sql_alloc_handle(HandleType::Env, NULL_HANDLE).unwrap();
    assert!(table
        .add_diag_info(env, ODBCError::Unimplemented("SQLDrivers".to_string()))
        .is_ok());
    let rec = table.get_diag_rec(HandleType::Env, env, 1, 60);
    assert_eq!(SqlReturn::Success, rec.status);
    assert_eq!(b"HYC00\0".to_vec(), rec.sql_state);
    assert_eq!(
        b"[MongoDB][API] The feature SQLDrivers is not implemented\0".to_vec(),
        rec.message
    );
    assert_eq!(56, rec.text_length);
    let rec = table.get_diag_rec(HandleType::Env, env, 1, 15);
    assert_eq!(SqlReturn::SuccessWithInfo, rec.status);
    assert_eq!(b"[MongoDB][API]\0".to_vec(), rec.message);
    assert_eq!(14, rec.text_length);
    assert_eq!(
        SqlReturn::InvalidHandle,
        table.get_diag_rec(HandleType::Dbc, env, 1, 15).status
    );
    assert_eq!(SqlReturn::Error, table.get_diag_rec(HandleType::Env, env, 1, -1).status);
    assert_eq!(SqlReturn::NoData, table.get_diag_rec(HandleType::Env, env, 2, 15).status);
}

#[test]
fn scenario_environment_and_connection() {
    let mut table = HandleTable::new();
    let env = table.sql_alloc_handle(HandleType::Env, NULL_HANDLE).unwrap();
    let conn = table.sql_alloc_handle(HandleType::Dbc, env).unwrap();
    let e = table.get(env).unwrap().as_env().unwrap();
    assert_eq!(1, e.connections.len());
    assert_eq!(EnvState::ConnectionAllocated, e.state);
    assert_eq!(SqlReturn::Success, table.sql_free_handle(HandleType::Dbc, conn));
    let e = table.get(env).unwrap().as_env().unwrap();
    assert_eq!(0, e.connections.len());
    assert_eq!(EnvState::Allocated, e.state);
    assert_eq!(SqlReturn::Success, table.sql_free_handle(HandleType::Env, env));
}

#[test]
fn scenario_unimplemented_entry_point() {
    let mut table = HandleTable::new();
    let env = table.sql_alloc_handle(HandleType::Env, NULL_HANDLE).unwrap();
    let conn = table.sql_alloc_handle(HandleType::Dbc, env).unwrap();
    let stmt = table.sql_alloc_handle(HandleType::Stmt, conn).unwrap();
    assert_eq!(
        SqlReturn::Error,
        table.sql_unimplemented(HandleType::Stmt, stmt, "SQLExecDirect")
    );
    let rec = table.get_diag_rec_w(HandleType::Stmt, stmt, 1, 200);
    assert_eq!(SqlReturn::Success, rec.status);
    assert_eq!("HYC00\0", wide_to_string(&rec.sql_state));
    assert!(wide_to_string(&rec.message).contains("SQLExecDirect"));
    assert_eq!(0, rec.native_error);
    // The wrong kind of handle is refused and gets no record.
    assert_eq!(
        SqlReturn::InvalidHandle,
        table.sql_unimplemented(HandleType::Dbc, stmt, "SQLConnect")
    );
    assert_eq!(1, record_count(&table, stmt));
    assert_eq!(0, record_count(&table, conn));
}

#[test]
fn scenario_diag_rec_arguments() {
    let mut table = HandleTable::new();
    let env = table.sql_alloc_handle(HandleType::Env, NULL_HANDLE).unwrap();
    assert_eq!(
        SqlReturn::Error,
        table.sql_unimplemented(HandleType::Env, env, "SQLDrivers")
    );
    assert_eq!(SqlReturn::Error, table.get_diag_rec_w(HandleType::Env, env, 0, 10).status);
    assert_eq!(SqlReturn::Error, table.get_diag_rec_w(HandleType::Env, env, 1, -1).status);
    assert_eq!(SqlReturn::NoData, table.get_diag_rec_w(HandleType::Env, env, 2, 10).status);
    assert_eq!(
        SqlReturn::InvalidHandle,
        table.get_diag_rec_w(HandleType::Env, NULL_HANDLE, 1, 10).status
    );
}

#[test]
fn copy_desc_notes_both_descriptors() {
    let mut table = HandleTable::new();
    let env = table.sql_alloc_handle(HandleType::Env, NULL_HANDLE).unwrap();
    let conn = table.sql_alloc_handle(HandleType::Dbc, env).unwrap();
    let d1 = table.sql_alloc_handle(HandleType::Desc, conn).unwrap();
    let d2 = table.sql_alloc_handle(HandleType::Desc, conn).unwrap();
    assert_eq!(SqlReturn::Error, table.copy_desc(d1, d2));
    assert_eq!(1, record_count(&table, d1));
    assert_eq!(1, record_count(&table, d2));
    // A handle that is not a descriptor, on either side, changes nothing.
    assert_eq!(SqlReturn::InvalidHandle, table.copy_desc(conn, d2));
    assert_eq!(0, record_count(&table, conn));
    assert_eq!(1, record_count(&table, d2));
    assert_eq!(SqlReturn::InvalidHandle, table.copy_desc(d1, conn));
    assert_eq!(1, record_count(&table, d1));
    assert_eq!(0, record_count(&table, conn));
    // The same descriptor on both sides gets the notice twice.
    assert_eq!(SqlReturn::Error, table.copy_desc(d1, d1));
    assert_eq!(3, record_count(&table, d1));
    let rec = table.get_diag_rec_w(HandleType::Desc, d2, 1, 100);
    assert_eq!(
        "[MongoDB][API] The feature SQLCopyDesc is not implemented\0",
        wide_to_string(&rec.message)
    );
    assert_eq!(SqlReturn::Success, table.sql_free_handle(HandleType::Desc, d1));
    assert_eq!(
        SqlReturn::InvalidHandle,
        table.sql_free_handle(HandleType::Desc, conn)
    );
}
