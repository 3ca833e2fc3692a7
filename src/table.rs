use vstd::prelude::*;
use vstd::string::StringExecFns;

use crate::codes::{HandleType, SqlReturn};
use crate::diagnostics::{
    copied_text, copy_status, narrow_copy_len, splits_pair, utf16_encode, wide_copy_len, DiagRec,
    ODBCError,
};
use crate::handles::{
    Connection, ConnectionState, Descriptor, Env, EnvState, Handle, MongoHandle, Statement,
    StatementState, NULL_HANDLE,
};
use vstd::utf8::encode_utf8;

verus! {

broadcast use vstd::std_specs::hash::group_hash_axioms;

/// `e` is the notice that the entry point `name` is not implemented.
pub open spec fn notes_unimplemented(e: ODBCError, name: Seq<char>) -> bool {
    match e {
        ODBCError::Unimplemented(n) => n@ == name,
    }
}

/// All live handles, each under the index that callers hold as its handle
/// value. Index 0 stands for the null handle and holds nothing; the slot of
/// a freed handle stays empty, so a stale handle value never names a later
/// handle.
#[derive(Debug)]
pub struct HandleTable {
    handles: Vec<Option<MongoHandle>>,
}

impl View for HandleTable {
    type V = Seq<Option<MongoHandle>>;

    closed spec fn view(&self) -> Seq<Option<MongoHandle>> {
        self.handles@
    }
}

impl HandleTable {
    /// The handle stored under `h`, if any.
    pub open spec fn handle(&self, h: Handle) -> Option<MongoHandle> {
        if h < self@.len() {
            self@[h as int]
        } else {
            None
        }
    }

    /// `h` names a live handle of the kind `t`.
    pub open spec fn has_type(&self, h: Handle, t: HandleType) -> bool {
        self.handle(h) is Some && self.handle(h)->0.has_type(t)
    }

    pub open spec fn env(&self, h: Handle) -> Env {
        self.handle(h)->0->Env_0
    }

    pub open spec fn connection(&self, h: Handle) -> Connection {
        self.handle(h)->0->Connection_0
    }

    pub open spec fn statement(&self, h: Handle) -> Statement {
        self.handle(h)->0->Statement_0
    }

    /// The diagnostic records of the handle `h`, oldest first.
    pub open spec fn records(&self, h: Handle) -> Seq<ODBCError> {
        if self.handle(h) is Some {
            self.handle(h)->0.records()
        } else {
            Seq::empty()
        }
    }

    /// The parent/child bookkeeping of the handle `h` is consistent: a
    /// parent's state tells whether it has children, and each child it lists
    /// is a live handle of the right kind that names it as parent.
    pub open spec fn handle_wf(&self, h: Handle) -> bool {
        &&& self.has_type(h, HandleType::Env) ==> {
            &&& (self.env(h).state == EnvState::ConnectionAllocated
                <==> !self.env(h).connections@.is_empty())
            &&& forall|c: Handle| #[trigger]
                self.env(h).connections@.contains(c) ==> self.has_type(c, HandleType::Dbc)
                    && self.connection(c).env == h
        }
        &&& self.has_type(h, HandleType::Dbc) ==> {
            &&& (self.connection(h).state == ConnectionState::StatementAllocated
                <==> !self.connection(h).statements@.is_empty())
            &&& forall|s: Handle| #[trigger]
                self.connection(h).statements@.contains(s) ==> self.has_type(s, HandleType::Stmt)
                    && self.statement(s).connection == h
        }
    }

    pub open spec fn wf(&self) -> bool {
        &&& self@.len() > 0
        &&& self@[0] is None
        &&& forall|h: Handle| #[trigger] self.handle_wf(h)
    }

    /// Every slot other than those in `changed` is as in `other`.
    pub open spec fn same_except(&self, other: &HandleTable, changed: Set<Handle>) -> bool {
        forall|x: Handle| !changed.contains(x) ==> #[trigger] self.handle(x) == other.handle(x)
    }

    /// `h` holds a fresh environment: no connections and no records.
    pub open spec fn is_fresh_env(&self, h: Handle) -> bool {
        &&& self.has_type(h, HandleType::Env)
        &&& self.env(h).state == EnvState::Allocated
        &&& self.env(h).connections@.is_empty()
        &&& self.records(h).len() == 0
    }

    /// `h` holds a fresh connection of the environment `parent`.
    pub open spec fn is_fresh_connection(&self, h: Handle, parent: Handle) -> bool {
        &&& self.has_type(h, HandleType::Dbc)
        &&& self.connection(h).env == parent
        &&& self.connection(h).state == ConnectionState::Allocated
        &&& self.connection(h).statements@.is_empty()
        &&& self.records(h).len() == 0
    }

    /// `h` holds a fresh statement of the connection `parent`.
    pub open spec fn is_fresh_statement(&self, h: Handle, parent: Handle) -> bool {
        &&& self.has_type(h, HandleType::Stmt)
        &&& self.statement(h).connection == parent
        &&& self.statement(h).state == StatementState::Allocated
        &&& self.records(h).len() == 0
    }

    /// `h` holds a fresh descriptor.
    pub open spec fn is_fresh_descriptor(&self, h: Handle) -> bool {
        &&& self.has_type(h, HandleType::Desc)
        &&& self.records(h).len() == 0
    }

    /// The kind of parent that a handle of kind `t` is allocated from, if it
    /// needs one.
    pub open spec fn parent_type(t: HandleType) -> Option<HandleType> {
        match t {
            HandleType::Env => None,
            HandleType::Dbc => Some(HandleType::Env),
            HandleType::Stmt => Some(HandleType::Dbc),
            HandleType::Desc => Some(HandleType::Dbc),
        }
    }

    /// A handle of kind `t` can be allocated from `input`: it needs no parent,
    /// or `input` is a live handle of the parent kind.
    pub open spec fn can_allocate(&self, t: HandleType, input: Handle) -> bool {
        match Self::parent_type(t) {
            None => true,
            Some(p) => self.has_type(input, p),
        }
    }

    /// What freeing `h` as a handle of kind `t` needs: `h` is of that kind
    /// and, for a connection or statement, its parent is still live.
    pub open spec fn can_free(&self, t: HandleType, h: Handle) -> bool {
        &&& self.has_type(h, t)
        &&& t == HandleType::Dbc ==> self.has_type(self.connection(h).env, HandleType::Env)
        &&& t == HandleType::Stmt ==> self.has_type(
            self.statement(h).connection,
            HandleType::Dbc,
        )
    }

    /// The record `rec_number` (counted from 1) of the handle `h`, asked for
    /// as a handle of kind `t` with a message buffer of `buffer_length`
    /// units; or the status that says why there is none.
    pub open spec fn diag_lookup(
        &self,
        t: HandleType,
        h: Handle,
        rec_number: int,
        buffer_length: int,
    ) -> Result<ODBCError, SqlReturn> {
        if rec_number < 1 || buffer_length < 0 {
            Err(SqlReturn::Error)
        } else if !self.has_type(h, t) {
            Err(SqlReturn::InvalidHandle)
        } else if rec_number > self.records(h).len() {
            Err(SqlReturn::NoData)
        } else {
            Ok(self.records(h)[rec_number - 1])
        }
    }

    /// `new` is `old` with one more record at its end: the notice that the
    /// entry point `name` is not implemented.
    pub open spec fn added_notice(new: Seq<ODBCError>, old: Seq<ODBCError>, name: Seq<char>) -> bool {
        &&& new.len() == old.len() + 1
        &&& new.drop_last() == old
        &&& notes_unimplemented(new.last(), name)
    }

    /// Only the records of `h` differ between `self` and `other`.
    pub open spec fn only_records_differ(&self, other: &HandleTable, h: Handle) -> bool {
        &&& self@.len() == other@.len()
        &&& self.same_except(other, set![h])
        &&& self.handle(h) is Some
        &&& other.handle(h) is Some
        &&& self.handle(h)->0.same_but_records(&other.handle(h)->0)
    }

    /// `p` lists `c` among its children.
    pub open spec fn lists(&self, p: Handle, c: Handle) -> bool {
        ||| self.has_type(p, HandleType::Env) && self.env(p).connections@.contains(c)
        ||| self.has_type(p, HandleType::Dbc) && self.connection(p).statements@.contains(c)
    }

    /// Every connection and statement of `other`, but those in `gone`, is
    /// still one in `self`, with the same parent.
    pub open spec fn links_kept(&self, other: &HandleTable, gone: Set<Handle>) -> bool {
        &&& forall|c: Handle|
            !gone.contains(c) && other.has_type(c, HandleType::Dbc) ==> #[trigger] self.has_type(
                c,
                HandleType::Dbc,
            ) && self.connection(c).env == other.connection(c).env
        &&& forall|s: Handle|
            !gone.contains(s) && other.has_type(s, HandleType::Stmt) ==> #[trigger] self.has_type(
                s,
                HandleType::Stmt,
            ) && self.statement(s).connection == other.statement(s).connection
    }

    /// `wf` survives a change confined to the slots in `changed`, where those
    /// slots are consistent afterwards, every other connection and statement
    /// keeps its parent, and the handles in `gone`, which may lose theirs, are
    /// listed by no unchanged parent.
    proof fn lemma_wf_after_change(
        pre: &HandleTable,
        post: &HandleTable,
        changed: Set<Handle>,
        gone: Set<Handle>,
    )
        requires
            pre.wf(),
            post@.len() > 0,
            post@[0] is None,
            post.same_except(pre, changed),
            post.links_kept(pre, gone),
            forall|x: Handle| changed.contains(x) ==> #[trigger] post.handle_wf(x),
            forall|x: Handle, g: Handle|
                !changed.contains(x) && gone.contains(g) ==> !#[trigger] pre.lists(x, g),
        ensures
            post.wf(),
    {
        assert forall|x: Handle| #[trigger] post.handle_wf(x) by {
            if !changed.contains(x) {
                assert(pre.handle_wf(x));
                assert(post.handle(x) == pre.handle(x));
                if pre.has_type(x, HandleType::Env) {
                    assert forall|c: Handle| #[trigger]
                        post.env(x).connections@.contains(c) implies post.has_type(
                        c,
                        HandleType::Dbc,
                    ) && post.connection(c).env == x by {
                        assert(pre.lists(x, c));
                    }
                }
                if pre.has_type(x, HandleType::Dbc) {
                    assert forall|s: Handle| #[trigger]
                        post.connection(x).statements@.contains(s) implies post.has_type(
                        s,
                        HandleType::Stmt,
                    ) && post.statement(s).connection == x by {
                        assert(pre.lists(x, s));
                    }
                }
            }
        }
    }

    /// In a consistent table only the parent that a child names lists it,
    /// and only connections and statements are listed.
    proof fn lemma_only_parent_lists(&self, c: Handle)
        requires
            self.wf(),
        ensures
            forall|p: Handle| #[trigger]
                self.lists(p, c) ==> (self.has_type(c, HandleType::Dbc) && p == self.connection(
                    c,
                ).env) || (self.has_type(c, HandleType::Stmt) && p == self.statement(
                    c,
                ).connection),
    {
        assert forall|p: Handle| #[trigger] self.lists(p, c) implies (self.has_type(
            c,
            HandleType::Dbc,
        ) && p == self.connection(c).env) || (self.has_type(c, HandleType::Stmt) && p
            == self.statement(c).connection) by {
            assert(self.handle_wf(p));
        }
    }

    pub fn new() -> (r: Self)
        ensures
            r.wf(),
            r@ == seq![None::<MongoHandle>],
    {
        let mut handles: Vec<Option<MongoHandle>> = Vec::new();
        handles.push(None);
        let r = HandleTable { handles };
        proof {
            assert(r@ =~= seq![None::<MongoHandle>]);
            assert forall|h: Handle| #[trigger] r.handle_wf(h) by {}
        }
        r
    }

    /// Allocates a handle of kind `handle_type`. An environment needs no
    /// parent; a connection is allocated from an environment, a statement
    /// or a descriptor from a connection. A connection or statement is
    /// entered in its parent's set of children, and the parent's state then
    /// tells that it has children. Fails with `InvalidHandle`, changing
    /// nothing, where the parent is missing or of another kind.
    pub fn sql_alloc_handle(&mut self, handle_type: HandleType, input_handle: Handle) -> (r: Result<
        Handle,
        SqlReturn,
    >)
        requires
            old(self).wf(),
        ensures
            final(self).wf(),
            r is Ok <==> old(self).can_allocate(handle_type, input_handle),
            r is Err ==> r->Err_0 == SqlReturn::InvalidHandle && final(self)@ == old(self)@,
            r is Ok ==> r->Ok_0 == old(self)@.len() && final(self)@.len() == old(self)@.len() + 1,
            r is Ok && handle_type == HandleType::Env ==> {
                &&& final(self).is_fresh_env(r->Ok_0)
                &&& final(self).same_except(old(self), set![r->Ok_0])
            },
            r is Ok && handle_type == HandleType::Dbc ==> {
                &&& final(self).is_fresh_connection(r->Ok_0, input_handle)
                &&& final(self).same_except(old(self), set![r->Ok_0, input_handle])
                &&& final(self).has_type(input_handle, HandleType::Env)
                &&& final(self).env(input_handle).connections@ == old(self).env(
                    input_handle,
                ).connections@.insert(r->Ok_0)
                &&& final(self).env(input_handle).state == EnvState::ConnectionAllocated
                &&& final(self).env(input_handle).attributes == old(self).env(
                    input_handle,
                ).attributes
                &&& final(self).records(input_handle) == old(self).records(input_handle)
            },
            r is Ok && handle_type == HandleType::Stmt ==> {
                &&& final(self).is_fresh_statement(r->Ok_0, input_handle)
                &&& final(self).same_except(old(self), set![r->Ok_0, input_handle])
                &&& final(self).has_type(input_handle, HandleType::Dbc)
                &&& final(self).connection(input_handle).statements@ == old(self).connection(
                    input_handle,
                ).statements@.insert(r->Ok_0)
                &&& final(self).connection(input_handle).state
                    == ConnectionState::StatementAllocated
                &&& final(self).connection(input_handle).env == old(self).connection(
                    input_handle,
                ).env
                &&& final(self).records(input_handle) == old(self).records(input_handle)
            },
            r is Ok && handle_type == HandleType::Desc ==> {
                &&& final(self).is_fresh_descriptor(r->Ok_0)
                &&& final(self).same_except(old(self), set![r->Ok_0])
            },
    {
        match handle_type {
            HandleType::Env => Ok(self.alloc_env()),
            HandleType::Dbc => {
                if !self.is_type(input_handle, HandleType::Env) {
                    return Err(SqlReturn::InvalidHandle);
                }
                Ok(self.alloc_connection(input_handle))
            },
            HandleType::Stmt => {
                if !self.is_type(input_handle, HandleType::Dbc) {
                    return Err(SqlReturn::InvalidHandle);
                }
                Ok(self.alloc_statement(input_handle))
            },
            HandleType::Desc => {
                if !self.is_type(input_handle, HandleType::Dbc) {
                    return Err(SqlReturn::InvalidHandle);
                }
                Ok(self.alloc_descriptor())
            },
        }
    }

    /// Frees the handle `handle` as a handle of kind `handle_type`. A
    /// connection or statement is first taken out of its parent's set of
    /// children, and where that set becomes empty the parent's state says so
    /// again. Fails with `InvalidHandle`, changing nothing, where `handle` is
    /// not a live handle of that kind, or where the parent of a connection or
    /// statement has already been freed.
    pub fn sql_free_handle(&mut self, handle_type: HandleType, handle: Handle) -> (r: SqlReturn)
        requires
            old(self).wf(),
        ensures
            final(self).wf(),
            r == SqlReturn::Success || r == SqlReturn::InvalidHandle,
            r == SqlReturn::Success <==> old(self).can_free(handle_type, handle),
            !old(self).has_type(handle, handle_type) ==> r == SqlReturn::InvalidHandle
                && final(self)@ == old(self)@,
            r == SqlReturn::InvalidHandle ==> final(self)@ == old(self)@,
            r == SqlReturn::Success ==> final(self)@.len() == old(self)@.len() && final(self).handle(
                handle,
            ) is None,
            r == SqlReturn::Success && (handle_type == HandleType::Env || handle_type
                == HandleType::Desc) ==> final(self).same_except(old(self), set![handle]),
            r == SqlReturn::Success && handle_type == HandleType::Dbc ==> ({
                let p = old(self).connection(handle).env;
                &&& final(self).same_except(old(self), set![handle, p])
                &&& final(self).has_type(p, HandleType::Env)
                &&& final(self).env(p).connections@ == old(self).env(p).connections@.remove(handle)
                &&& final(self).env(p).state == (if final(self).env(p).connections@.is_empty() {
                    EnvState::Allocated
                } else {
                    EnvState::ConnectionAllocated
                })
                &&& final(self).env(p).attributes == old(self).env(p).attributes
                &&& final(self).records(p) == old(self).records(p)
            }),
            r == SqlReturn::Success && handle_type == HandleType::Stmt ==> ({
                let p = old(self).statement(handle).connection;
                &&& final(self).same_except(old(self), set![handle, p])
                &&& final(self).has_type(p, HandleType::Dbc)
                &&& final(self).connection(p).statements@ == old(self).connection(
                    p,
                ).statements@.remove(handle)
                &&& final(self).connection(p).state == (if final(self).connection(
                    p,
                ).statements@.is_empty() {
                    ConnectionState::Connected
                } else {
                    ConnectionState::StatementAllocated
                })
                &&& final(self).connection(p).env == old(self).connection(p).env
                &&& final(self).records(p) == old(self).records(p)
            }),
    {
        if !self.is_type(handle, handle_type) {
            return SqlReturn::InvalidHandle;
        }
        match handle_type {
            HandleType::Env | HandleType::Desc => {
                proof {
                    self.lemma_only_parent_lists(handle);
                }
                self.release(handle);
            },
            HandleType::Dbc => {
                let env = match self.get(handle) {
                    Some(MongoHandle::Connection(c)) => c.env,
                    _ => 0,
                };
                if !self.is_type(env, HandleType::Env) {
                    return SqlReturn::InvalidHandle;
                }
                let ghost pre = *self;
                self.unlink_connection(env, handle);
                let ghost mid = *self;
                self.release(handle);
                proof {
                    assert(self.handle(env) == mid.handle(env));
                    Self::lemma_same_except_chain(&pre, &mid, self, env, handle);
                }
            },
            HandleType::Stmt => {
                let conn = match self.get(handle) {
                    Some(MongoHandle::Statement(s)) => s.connection,
                    _ => 0,
                };
                if !self.is_type(conn, HandleType::Dbc) {
                    return SqlReturn::InvalidHandle;
                }
                let ghost pre = *self;
                self.unlink_statement(conn, handle);
                let ghost mid = *self;
                self.release(handle);
                proof {
                    assert(self.handle(conn) == mid.handle(conn));
                    Self::lemma_same_except_chain(&pre, &mid, self, conn, handle);
                }
            },
        }
        SqlReturn::Success
    }

    /// A change of the slot `p` followed by one of the slot `h` changes
    /// those two slots only.
    proof fn lemma_same_except_chain(
        pre: &HandleTable,
        mid: &HandleTable,
        post: &HandleTable,
        p: Handle,
        h: Handle,
    )
        requires
            mid.same_except(pre, set![p]),
            post.same_except(mid, set![h]),
        ensures
            post.same_except(pre, set![h, p]),
    {
        assert forall|x: Handle| !set![h, p].contains(x) implies #[trigger] post.handle(x)
            == pre.handle(x) by {
            assert(mid.handle(x) == pre.handle(x));
        }
    }

    /// Takes the connection `h` out of the set of its environment `env`.
    fn unlink_connection(&mut self, env: Handle, h: Handle)
        requires
            old(self).wf(),
            old(self).has_type(env, HandleType::Env),
            old(self).has_type(h, HandleType::Dbc),
            old(self).connection(h).env == env,
        ensures
            final(self).wf(),
            final(self)@.len() == old(self)@.len(),
            final(self).same_except(old(self), set![env]),
            final(self).has_type(env, HandleType::Env),
            final(self).env(env).connections@ == old(self).env(env).connections@.remove(h),
            final(self).env(env).state == (if final(self).env(env).connections@.is_empty() {
                EnvState::Allocated
            } else {
                EnvState::ConnectionAllocated
            }),
            final(self).env(env).attributes == old(self).env(env).attributes,
            final(self).records(env) == old(self).records(env),
            forall|p: Handle| !#[trigger] final(self).lists(p, h),
    {
        let ghost pre = *self;
        match &mut self.handles[env] {
            Some(MongoHandle::Env(e)) => {
                e.connections.remove(&h);
                if e.connections.is_empty() {
                    e.state = EnvState::Allocated;
                }
            },
            _ => {},
        }
        proof {
            assert(pre.handle_wf(env));
            assert(self.links_kept(&pre, Set::empty()));
            assert forall|c: Handle| #[trigger]
                self.env(env).connections@.contains(c) implies self.has_type(c, HandleType::Dbc)
                && self.connection(c).env == env by {
                assert(pre.lists(env, c));
            }
            assert(self.handle_wf(env));
            Self::lemma_wf_after_change(&pre, self, set![env], Set::empty());
            self.lemma_only_parent_lists(h);
        }
    }

    /// Takes the statement `h` out of the set of its connection `conn`.
    fn unlink_statement(&mut self, conn: Handle, h: Handle)
        requires
            old(self).wf(),
            old(self).has_type(conn, HandleType::Dbc),
            old(self).has_type(h, HandleType::Stmt),
            old(self).statement(h).connection == conn,
        ensures
            final(self).wf(),
            final(self)@.len() == old(self)@.len(),
            final(self).same_except(old(self), set![conn]),
            final(self).has_type(conn, HandleType::Dbc),
            final(self).connection(conn).statements@ == old(self).connection(
                conn,
            ).statements@.remove(h),
            final(self).connection(conn).state == (if final(self).connection(
                conn,
            ).statements@.is_empty() {
                ConnectionState::Connected
            } else {
                ConnectionState::StatementAllocated
            }),
            final(self).connection(conn).env == old(self).connection(conn).env,
            final(self).records(conn) == old(self).records(conn),
            forall|p: Handle| !#[trigger] final(self).lists(p, h),
    {
        let ghost pre = *self;
        match &mut self.handles[conn] {
            Some(MongoHandle::Connection(c)) => {
                c.statements.remove(&h);
                if c.statements.is_empty() {
                    c.state = ConnectionState::Connected;
                }
            },
            _ => {},
        }
        proof {
            assert(pre.handle_wf(conn));
            assert(self.links_kept(&pre, Set::empty()));
            assert forall|s: Handle| #[trigger]
                self.connection(conn).statements@.contains(s) implies self.has_type(
                s,
                HandleType::Stmt,
            ) && self.statement(s).connection == conn by {
                assert(pre.lists(conn, s));
            }
            assert(self.handle_wf(conn));
            Self::lemma_wf_after_change(&pre, self, set![conn], Set::empty());
            self.lemma_only_parent_lists(h);
        }
    }

    /// Empties the slot of `h`, which no parent lists as a child.
    fn release(&mut self, h: Handle)
        requires
            old(self).wf(),
            h < old(self)@.len(),
            forall|p: Handle| !#[trigger] old(self).lists(p, h),
        ensures
            final(self).wf(),
            final(self)@ == old(self)@.update(h as int, None),
    {
        let ghost pre = *self;
        self.handles.set(h, None);
        proof {
            assert(self.links_kept(&pre, set![h]));
            assert(self.handle_wf(h));
            Self::lemma_wf_after_change(&pre, self, set![h], set![h]);
        }
    }

    /// Appends a diagnostic record to the handle `handle`. Fails, changing
    /// nothing, where `handle` names no live handle.
    pub fn add_diag_info(&mut self, handle: Handle, error: ODBCError) -> (r: Result<(), ()>)
        requires
            old(self).wf(),
        ensures
            final(self).wf(),
            r is Ok <==> old(self).handle(handle) is Some,
            r is Err ==> final(self)@ == old(self)@,
            r is Ok ==> final(self).only_records_differ(old(self), handle),
            r is Ok ==> final(self).records(handle) == old(self).records(handle).push(error),
    {
        if self.get(handle).is_none() {
            return Err(());
        }
        let ghost pre = *self;
        match &mut self.handles[handle] {
            Some(mh) => {
                mh.add_diag_info(error);
            },
            None => {},
        }
        proof {
            assert(pre.handle_wf(handle));
            assert(self.links_kept(&pre, Set::empty()));
            if pre.has_type(handle, HandleType::Env) {
                assert forall|c: Handle| #[trigger]
                    self.env(handle).connections@.contains(c) implies self.has_type(
                    c,
                    HandleType::Dbc,
                ) && self.connection(c).env == handle by {
                    assert(pre.lists(handle, c));
                }
            }
            if pre.has_type(handle, HandleType::Dbc) {
                assert forall|s: Handle| #[trigger]
                    self.connection(handle).statements@.contains(s) implies self.has_type(
                    s,
                    HandleType::Stmt,
                ) && self.statement(s).connection == handle by {
                    assert(pre.lists(handle, s));
                }
            }
            assert(self.handle_wf(handle));
            Self::lemma_wf_after_change(&pre, self, set![handle], Set::empty());
        }
        Ok(())
    }

    /// The entry point `function_name`, which is not implemented, called on
    /// `handle` as a handle of kind `handle_type`: where the handle is of that
    /// kind, it gets the notice that the entry point is not implemented and
    /// the status is `Error`; else the status is `InvalidHandle` and nothing
    /// changes.
    pub fn sql_unimplemented(
        &mut self,
        handle_type: HandleType,
        handle: Handle,
        function_name: &str,
    ) -> (r: SqlReturn)
        requires
            old(self).wf(),
        ensures
            final(self).wf(),
            r == SqlReturn::Error || r == SqlReturn::InvalidHandle,
            r == SqlReturn::Error <==> old(self).has_type(handle, handle_type),
            r == SqlReturn::InvalidHandle ==> final(self)@ == old(self)@,
            r == SqlReturn::Error ==> final(self).only_records_differ(old(self), handle),
            r == SqlReturn::Error ==> Self::added_notice(
                final(self).records(handle),
                old(self).records(handle),
                function_name@,
            ),
    {
        if !self.is_type(handle, handle_type) {
            return SqlReturn::InvalidHandle;
        }
        let error = ODBCError::Unimplemented(String::from_str(function_name));
        let _ = self.add_diag_info(handle, error);
        proof {
            assert(self.records(handle).drop_last() =~= old(self).records(handle));
        }
        SqlReturn::Error
    }

    /// Copying one descriptor into another, which is not implemented. Where
    /// both handles are descriptors, each gets the notice (a handle that is
    /// both source and target gets it twice) and the status is `Error`; else
    /// the status is `InvalidHandle` and nothing changes.
    pub fn copy_desc(&mut self, source: Handle, target: Handle) -> (r: SqlReturn)
        requires
            old(self).wf(),
        ensures
            final(self).wf(),
            r == SqlReturn::Error || r == SqlReturn::InvalidHandle,
            r == SqlReturn::Error <==> old(self).has_type(source, HandleType::Desc)
                && old(self).has_type(target, HandleType::Desc),
            r == SqlReturn::InvalidHandle ==> final(self)@ == old(self)@,
            r == SqlReturn::Error ==> final(self)@.len() == old(self)@.len()
                && final(self).same_except(old(self), set![source, target])
                && final(self).has_type(source, HandleType::Desc)
                && final(self).has_type(target, HandleType::Desc),
            r == SqlReturn::Error && source != target ==> Self::added_notice(
                final(self).records(source),
                old(self).records(source),
                "SQLCopyDesc"@,
            ) && Self::added_notice(
                final(self).records(target),
                old(self).records(target),
                "SQLCopyDesc"@,
            ),
            r == SqlReturn::Error && source == target ==> Self::added_notice(
                final(self).records(source).drop_last(),
                old(self).records(source),
                "SQLCopyDesc"@,
            ) && notes_unimplemented(final(self).records(source).last(), "SQLCopyDesc"@),
    {
        if !self.is_type(source, HandleType::Desc) || !self.is_type(target, HandleType::Desc) {
            return SqlReturn::InvalidHandle;
        }
        let ghost pre = *self;
        let _ = self.sql_unimplemented(HandleType::Desc, source, "SQLCopyDesc");
        let ghost mid = *self;
        proof {
            if target != source {
                assert(mid.handle(target) == pre.handle(target));
            }
        }
        let _ = self.sql_unimplemented(HandleType::Desc, target, "SQLCopyDesc");
        proof {
            if target != source {
                assert(self.handle(source) == mid.handle(source));
            }
            assert forall|x: Handle| !set![source, target].contains(x) implies #[trigger] self.handle(
                x,
            ) == pre.handle(x) by {
                assert(mid.handle(x) == pre.handle(x));
            }
        }
        SqlReturn::Error
    }

    /// The record `rec_number` of the handle `handle`, looked up as
    /// `diag_lookup` says.
    fn find_record(
        &self,
        handle_type: HandleType,
        handle: Handle,
        rec_number: i16,
        buffer_length: i16,
    ) -> (r: Result<&ODBCError, SqlReturn>)
        ensures
            match self.diag_lookup(handle_type, handle, rec_number as int, buffer_length as int) {
                Ok(e) => r is Ok && *r->Ok_0 == e,
                Err(s) => r is Err && r->Err_0 == s,
            },
    {
        if rec_number < 1 || buffer_length < 0 {
            return Err(SqlReturn::Error);
        }
        match self.get(handle) {
            Some(mh) => {
                if !mh.is_type(handle_type) {
                    return Err(SqlReturn::InvalidHandle);
                }
                let errors = mh.errors();
                let i = (rec_number - 1) as usize;
                if i < errors.len() {
                    Ok(&errors[i])
                } else {
                    Err(SqlReturn::NoData)
                }
            },
            None => Err(SqlReturn::InvalidHandle),
        }
    }

    /// Reads the diagnostic record `rec_number` (counted from 1) of `handle`
    /// in the wide (UTF-16) encoding, with a message buffer of
    /// `buffer_length` units: `Error` for a record number below 1 or a
    /// negative length, `InvalidHandle` where `handle` is not of the kind
    /// `handle_type`, `NoData` past the last record. Else the SQL state, the
    /// native code and as much of the message as the buffer holds, a
    /// surrogate pair never cut in two, with `Success` where all of it fits
    /// and `SuccessWithInfo` where it was cut.
    pub fn get_diag_rec_w(
        &self,
        handle_type: HandleType,
        handle: Handle,
        rec_number: i16,
        buffer_length: i16,
    ) -> (r: DiagRec<u16>)
        ensures
            match self.diag_lookup(handle_type, handle, rec_number as int, buffer_length as int) {
                Err(status) => {
                    &&& r.status == status
                    &&& r.sql_state@.len() == 0
                    &&& r.message@.len() == 0
                    &&& r.text_length == 0
                    &&& r.native_error == 0
                },
                Ok(e) => {
                    let units = utf16_encode(e.spec_message());
                    let n = wide_copy_len(units, buffer_length as int);
                    &&& r.status == copy_status(units.len() as int, buffer_length as int)
                    &&& r.text_length as int == n
                    &&& r.message@ == copied_text(units, n, buffer_length as int, 0u16)
                    &&& r.message@.len() <= buffer_length
                    &&& !splits_pair(units, n)
                    &&& r.sql_state@ == utf16_encode(e.spec_sql_state().spec_code()).push(0u16)
                    &&& r.native_error == e.spec_native_err_code()
                },
            },
    {
        match self.find_record(handle_type, handle, rec_number, buffer_length) {
            Err(status) => DiagRec {
                status,
                sql_state: Vec::new(),
                native_error: 0,
                message: Vec::new(),
                text_length: 0,
            },
            Ok(e) => e.get_diag_rec(buffer_length),
        }
    }

    /// Reads the diagnostic record `rec_number` (counted from 1) of `handle`
    /// in the narrow (UTF-8) encoding, with a message buffer of
    /// `buffer_length` bytes; the statuses are those of `get_diag_rec_w`.
    pub fn get_diag_rec(
        &self,
        handle_type: HandleType,
        handle: Handle,
        rec_number: i16,
        buffer_length: i16,
    ) -> (r: DiagRec<u8>)
        ensures
            match self.diag_lookup(handle_type, handle, rec_number as int, buffer_length as int) {
                Err(status) => {
                    &&& r.status == status
                    &&& r.sql_state@.len() == 0
                    &&& r.message@.len() == 0
                    &&& r.text_length == 0
                    &&& r.native_error == 0
                },
                Ok(e) => {
                    let units = encode_utf8(e.spec_message());
                    let n = narrow_copy_len(units.len() as int, buffer_length as int);
                    &&& r.status == copy_status(units.len() as int, buffer_length as int)
                    &&& r.text_length as int == n
                    &&& r.message@ == copied_text(units, n, buffer_length as int, 0u8)
                    &&& r.sql_state@ == encode_utf8(e.spec_sql_state().spec_code()).push(0u8)
                    &&& r.native_error == e.spec_native_err_code()
                },
            },
    {
        match self.find_record(handle_type, handle, rec_number, buffer_length) {
            Err(status) => DiagRec {
                status,
                sql_state: Vec::new(),
                native_error: 0,
                message: Vec::new(),
                text_length: 0,
            },
            Ok(e) => e.get_diag_rec_narrow(buffer_length),
        }
    }

    /// Stores `mh` under a new handle value, the first past every slot.
    fn push_handle(&mut self, mh: MongoHandle) -> (h: Handle)
        ensures
            h == old(self)@.len(),
            final(self)@ == old(self)@.push(Some(mh)),
    {
        let h = self.handles.len();
        self.handles.push(Some(mh));
        h
    }

    fn alloc_env(&mut self) -> (h: Handle)
        requires
            old(self).wf(),
        ensures
            final(self).wf(),
            h == old(self)@.len(),
            final(self)@.len() == old(self)@.len() + 1,
            final(self).is_fresh_env(h),
            final(self).same_except(old(self), set![h]),
    {
        let ghost pre = *self;
        let h = self.push_handle(MongoHandle::Env(Env::with_state(EnvState::Allocated)));
        proof {
            assert(self.links_kept(&pre, Set::empty()));
            assert(self.handle_wf(h));
            Self::lemma_wf_after_change(&pre, self, set![h], Set::empty());
        }
        h
    }

    fn alloc_connection(&mut self, parent: Handle) -> (h: Handle)
        requires
            old(self).wf(),
            old(self).has_type(parent, HandleType::Env),
        ensures
            final(self).wf(),
            h == old(self)@.len(),
            final(self)@.len() == old(self)@.len() + 1,
            final(self).is_fresh_connection(h, parent),
            final(self).same_except(old(self), set![h, parent]),
            final(self).has_type(parent, HandleType::Env),
            final(self).env(parent).connections@ == old(self).env(parent).connections@.insert(h),
            final(self).env(parent).state == EnvState::ConnectionAllocated,
            final(self).env(parent).attributes == old(self).env(parent).attributes,
            final(self).records(parent) == old(self).records(parent),
    {
        let ghost pre = *self;
        let h = self.push_handle(
            MongoHandle::Connection(Connection::with_state(parent, ConnectionState::Allocated)),
        );
        match &mut self.handles[parent] {
            Some(MongoHandle::Env(e)) => {
                e.connections.insert(h);
                e.state = EnvState::ConnectionAllocated;
            },
            _ => {},
        }
        proof {
            assert(pre.handle_wf(parent));
            assert(self.links_kept(&pre, Set::empty()));
            assert forall|c: Handle| #[trigger]
                self.env(parent).connections@.contains(c) implies self.has_type(
                c,
                HandleType::Dbc,
            ) && self.connection(c).env == parent by {
                if c != h {
                    assert(pre.lists(parent, c));
                }
            }
            assert(self.env(parent).connections@.contains(h));
            assert(self.handle_wf(parent));
            assert(self.handle_wf(h));
            Self::lemma_wf_after_change(&pre, self, set![h, parent], Set::empty());
        }
        h
    }

    fn alloc_statement(&mut self, parent: Handle) -> (h: Handle)
        requires
            old(self).wf(),
            old(self).has_type(parent, HandleType::Dbc),
        ensures
            final(self).wf(),
            h == old(self)@.len(),
            final(self)@.len() == old(self)@.len() + 1,
            final(self).is_fresh_statement(h, parent),
            final(self).same_except(old(self), set![h, parent]),
            final(self).has_type(parent, HandleType::Dbc),
            final(self).connection(parent).statements@ == old(self).connection(
                parent,
            ).statements@.insert(h),
            final(self).connection(parent).state == ConnectionState::StatementAllocated,
            final(self).connection(parent).env == old(self).connection(parent).env,
            final(self).records(parent) == old(self).records(parent),
    {
        let ghost pre = *self;
        let h = self.push_handle(
            MongoHandle::Statement(Statement::with_state(parent, StatementState::Allocated)),
        );
        match &mut self.handles[parent] {
            Some(MongoHandle::Connection(c)) => {
                c.statements.insert(h);
                c.state = ConnectionState::StatementAllocated;
            },
            _ => {},
        }
        proof {
            assert(pre.handle_wf(parent));
            assert(self.links_kept(&pre, Set::empty()));
            assert forall|s: Handle| #[trigger]
                self.connection(parent).statements@.contains(s) implies self.has_type(
                s,
                HandleType::Stmt,
            ) && self.statement(s).connection == parent by {
                if s != h {
                    assert(pre.lists(parent, s));
                }
            }
            assert(self.connection(parent).statements@.contains(h));
            assert(self.handle_wf(parent));
            assert(self.handle_wf(h));
            Self::lemma_wf_after_change(&pre, self, set![h, parent], Set::empty());
        }
        h
    }

    fn alloc_descriptor(&mut self) -> (h: Handle)
        requires
            old(self).wf(),
        ensures
            final(self).wf(),
            h == old(self)@.len(),
            final(self)@.len() == old(self)@.len() + 1,
            final(self).is_fresh_descriptor(h),
            final(self).same_except(old(self), set![h]),
    {
        let ghost pre = *self;
        let h = self.push_handle(MongoHandle::Descriptor(Descriptor::default()));
        proof {
            assert(self.links_kept(&pre, Set::empty()));
            assert(self.handle_wf(h));
            Self::lemma_wf_after_change(&pre, self, set![h], Set::empty());
        }
        h
    }

    /// The handle stored under `h`, if any.
    pub fn get(&self, h: Handle) -> (r: Option<&MongoHandle>)
        ensures
            r is Some <==> self.handle(h) is Some,
            r is Some ==> *r->0 == self.handle(h)->0,
    {
        if h < self.handles.len() {
            self.handles[h].as_ref()
        } else {
            None
        }
    }

    /// Whether `h` names a live handle of the kind `t`.
    pub fn is_type(&self, h: Handle, t: HandleType) -> (r: bool)
        ensures
            r == self.has_type(h, t),
    {
        match self.get(h) {
            Some(mh) => mh.is_type(t),
            None => false,
        }
    }
}

/// In every table reachable from `HandleTable::new` through the operations
/// of this module (all of which keep `wf`), an environment is in the state
/// `ConnectionAllocated` exactly when it has connections and `Allocated`
/// exactly when it has none, and a connection is in the state
/// `StatementAllocated` exactly when it has statements.
pub proof fn lemma_tree_invariant(t: &HandleTable, h: Handle)
    requires
        t.wf(),
    ensures
        t.has_type(h, HandleType::Env) ==> (t.env(h).state == EnvState::ConnectionAllocated
            <==> !t.env(h).connections@.is_empty()),
        t.has_type(h, HandleType::Env) ==> (t.env(h).state == EnvState::Allocated
            <==> t.env(h).connections@.is_empty()),
        t.has_type(h, HandleType::Dbc) ==> (t.connection(h).state
            == ConnectionState::StatementAllocated <==> !t.connection(h).statements@.is_empty()),
{
    assert(t.handle_wf(h));
}

/// A connection or statement cannot be allocated from the null handle, nor
/// from a statement: `sql_alloc_handle` answers both with `InvalidHandle`.
pub proof fn lemma_allocation_guards(t: &HandleTable, input: Handle)
    requires
        t.wf(),
    ensures
        !t.can_allocate(HandleType::Dbc, NULL_HANDLE),
        !t.can_allocate(HandleType::Stmt, NULL_HANDLE),
        t.has_type(input, HandleType::Stmt) ==> !t.can_allocate(HandleType::Dbc, input),
        t.has_type(input, HandleType::Stmt) ==> !t.can_allocate(HandleType::Stmt, input),
{
}

/// Records are read back in the order they were appended: after `r1` and
/// then `r2` are appended to a handle that held `k` records, record `k + 1`
/// is `r1`, record `k + 2` is `r2`, and there is no record `k + 3`. On a
/// handle with no earlier records these are records 1, 2 and 3.
pub proof fn lemma_records_in_append_order(
    t0: &HandleTable,
    t1: &HandleTable,
    t2: &HandleTable,
    t: HandleType,
    h: Handle,
    r1: ODBCError,
    r2: ODBCError,
    buffer_length: int,
)
    requires
        t1.records(h) == t0.records(h).push(r1),
        t2.records(h) == t1.records(h).push(r2),
        t2.has_type(h, t),
        buffer_length >= 0,
    ensures
        ({
            let k = t0.records(h).len() as int;
            &&& t2.diag_lookup(t, h, k + 1, buffer_length) == Ok::<ODBCError, SqlReturn>(r1)
            &&& t2.diag_lookup(t, h, k + 2, buffer_length) == Ok::<ODBCError, SqlReturn>(r2)
            &&& t2.diag_lookup(t, h, k + 3, buffer_length) == Err::<ODBCError, SqlReturn>(
                SqlReturn::NoData,
            )
        }),
        t0.records(h).len() == 0 ==> {
            &&& t2.diag_lookup(t, h, 1, buffer_length) == Ok::<ODBCError, SqlReturn>(r1)
            &&& t2.diag_lookup(t, h, 2, buffer_length) == Ok::<ODBCError, SqlReturn>(r2)
            &&& t2.diag_lookup(t, h, 3, buffer_length) == Err::<ODBCError, SqlReturn>(
                SqlReturn::NoData,
            )
        },
{
}

} // verus!
