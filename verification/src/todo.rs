//! The Todo service: create, read, list, update and delete todos kept by a
//! pluggable store.
//!
//! [`TodoServer`] turns requests into store calls and store results into
//! answers; [`InMemoryTodoStore`] keeps todos in an ordered map with ids
//! handed out from a counter that starts at 1.

use std::collections::BTreeMap;

use vstd::prelude::*;

use crate::error::ErrorCode;
use crate::error::RpcError;
use crate::text::push_signed_decimal;
use crate::text::signed_decimal;

verus! {

broadcast use {vstd::std_specs::btree::group_btree_axioms, vstd::laws_cmp::group_laws_cmp};

/// A stored todo.
#[derive(Clone, Debug, PartialEq, Eq)]
pub struct TodoRecord {
    pub id: i64,
    pub text: String,
    pub done: bool,
}

impl TodoRecord {
    /// A copy of this record.
    pub fn duplicate(&self) -> (r: TodoRecord)
        ensures
            r == *self,
    {
        TodoRecord { id: self.id, text: self.text.clone(), done: self.done }
    }

    /// The record of a database row, whose `done` column holds 0 for false
    /// and any other integer for true.
    pub fn from_row(id: i64, text: String, done: i64) -> (r: TodoRecord)
        ensures
            r.id == id,
            r.text == text,
            r.done == (done != 0),
    {
        TodoRecord { id, text, done: done != 0 }
    }
}

/// A store failure, with its message.
#[derive(Debug)]
pub struct StoreError(String);

impl View for StoreError {
    type V = Seq<char>;

    closed spec fn view(&self) -> Seq<char> {
        self.0@
    }
}

impl StoreError {
    /// A store failure with message `msg`.
    pub fn new(msg: String) -> (r: StoreError)
        ensures
            r@ == msg@,
    {
        StoreError(msg)
    }

    /// The failure's message.
    pub fn message(&self) -> (r: String)
        ensures
            r@ == self@,
    {
        self.0.clone()
    }

    /// The RPC error a store failure is answered with: an internal error
    /// with the same message.
    pub fn into_rpc_error(self) -> (r: RpcError)
        ensures
            r.code == ErrorCode::Internal,
            r.message@ == self@,
    {
        RpcError { code: ErrorCode::Internal, message: self.0 }
    }
}

/// The contents of a todo store: the id the next todo gets, and the todos
/// by id.
pub ghost struct TodoModel {
    pub next_id: int,
    pub todos: Map<i64, TodoRecord>,
}

impl TodoModel {
    /// Every stored todo sits under its own id, and ids run from 1 to below
    /// the next id to hand out.
    pub open spec fn well_formed(self) -> bool {
        &&& 1 <= self.next_id <= i64::MAX
        &&& forall|id: i64| #[trigger]
            self.todos.contains_key(id) ==> self.todos[id].id == id && 1 <= id < self.next_id
    }

    /// Creating a todo with `text`: it gets the next id and starts not
    /// done; the next id moves on by one.
    pub open spec fn create(self, text: String) -> (TodoModel, TodoRecord) {
        let record = TodoRecord { id: self.next_id as i64, text, done: false };
        (TodoModel { next_id: self.next_id + 1, todos: self.todos.insert(record.id, record) }, record)
    }

    /// The todo with id `id`, if any.
    pub open spec fn get(self, id: i64) -> Option<TodoRecord> {
        if self.todos.contains_key(id) {
            Some(self.todos[id])
        } else {
            None
        }
    }

    /// Updating todo `id`: the given fields replace the stored ones, the
    /// others stay; a missing todo is left missing and nothing changes.
    pub open spec fn update(self, id: i64, text: Option<String>, done: Option<bool>) -> (
        TodoModel,
        Option<TodoRecord>,
    ) {
        if self.todos.contains_key(id) {
            let old_record = self.todos[id];
            let record = TodoRecord {
                id: old_record.id,
                text: match text {
                    Some(t) => t,
                    None => old_record.text,
                },
                done: match done {
                    Some(d) => d,
                    None => old_record.done,
                },
            };
            (TodoModel { todos: self.todos.insert(id, record), ..self }, Some(record))
        } else {
            (self, None)
        }
    }

    /// Deleting todo `id`: it is gone afterwards; the answer says whether it
    /// was there.
    pub open spec fn delete(self, id: i64) -> (TodoModel, bool) {
        (TodoModel { todos: self.todos.remove(id), ..self }, self.todos.contains_key(id))
    }

    /// `records` lists every todo exactly once, in increasing id order.
    pub open spec fn listed(self, records: Seq<TodoRecord>) -> bool {
        &&& forall|i: int, j: int|
            0 <= i < j < records.len() ==> (#[trigger] records[i]).id < (#[trigger] records[j]).id
        &&& forall|i: int|
            0 <= i < records.len() ==> self.todos.contains_key((#[trigger] records[i]).id)
                && self.todos[records[i].id] == records[i]
        &&& forall|id: i64|
            #[trigger] self.todos.contains_key(id) ==> exists|i: int|
                0 <= i < records.len() && (#[trigger] records[i]).id == id
    }
}

/// Reading a todo right after creating it gives back the created todo. The
/// new todo gets the next id, which is above every id in the store, and
/// starts not done; every other todo stays as it was, and the contents stay
/// well formed.
pub proof fn get_after_create(m: TodoModel, text: String)
    requires
        m.well_formed(),
        m.next_id < i64::MAX,
    ensures
        ({
            let (after, record) = m.create(text);
            &&& after.well_formed()
            &&& after.get(record.id) == Some(record)
            &&& record.id == m.next_id
            &&& record.text == text
            &&& !record.done
            &&& forall|id: i64| #[trigger] m.todos.contains_key(id) ==> id < record.id
            &&& forall|id: i64| id != record.id ==> #[trigger] after.get(id) == m.get(id)
        }),
{
}

/// Two todos created one after the other get consecutive ids.
pub proof fn create_ids_are_consecutive(m: TodoModel, first: String, second: String)
    requires
        m.well_formed(),
        m.next_id + 1 < i64::MAX,
    ensures
        m.create(first).0.create(second).1.id == m.create(first).1.id + 1,
{
}

/// After a todo is deleted, reading it finds nothing; the delete reports
/// whether it was there, and every other todo stays as it was.
pub proof fn get_after_delete(m: TodoModel, id: i64)
    requires
        m.well_formed(),
    ensures
        ({
            let (after, existed) = m.delete(id);
            &&& after.well_formed()
            &&& after.get(id) is None
            &&& existed == m.get(id) is Some
            &&& after.next_id == m.next_id
            &&& forall|other: i64| other != id ==> #[trigger] after.get(other) == m.get(other)
        }),
{
}

/// A deleted todo's id is never handed out again.
pub proof fn deleted_ids_are_not_reused(m: TodoModel, id: i64, text: String)
    requires
        m.well_formed(),
        m.next_id < i64::MAX,
        m.todos.contains_key(id),
    ensures
        m.delete(id).0.create(text).1.id != id,
{
}

/// An update answers with what a read gives afterwards: the todo with the
/// given fields replaced and the others kept. Updating a missing todo
/// changes nothing; every other todo stays as it was.
pub proof fn get_after_update(m: TodoModel, id: i64, text: Option<String>, done: Option<bool>)
    requires
        m.well_formed(),
    ensures
        ({
            let (after, answer) = m.update(id, text, done);
            &&& after.well_formed()
            &&& answer == after.get(id)
            &&& after.next_id == m.next_id
            &&& (m.get(id) is None ==> after == m && answer is None)
            &&& (m.get(id) matches Some(before) ==> answer == Some(
                TodoRecord {
                    id,
                    text: match text {
                        Some(t) => t,
                        None => before.text,
                    },
                    done: match done {
                        Some(d) => d,
                        None => before.done,
                    },
                },
            ))
            &&& forall|other: i64| other != id ==> #[trigger] after.get(other) == m.get(other)
        }),
{
    let (after, answer) = m.update(id, text, done);
    if m.todos.contains_key(id) {
        assert(after.todos[id] == answer->Some_0);
    }
}

/// An update that gives no field changes nothing and answers with the
/// stored todo.
pub proof fn empty_update_changes_nothing(m: TodoModel, id: i64)
    requires
        m.well_formed(),
    ensures
        m.update(id, None, None) == (m, m.get(id)),
{
    if m.todos.contains_key(id) {
        let record = m.todos[id];
        assert(m.todos.insert(id, record) =~= m.todos);
    }
}

/// The records of a listing result.
pub open spec fn listing_view(r: Result<Vec<TodoRecord>, StoreError>) -> Result<
    Seq<TodoRecord>,
    StoreError,
> {
    match r {
        Ok(records) => Ok(records@),
        Err(e) => Err(e),
    }
}

/// A store of todos.
///
/// Each store says, through its spec functions, which results and which
/// following states each operation may lead to; the server answers from
/// whatever the store gives back. Whatever the store, a created todo has
/// the given text and is not done, a read or update answers with the todo
/// of the requested id, an update applies the given fields, and a listing
/// is in increasing id order.
pub trait TodoStore: Sized {
    /// Whether a todo can be created without exhausting the ids.
    spec fn room_for_create(&self) -> bool;

    /// Creating a todo with `text` may leave the store as `after` and
    /// answer `result`.
    spec fn creates(&self, text: String, after: Self, result: Result<TodoRecord, StoreError>) -> bool;

    /// Reading todo `id` may answer `result`.
    spec fn gets(&self, id: i64, result: Result<Option<TodoRecord>, StoreError>) -> bool;

    /// Listing the todos may answer `result`.
    spec fn lists(&self, result: Result<Seq<TodoRecord>, StoreError>) -> bool;

    /// Updating todo `id` may leave the store as `after` and answer
    /// `result`.
    spec fn updates(
        &self,
        id: i64,
        text: Option<String>,
        done: Option<bool>,
        after: Self,
        result: Result<Option<TodoRecord>, StoreError>,
    ) -> bool;

    /// Deleting todo `id` may leave the store as `after` and answer
    /// `result`.
    spec fn deletes(&self, id: i64, after: Self, result: Result<bool, StoreError>) -> bool;

    /// Tells whether a todo can be created.
    fn has_room_for_create(&self) -> (r: bool)
        ensures
            r == self.room_for_create(),
    ;

    /// Stores a new todo with `text`, not done.
    fn create(&mut self, text: String) -> (r: Result<TodoRecord, StoreError>)
        requires
            old(self).room_for_create(),
        ensures
            old(self).creates(text, *final(self), r),
            r matches Ok(record) ==> record.text@ == text@ && !record.done,
    ;

    /// The todo with id `id`, if there is one.
    fn get(&self, id: i64) -> (r: Result<Option<TodoRecord>, StoreError>)
        ensures
            self.gets(id, r),
            r matches Ok(Some(record)) ==> record.id == id,
    ;

    /// All todos, in increasing id order.
    fn list(&self) -> (r: Result<Vec<TodoRecord>, StoreError>)
        ensures
            self.lists(listing_view(r)),
            r matches Ok(records) ==> forall|i: int, j: int|
                0 <= i < j < records@.len() ==> (#[trigger] records@[i]).id < (
                #[trigger] records@[j]).id,
    ;

    /// Replaces the given fields of todo `id`; `None` when there is no such
    /// todo.
    fn update(&mut self, id: i64, text: Option<String>, done: Option<bool>) -> (r: Result<
        Option<TodoRecord>,
        StoreError,
    >)
        ensures
            old(self).updates(id, text, done, *final(self), r),
            r matches Ok(Some(record)) ==> {
                &&& record.id == id
                &&& text matches Some(t) ==> record.text@ == t@
                &&& done matches Some(d) ==> record.done == d
            },
    ;

    /// Deletes todo `id`; tells whether there was one.
    fn delete(&mut self, id: i64) -> (r: Result<bool, StoreError>)
        ensures
            old(self).deletes(id, *final(self), r),
    ;
}

/// A todo store kept in memory.
pub struct InMemoryTodoStore {
    next_id: i64,
    todos: BTreeMap<i64, TodoRecord>,
}

impl View for InMemoryTodoStore {
    type V = TodoModel;

    closed spec fn view(&self) -> TodoModel {
        TodoModel { next_id: self.next_id as int, todos: self.todos@ }
    }
}

impl InMemoryTodoStore {
    #[verifier::type_invariant]
    closed spec fn well_formed(&self) -> bool {
        self@.well_formed()
    }

    /// An empty store; the first todo gets id 1.
    pub fn new() -> (r: InMemoryTodoStore)
        ensures
            r@ == (TodoModel { next_id: 1, todos: Map::<i64, TodoRecord>::empty() }),
            r@.well_formed(),
    {
        InMemoryTodoStore { next_id: 1, todos: BTreeMap::new() }
    }

    /// Whether a todo can be created without exhausting the ids: the next id
    /// is below the largest `i64`.
    pub fn can_create(&self) -> (r: bool)
        ensures
            r == (self@.next_id < i64::MAX),
            self@.well_formed(),
    {
        proof {
            use_type_invariant(self);
        }
        self.next_id < i64::MAX
    }
}

impl TodoStore for InMemoryTodoStore {
    open spec fn room_for_create(&self) -> bool {
        self@.next_id < i64::MAX
    }

    open spec fn creates(
        &self,
        text: String,
        after: InMemoryTodoStore,
        result: Result<TodoRecord, StoreError>,
    ) -> bool {
        &&& after@ == self@.create(text).0
        &&& result == Ok::<TodoRecord, StoreError>(self@.create(text).1)
    }

    open spec fn gets(&self, id: i64, result: Result<Option<TodoRecord>, StoreError>) -> bool {
        result == Ok::<Option<TodoRecord>, StoreError>(self@.get(id))
    }

    open spec fn lists(&self, result: Result<Seq<TodoRecord>, StoreError>) -> bool {
        result matches Ok(records) && self@.listed(records)
    }

    open spec fn updates(
        &self,
        id: i64,
        text: Option<String>,
        done: Option<bool>,
        after: InMemoryTodoStore,
        result: Result<Option<TodoRecord>, StoreError>,
    ) -> bool {
        &&& after@ == self@.update(id, text, done).0
        &&& result == Ok::<Option<TodoRecord>, StoreError>(self@.update(id, text, done).1)
    }

    open spec fn deletes(
        &self,
        id: i64,
        after: InMemoryTodoStore,
        result: Result<bool, StoreError>,
    ) -> bool {
        &&& after@ == self@.delete(id).0
        &&& result == Ok::<bool, StoreError>(self@.delete(id).1)
    }

    fn has_room_for_create(&self) -> (r: bool) {
        self.next_id < i64::MAX
    }

    fn create(&mut self, text: String) -> (r: Result<TodoRecord, StoreError>)
        ensures
            r == Ok::<TodoRecord, StoreError>(old(self)@.create(text).1),
            final(self)@ == old(self)@.create(text).0,
            final(self)@.well_formed(),
    {
        proof {
            use_type_invariant(&*self);
        }
        let id = self.next_id;
        let record = TodoRecord { id, text, done: false };
        let mut todos = BTreeMap::new();
        std::mem::swap(&mut todos, &mut self.todos);
        self.next_id = id + 1;
        let ghost before = todos@;
        todos.insert(id, record.duplicate());
        assert(before == old(self)@.todos);
        assert(todos@ == before.insert(id, record));
        assert(TodoModel { next_id: id + 1, todos: todos@ }.well_formed());
        self.todos = todos;
        proof {
            use_type_invariant(&*self);
        }
        Ok(record)
    }

    fn get(&self, id: i64) -> (r: Result<Option<TodoRecord>, StoreError>)
        ensures
            r == Ok::<Option<TodoRecord>, StoreError>(self@.get(id)),
            self@.well_formed(),
    {
        proof {
            use_type_invariant(self);
        }
        match self.todos.get(&id) {
            Some(record) => Ok(Some(record.duplicate())),
            None => Ok(None),
        }
    }

    fn list(&self) -> (r: Result<Vec<TodoRecord>, StoreError>)
        ensures
            r matches Ok(records) && self@.listed(records@),
            self@.well_formed(),
    {
        proof {
            use_type_invariant(self);
        }
        let values = self.todos.values();
        let ghost keys = choose|keys: Seq<i64>|
            {
                &&& vstd::std_specs::btree::increasing_seq(keys)
                &&& keys.to_set() == self.todos@.dom()
                &&& keys.no_duplicates()
                &&& vstd::std_specs::iter::IteratorSpec::remaining(&values) == keys.map(|i: int, k: i64| &self.todos@[k])
            };
        let mut records: Vec<TodoRecord> = Vec::new();
        for record in it: values
            invariant
                it.seq() == keys.map(|i: int, k: i64| &self.todos@[k]),
                records@.len() == it.index(),
                forall|i: int| 0 <= i < records@.len() ==> #[trigger] records@[i] == self.todos@[keys[i]],
        {
            records.push(record.duplicate());
        }
        proof {
            lemma_sorted_listing(self@, keys, records@);
        }
        Ok(records)
    }

    fn update(&mut self, id: i64, text: Option<String>, done: Option<bool>) -> (r: Result<
        Option<TodoRecord>,
        StoreError,
    >)
        ensures
            r == Ok::<Option<TodoRecord>, StoreError>(old(self)@.update(id, text, done).1),
            final(self)@ == old(self)@.update(id, text, done).0,
            final(self)@.well_formed(),
    {
        proof {
            use_type_invariant(&*self);
        }
        let existing = match self.todos.get(&id) {
            Some(record) => record.duplicate(),
            None => {
                return Ok(None);
            },
        };
        let record = TodoRecord {
            id: existing.id,
            text: match text {
                Some(t) => t,
                None => existing.text,
            },
            done: match done {
                Some(d) => d,
                None => existing.done,
            },
        };
        let mut todos = BTreeMap::new();
        std::mem::swap(&mut todos, &mut self.todos);
        todos.insert(id, record.duplicate());
        self.todos = todos;
        proof {
            use_type_invariant(&*self);
        }
        Ok(Some(record))
    }

    fn delete(&mut self, id: i64) -> (r: Result<bool, StoreError>)
        ensures
            r == Ok::<bool, StoreError>(old(self)@.delete(id).1),
            final(self)@ == old(self)@.delete(id).0,
            final(self)@.well_formed(),
    {
        proof {
            use_type_invariant(&*self);
        }
        let mut todos = BTreeMap::new();
        std::mem::swap(&mut todos, &mut self.todos);
        let ghost before = todos@;
        let removed = todos.remove(&id);
        assert(before == old(self)@.todos);
        assert(todos@ == before.remove(id));
        assert(TodoModel { next_id: self.next_id as int, todos: todos@ }.well_formed());
        self.todos = todos;
        proof {
            use_type_invariant(&*self);
        }
        Ok(removed.is_some())
    }
}

/// What an RPC error says: its kind and message.
pub open spec fn error_view(e: RpcError) -> (ErrorCode, Seq<char>) {
    (e.code, e.message@)
}

/// What an answer says: its value, or what its error says.
pub open spec fn outcome_view<T>(r: Result<T, RpcError>) -> Result<T, (ErrorCode, Seq<char>)> {
    match r {
        Ok(v) => Ok(v),
        Err(e) => Err(error_view(e)),
    }
}

/// The message of the error for a missing todo `id`: `todo {id} not found`.
pub open spec fn not_found_message(id: i64) -> Seq<char> {
    "todo "@ + signed_decimal(id as int) + " not found"@
}

/// The answer to a request naming todo `id`, which does not exist.
pub fn not_found(id: i64) -> (r: RpcError)
    ensures
        error_view(r) == (ErrorCode::NotFound, not_found_message(id)),
{
    let mut message = String::from_str("todo ");
    push_signed_decimal(&mut message, id);
    message.append(" not found");
    RpcError { code: ErrorCode::NotFound, message }
}

/// Whether a new todo may have `text`: an empty text is refused as an
/// invalid argument.
pub open spec fn new_text_outcome(text: Seq<char>) -> Result<(), (ErrorCode, Seq<char>)> {
    if text.len() == 0 {
        Err((ErrorCode::InvalidArgument, "text must not be empty"@))
    } else {
        Ok(())
    }
}

/// Checks the text of a new todo (see [`new_text_outcome`]).
pub fn validate_new_text(text: &str) -> (r: Result<(), RpcError>)
    ensures
        outcome_view(r) == new_text_outcome(text@),
{
    if text.is_empty() {
        Err(
            RpcError {
                code: ErrorCode::InvalidArgument,
                message: String::from_str("text must not be empty"),
            },
        )
    } else {
        Ok(())
    }
}

/// The answer for what the store gave back on a create: the stored todo, or
/// an internal error carrying the store's message.
pub open spec fn create_outcome(stored: Result<TodoRecord, StoreError>) -> Result<
    TodoRecord,
    (ErrorCode, Seq<char>),
> {
    match stored {
        Ok(record) => Ok(record),
        Err(e) => Err((ErrorCode::Internal, e@)),
    }
}

/// Answers a create from what the store gave back (see
/// [`create_outcome`]).
pub fn create_reply(stored: Result<TodoRecord, StoreError>) -> (r: Result<TodoRecord, RpcError>)
    ensures
        outcome_view(r) == create_outcome(stored),
{
    match stored {
        Ok(record) => Ok(record),
        Err(e) => Err(e.into_rpc_error()),
    }
}

/// The answer for what the store gave back on a read or an update of todo
/// `id`: the todo, a not-found error when the store has none, or an
/// internal error carrying the store's message.
pub open spec fn found_outcome(id: i64, stored: Result<Option<TodoRecord>, StoreError>) -> Result<
    TodoRecord,
    (ErrorCode, Seq<char>),
> {
    match stored {
        Ok(Some(record)) => Ok(record),
        Ok(None) => Err((ErrorCode::NotFound, not_found_message(id))),
        Err(e) => Err((ErrorCode::Internal, e@)),
    }
}

/// Answers a read or an update of todo `id` from what the store gave back
/// (see [`found_outcome`]).
pub fn found_reply(id: i64, stored: Result<Option<TodoRecord>, StoreError>) -> (r: Result<
    TodoRecord,
    RpcError,
>)
    ensures
        outcome_view(r) == found_outcome(id, stored),
{
    match stored {
        Ok(Some(record)) => Ok(record),
        Ok(None) => Err(not_found(id)),
        Err(e) => Err(e.into_rpc_error()),
    }
}

/// The answer for what the store gave back on a listing: the todos, or an
/// internal error carrying the store's message.
pub open spec fn list_outcome(stored: Result<Seq<TodoRecord>, StoreError>) -> Result<
    Seq<TodoRecord>,
    (ErrorCode, Seq<char>),
> {
    match stored {
        Ok(records) => Ok(records),
        Err(e) => Err((ErrorCode::Internal, e@)),
    }
}

/// Answers a listing from what the store gave back (see [`list_outcome`]).
pub fn list_reply(stored: Result<Vec<TodoRecord>, StoreError>) -> (r: Result<
    Vec<TodoRecord>,
    RpcError,
>)
    ensures
        match r {
            Ok(records) => list_outcome(listing_view(stored)) == Ok::<
                Seq<TodoRecord>,
                (ErrorCode, Seq<char>),
            >(records@),
            Err(e) => list_outcome(listing_view(stored)) == Err::<
                Seq<TodoRecord>,
                (ErrorCode, Seq<char>),
            >(error_view(e)),
        },
        stored matches Ok(records) ==> (r matches Ok(answered) && answered@ == records@),
        stored matches Err(e) ==> (r matches Err(err) && err.code == ErrorCode::Internal
            && err.message@ == e@),
{
    match stored {
        Ok(records) => Ok(records),
        Err(e) => Err(e.into_rpc_error()),
    }
}

/// The answer for what the store gave back on a delete of todo `id`: done
/// when there was such a todo, a not-found error when there was none, or an
/// internal error carrying the store's message.
pub open spec fn delete_outcome(id: i64, stored: Result<bool, StoreError>) -> Result<
    (),
    (ErrorCode, Seq<char>),
> {
    match stored {
        Ok(true) => Ok(()),
        Ok(false) => Err((ErrorCode::NotFound, not_found_message(id))),
        Err(e) => Err((ErrorCode::Internal, e@)),
    }
}

/// Answers a delete of todo `id` from what the store gave back (see
/// [`delete_outcome`]).
pub fn delete_reply(id: i64, stored: Result<bool, StoreError>) -> (r: Result<(), RpcError>)
    ensures
        outcome_view(r) == delete_outcome(id, stored),
{
    match stored {
        Ok(true) => Ok(()),
        Ok(false) => Err(not_found(id)),
        Err(e) => Err(e.into_rpc_error()),
    }
}

/// Whether a delete removed a todo, from the number of rows it changed as
/// the database reports it (no report counts as none).
pub fn rows_were_deleted(changes: Option<usize>) -> (r: bool)
    ensures
        r == (changes matches Some(c) && c > 0),
{
    match changes {
        Some(c) => c > 0,
        None => false,
    }
}

/// The Todo service over a store `S`.
pub struct TodoServer<S> {
    store: S,
}

impl<S> TodoServer<S> {
    /// The store behind the server.
    pub closed spec fn backing(&self) -> S {
        self.store
    }

    /// A server over `store`.
    pub fn new(store: S) -> (r: TodoServer<S>)
        ensures
            r.backing() == store,
    {
        TodoServer { store }
    }

    /// The store behind the server.
    pub fn store(&self) -> (r: &S)
        ensures
            *r == self.backing(),
    {
        &self.store
    }
}

impl<S: TodoStore> TodoServer<S> {
    /// Creates a todo with `text`. An empty text is refused as an invalid
    /// argument without touching the store; otherwise the store creates the
    /// todo and the answer is what [`create_reply`] makes of its result.
    pub fn create_todo(&mut self, text: String) -> (r: Result<TodoRecord, RpcError>)
        requires
            text@.len() > 0 ==> old(self).backing().room_for_create(),
        ensures
            text@.len() == 0 ==> (r matches Err(e) && error_view(e) == (
                ErrorCode::InvalidArgument,
                "text must not be empty"@,
            )),
            text@.len() == 0 ==> final(self).backing() == old(self).backing(),
            text@.len() > 0 ==> exists|stored: Result<TodoRecord, StoreError>|
                #[trigger] old(self).backing().creates(text, final(self).backing(), stored)
                    && outcome_view(r) == create_outcome(stored),
            r matches Ok(record) ==> old(self).backing().creates(
                text,
                final(self).backing(),
                Ok(record),
            ),
            text@.len() > 0 ==> match r {
                Ok(record) => record.text@ == text@ && !record.done,
                Err(e) => e.code == ErrorCode::Internal,
            },
    {
        match validate_new_text(text.as_str()) {
            Err(e) => Err(e),
            Ok(()) => {
                let stored = self.store.create(text);
                let ghost seen = stored;
                let r = create_reply(stored);
                assert(old(self).backing().creates(text, self.backing(), seen));
                r
            },
        }
    }

    /// Reads todo `id`: the todo, a not-found error when there is none, or
    /// an internal error when the store fails (see [`found_reply`]).
    pub fn get_todo(&self, id: i64) -> (r: Result<TodoRecord, RpcError>)
        ensures
            exists|stored: Result<Option<TodoRecord>, StoreError>|
                #[trigger] self.backing().gets(id, stored) && outcome_view(r) == found_outcome(
                    id,
                    stored,
                ),
            r matches Ok(record) ==> self.backing().gets(id, Ok(Some(record))),
            match r {
                Ok(record) => record.id == id,
                Err(e) => error_view(e) == (ErrorCode::NotFound, not_found_message(id)) || e.code
                    == ErrorCode::Internal,
            },
    {
        let stored = self.store.get(id);
        let ghost seen = stored;
        let r = found_reply(id, stored);
        assert(self.backing().gets(id, seen));
        r
    }

    /// Lists all todos in increasing id order, or an internal error when the
    /// store fails (see [`list_reply`]).
    pub fn list_todos(&self) -> (r: Result<Vec<TodoRecord>, RpcError>)
        ensures
            exists|stored: Result<Seq<TodoRecord>, StoreError>|
                #[trigger] self.backing().lists(stored) && match r {
                    Ok(records) => list_outcome(stored) == Ok::<
                        Seq<TodoRecord>,
                        (ErrorCode, Seq<char>),
                    >(records@),
                    Err(e) => list_outcome(stored) == Err::<
                        Seq<TodoRecord>,
                        (ErrorCode, Seq<char>),
                    >(error_view(e)),
                },
            r matches Ok(records) ==> self.backing().lists(Ok(records@)),
            match r {
                Ok(records) => forall|i: int, j: int|
                    0 <= i < j < records@.len() ==> (#[trigger] records@[i]).id < (
                    #[trigger] records@[j]).id,
                Err(e) => e.code == ErrorCode::Internal,
            },
    {
        let stored = self.store.list();
        let ghost seen = listing_view(stored);
        let r = list_reply(stored);
        assert(self.backing().lists(seen));
        r
    }

    /// Replaces the given fields of todo `id` and answers with the updated
    /// todo, a not-found error when there is none, or an internal error when
    /// the store fails (see [`found_reply`]).
    pub fn update_todo(&mut self, id: i64, text: Option<String>, done: Option<bool>) -> (r: Result<
        TodoRecord,
        RpcError,
    >)
        ensures
            exists|stored: Result<Option<TodoRecord>, StoreError>|
                #[trigger] old(self).backing().updates(id, text, done, final(self).backing(), stored)
                    && outcome_view(r) == found_outcome(id, stored),
            r matches Ok(record) ==> old(self).backing().updates(
                id,
                text,
                done,
                final(self).backing(),
                Ok(Some(record)),
            ),
            match r {
                Ok(record) => {
                    &&& record.id == id
                    &&& text matches Some(t) ==> record.text@ == t@
                    &&& done matches Some(d) ==> record.done == d
                },
                Err(e) => error_view(e) == (ErrorCode::NotFound, not_found_message(id)) || e.code
                    == ErrorCode::Internal,
            },
    {
        let stored = self.store.update(id, text, done);
        let ghost seen = stored;
        let r = found_reply(id, stored);
        assert(old(self).backing().updates(id, text, done, self.backing(), seen));
        r
    }

    /// Deletes todo `id`: done when it existed, a not-found error when it
    /// did not, or an internal error when the store fails (see
    /// [`delete_reply`]).
    pub fn delete_todo(&mut self, id: i64) -> (r: Result<(), RpcError>)
        ensures
            exists|stored: Result<bool, StoreError>|
                #[trigger] old(self).backing().deletes(id, final(self).backing(), stored)
                    && outcome_view(r) == delete_outcome(id, stored),
            r is Ok ==> old(self).backing().deletes(id, final(self).backing(), Ok(true)),
            r matches Err(e) ==> error_view(e) == (ErrorCode::NotFound, not_found_message(id))
                || e.code == ErrorCode::Internal,
    {
        let stored = self.store.delete(id);
        let ghost seen = stored;
        let r = delete_reply(id, stored);
        assert(old(self).backing().deletes(id, self.backing(), seen));
        r
    }
}

/// Over the in-memory store, the service answers a read of a todo it has
/// just created with that todo: the create is answered with a todo holding
/// the text, not done, under the next id, and reading that id afterwards
/// gives the same todo.
pub proof fn service_reads_back_a_create(
    before: InMemoryTodoStore,
    text: String,
    after: InMemoryTodoStore,
    created: Result<TodoRecord, StoreError>,
    read: Result<Option<TodoRecord>, StoreError>,
)
    requires
        before@.well_formed(),
        before.room_for_create(),
        before.creates(text, after, created),
        after.gets(created->Ok_0.id, read),
    ensures
        create_outcome(created) == Ok::<TodoRecord, (ErrorCode, Seq<char>)>(created->Ok_0),
        created->Ok_0.text == text,
        !created->Ok_0.done,
        created->Ok_0.id == before@.next_id,
        found_outcome(created->Ok_0.id, read) == Ok::<TodoRecord, (ErrorCode, Seq<char>)>(
            created->Ok_0,
        ),
{
    get_after_create(before@, text);
}

/// A listing the store gives is answered as it is: every todo it holds,
/// done or not, in its order.
pub proof fn listing_is_answered_whole(records: Seq<TodoRecord>)
    ensures
        list_outcome(Ok::<Seq<TodoRecord>, StoreError>(records)) == Ok::<
            Seq<TodoRecord>,
            (ErrorCode, Seq<char>),
        >(records),
{
}

/// Over the in-memory store, the service answers a listing with every
/// stored todo, done or not, exactly once and in increasing id order.
pub proof fn service_lists_every_todo(
    store: InMemoryTodoStore,
    stored: Result<Seq<TodoRecord>, StoreError>,
)
    requires
        store.lists(stored),
    ensures
        list_outcome(stored) matches Ok(answered) && {
            &&& store@.listed(answered)
            &&& forall|id: i64|
                #[trigger] store@.todos.contains_key(id) ==> exists|i: int|
                    0 <= i < answered.len() && answered[i] == store@.todos[id]
            &&& forall|i: int|
                0 <= i < answered.len() ==> store@.todos.contains_key((#[trigger] answered[i]).id)
        },
{
    let answered = stored->Ok_0;
    assert forall|id: i64| #[trigger] store@.todos.contains_key(id) implies exists|i: int|
        0 <= i < answered.len() && answered[i] == store@.todos[id] by {
        let i = choose|i: int| 0 <= i < answered.len() && (#[trigger] answered[i]).id == id;
        assert(answered[i] == store@.todos[answered[i].id]);
    }
}

/// Over the in-memory store, once a todo is deleted the service answers a
/// read of it as not found; the delete itself succeeds exactly when the
/// todo existed.
pub proof fn service_reads_nothing_after_delete(
    before: InMemoryTodoStore,
    id: i64,
    after: InMemoryTodoStore,
    deleted: Result<bool, StoreError>,
    read: Result<Option<TodoRecord>, StoreError>,
)
    requires
        before@.well_formed(),
        before.deletes(id, after, deleted),
        after.gets(id, read),
    ensures
        delete_outcome(id, deleted) is Ok <==> before@.get(id) is Some,
        found_outcome(id, read) == Err::<TodoRecord, (ErrorCode, Seq<char>)>(
            (ErrorCode::NotFound, not_found_message(id)),
        ),
{
    get_after_delete(before@, id);
}

/// Over the in-memory store, the service answers an update with the todo
/// that a read gives back afterwards.
pub proof fn service_reads_back_an_update(
    before: InMemoryTodoStore,
    id: i64,
    text: Option<String>,
    done: Option<bool>,
    after: InMemoryTodoStore,
    updated: Result<Option<TodoRecord>, StoreError>,
    read: Result<Option<TodoRecord>, StoreError>,
)
    requires
        before@.well_formed(),
        before.updates(id, text, done, after, updated),
        after.gets(id, read),
    ensures
        found_outcome(id, updated) == found_outcome(id, read),
{
    get_after_update(before@, id, text, done);
}

/// The records of the increasing keys of a well-formed store list it.
proof fn lemma_sorted_listing(m: TodoModel, keys: Seq<i64>, records: Seq<TodoRecord>)
    requires
        m.well_formed(),
        vstd::std_specs::btree::increasing_seq(keys),
        keys.to_set() == m.todos.dom(),
        records.len() == keys.len(),
        forall|i: int| 0 <= i < records.len() ==> #[trigger] records[i] == m.todos[keys[i]],
    ensures
        m.listed(records),
{
    assert forall|i: int| 0 <= i < records.len() implies m.todos.contains_key(keys[i]) && (
    #[trigger] records[i]).id == keys[i] by {
        assert(keys.to_set().contains(keys[i]));
    }
    assert forall|i: int, j: int| 0 <= i < j < records.len() implies (#[trigger] records[i]).id < (
    #[trigger] records[j]).id by {
        assert(records[i].id == keys[i]);
        assert(records[j].id == keys[j]);
        assert(vstd::std_specs::cmp::OrdSpec::cmp_spec(&keys[i], &keys[j]) is Less);
    }
    assert forall|id: i64| #[trigger] m.todos.contains_key(id) implies exists|i: int|
        0 <= i < records.len() && (#[trigger] records[i]).id == id by {
        assert(keys.to_set().contains(id));
        let i = choose|i: int| 0 <= i < keys.len() && keys[i] == id;
        assert(records[i].id == id);
    }
}

} // verus!
