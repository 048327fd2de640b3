//! State: the sole entry to everything that a slice keeps.
//!
//! Each function plans a call. `transport::call` says what is to be done about
//! it, and what comes back is read by the function that the plan names.
use vstd::prelude::*;
use vstd::string::*;

use crate::json;
use crate::json::{Json, Object, Tree};
use crate::table::Table;
use crate::text;
use crate::wire;
use crate::wire::Request;

pub use crate::deed::{jwt, keyauth, vault};

pub mod blob;
pub mod cache;
pub mod lock;
pub mod nosql;
pub mod realtime;
pub mod secret;

verus! {

// ---------------------------------------------------------------------------
// Queues
// ---------------------------------------------------------------------------

/// A queue.
#[derive(Debug)]
pub struct QueueHandle {
    name: String,
}

impl View for QueueHandle {
    type V = Seq<char>;

    closed spec fn view(&self) -> Seq<char> {
        self.name@
    }
}

/// The queue of that name.
pub fn queue(name: &str) -> (r: QueueHandle)
    ensures
        r@ == name@,
{
    QueueHandle { name: name.to_owned() }
}

/// The call that appends a message to a queue.
pub open spec fn pushing(name: Seq<char>, body: Tree) -> wire::Call {
    wire::post("queue/push"@, map!["queue"@ => Tree::Text(name), "body"@ => body])
}

/// The call that takes the first message out of a queue.
pub open spec fn popping(name: Seq<char>) -> wire::Call {
    wire::post("queue/pop"@, map!["queue"@ => Tree::Text(name)])
}

impl QueueHandle {
    /// Appends a message.
    pub fn push(&self, body: Json) -> (r: Request)
        ensures
            r@ == pushing(self@, body@),
    {
        let mut fields: Object = Table::empty();
        fields.set("queue", Json::text(self.name.as_str()));
        fields.set("body", body);
        wire::post_request("queue/push", fields)
    }

    /// Takes the first message out. The answer is the message.
    pub fn pop(&self) -> (r: Request)
        ensures
            r@ == popping(self@),
    {
        let mut fields: Object = Table::empty();
        fields.set("queue", Json::text(self.name.as_str()));
        wire::post_request("queue/pop", fields)
    }
}

// ---------------------------------------------------------------------------
// SQL
// ---------------------------------------------------------------------------

/// A database.
#[derive(Debug)]
pub struct SqlDb {
    name: String,
}

impl View for SqlDb {
    type V = Seq<char>;

    closed spec fn view(&self) -> Seq<char> {
        self.name@
    }
}

/// A transaction on a database.
#[derive(Debug)]
pub struct SqlTx {
    db: String,
    token: String,
}

/// What a transaction is: its database and its token.
#[verifier::ext_equal]
pub struct Transaction {
    pub db: Seq<char>,
    pub token: Seq<char>,
}

impl View for SqlTx {
    type V = Transaction;

    closed spec fn view(&self) -> Transaction {
        Transaction { db: self.db@, token: self.token@ }
    }
}

/// What a statement changed.
#[derive(Debug, Clone, Copy, PartialEq, Eq)]
pub struct SqlExecResult {
    pub rows_affected: i64,
    pub last_insert_id: i64,
}

impl Default for SqlExecResult {
    /// Nothing was changed.
    fn default() -> (r: SqlExecResult)
        ensures
            r.rows_affected == 0,
            r.last_insert_id == 0,
    {
        SqlExecResult { rows_affected: 0, last_insert_id: 0 }
    }
}

/// The database of that name.
pub fn sql(name: &str) -> (r: SqlDb)
    ensures
        r@ == name@,
{
    SqlDb { name: name.to_owned() }
}

/// The fields of a call that runs a statement on a database.
pub open spec fn statement(db: Seq<char>, sql: Seq<char>, args: Seq<Tree>) -> Map<Seq<char>, Tree> {
    map!["db"@ => Tree::Text(db), "sql"@ => Tree::Text(sql), "args"@ => Tree::List(args)]
}

/// The fields of a call that runs a statement within a transaction.
pub open spec fn statement_within(t: Transaction, sql: Seq<char>, args: Seq<Tree>) -> Map<
    Seq<char>,
    Tree,
> {
    statement(t.db, sql, args).insert("tx"@, Tree::Text(t.token))
}

fn statement_body(db: &str, sql: &str, args: &[Json]) -> (r: Object)
    ensures
        r.fields() == statement(db@, sql@, json::trees(args@)),
{
    broadcast use json::lemma_array;

    let mut body: Object = Table::empty();
    body.set("db", Json::text(db));
    body.set("sql", Json::text(sql));
    body.set("args", Json::Array(json::clone_all(args)));
    body
}

/// The items of the list in the field `k`: none where there is no such list.
pub open spec fn items_in(v: Tree, k: Seq<char>) -> Seq<Tree> {
    match v.field(k) {
        Some(f) => json::or_else(f.list(), Seq::empty()),
        None => Seq::empty(),
    }
}

/// The fields of a row: each column with the cell at its position, or null where
/// the row is too short. A later column of the same name overrides an earlier one.
pub open spec fn row_fields(names: Seq<Seq<char>>, cells: Seq<Tree>) -> Map<Seq<char>, Tree>
    decreases names.len(),
{
    if names.len() == 0 {
        Map::empty()
    } else {
        let i = names.len() - 1;
        row_fields(names.drop_last(), cells).insert(
            names.last(),
            if i < cells.len() {
                cells[i]
            } else {
                Tree::Null
            },
        )
    }
}

/// The rows that an answer gives.
pub open spec fn rows_in(answer: Option<Tree>) -> Seq<Map<Seq<char>, Tree>> {
    match answer {
        Some(v) => {
            let names = json::texts_in(items_in(v, "columns"@));
            let rows = items_in(v, "rows"@);
            Seq::new(
                rows.len(),
                |i: int| row_fields(names, json::or_else(rows[i].list(), Seq::empty())),
            )
        },
        None => Seq::empty(),
    }
}

/// What each object of a row means.
pub open spec fn objects(s: Seq<Object>) -> Seq<Map<Seq<char>, Tree>> {
    s.map_values(|o: Object| o.fields())
}

fn column_names(v: &Json) -> (r: Vec<String>)
    ensures
        text::texts(r@) == json::texts_in(items_in(v@, "columns"@)),
{
    match v.get("columns") {
        Some(f) => match f.as_array() {
            Some(a) => json::take_texts(a),
            None => no_names(),
        },
        None => no_names(),
    }
}

fn no_names() -> (r: Vec<String>)
    ensures
        text::texts(r@) == Seq::<Seq<char>>::empty(),
{
    let none: Vec<String> = Vec::new();
    assert(text::texts(none@) =~= Seq::empty());
    none
}

fn row_object(names: &Vec<String>, row: &Json) -> (r: Object)
    ensures
        r.fields() == row_fields(
            text::texts(names@),
            json::or_else(row@.list(), Seq::empty()),
        ),
{
    let none: Vec<Json> = Vec::new();
    assert(json::trees(none@) =~= Seq::empty());
    let cells = match row.as_array() {
        Some(a) => a,
        None => &none,
    };
    let ghost columns = text::texts(names@);
    let ghost held = json::trees(cells@);
    let mut out: Object = Table::empty();
    let mut i: usize = 0;
    while i < names.len()
        invariant
            0 <= i <= names@.len(),
            columns == text::texts(names@),
            held == json::trees(cells@),
            out.fields() == row_fields(columns.take(i as int), held),
        decreases names@.len() - i,
    {
        let cell = if i < cells.len() {
            cells[i].clone()
        } else {
            Json::Null
        };
        out.set(names[i].as_str(), cell);
        proof {
            assert(columns.take(i as int + 1).drop_last() =~= columns.take(i as int));
            assert(columns.take(i as int + 1).last() == names@[i as int]@);
        }
        i += 1;
    }
    assert(columns.take(i as int) =~= columns);
    out
}

/// Reads the rows out of the answer to a query.
pub fn sql_rows(answer: Option<Json>) -> (r: Vec<Object>)
    ensures
        objects(r@) == rows_in(json::tree_opt(answer)),
{
    let mut out: Vec<Object> = Vec::new();
    let v = match answer {
        Some(v) => v,
        None => {
            assert(objects(out@) =~= Seq::empty());
            return out;
        },
    };
    let names = column_names(&v);
    let ghost columns = text::texts(names@);
    let none: Vec<Json> = Vec::new();
    assert(json::trees(none@) =~= Seq::empty());
    let rows = match v.get("rows") {
        Some(f) => match f.as_array() {
            Some(a) => a,
            None => &none,
        },
        None => &none,
    };
    let ghost all = items_in(v@, "rows"@);
    let mut i: usize = 0;
    while i < rows.len()
        invariant
            0 <= i <= rows@.len(),
            out@.len() == i,
            all == json::trees(rows@),
            columns == text::texts(names@),
            forall|j: int|
                0 <= j < i ==> #[trigger] out@[j].fields() == row_fields(
                    columns,
                    json::or_else(all[j].list(), Seq::empty()),
                ),
        decreases rows@.len() - i,
    {
        out.push(row_object(&names, &rows[i]));
        i += 1;
    }
    assert(objects(out@) =~= rows_in(Some(v@)));
    out
}

/// The signed number in the field `k` of an answer: zero where it has none.
pub open spec fn change_in(answer: Option<Tree>, k: Seq<char>) -> int {
    match answer {
        Some(v) => json::or_else(v.integer_field(k, i64::MIN as int, i64::MAX as int), 0),
        None => 0,
    }
}

fn take_change(v: &Json, key: &str) -> (r: i64)
    ensures
        r == change_in(Some(v@), key@),
{
    match v.get(key) {
        Some(x) => match x.as_i64() {
            Some(n) => n,
            None => 0,
        },
        None => 0,
    }
}

/// Reads what a statement changed out of the answer.
pub fn sql_exec_from_value(answer: Option<Json>) -> (r: SqlExecResult)
    ensures
        r.rows_affected == change_in(json::tree_opt(answer), "rows_affected"@),
        r.last_insert_id == change_in(json::tree_opt(answer), "last_insert_id"@),
{
    match answer {
        Some(v) => SqlExecResult {
            rows_affected: take_change(&v, "rows_affected"),
            last_insert_id: take_change(&v, "last_insert_id"),
        },
        None => SqlExecResult::default(),
    }
}

/// The transaction that an answer begins.
pub open spec fn transaction_in(db: Seq<char>, answer: Option<Tree>) -> Option<Transaction> {
    match answer {
        Some(v) => match v.text_field("tx"@) {
            Some(token) => Some(Transaction { db, token }),
            None => None,
        },
        None => None,
    }
}

/// What an optional transaction is.
pub open spec fn transaction_opt(o: Option<SqlTx>) -> Option<Transaction> {
    match o {
        Some(t) => Some(t@),
        None => None,
    }
}

impl SqlDb {
    /// Runs a query. `sql_rows` reads the rows out of the answer.
    pub fn query(&self, sql: &str, args: &[Json]) -> (r: Request)
        ensures
            r@ == wire::post("sql/query"@, statement(self@, sql@, json::trees(args@))),
    {
        wire::post_request("sql/query", statement_body(self.name.as_str(), sql, args))
    }

    /// Runs a statement. `sql_exec_from_value` reads what it changed out of the
    /// answer.
    pub fn execute(&self, sql: &str, args: &[Json]) -> (r: Request)
        ensures
            r@ == wire::post("sql/execute"@, statement(self@, sql@, json::trees(args@))),
    {
        wire::post_request("sql/execute", statement_body(self.name.as_str(), sql, args))
    }

    /// Begins a transaction. `begun` reads it out of the answer.
    pub fn begin(&self) -> (r: Request)
        ensures
            r@ == wire::post("sql/begin"@, map!["db"@ => Tree::Text(self@)]),
    {
        let mut body: Object = Table::empty();
        body.set("db", Json::text(self.name.as_str()));
        wire::post_request("sql/begin", body)
    }

    /// Reads the transaction out of the answer.
    pub fn begun(&self, answer: Option<Json>) -> (r: Option<SqlTx>)
        ensures
            transaction_opt(r) == transaction_in(self@, json::tree_opt(answer)),
    {
        match answer {
            Some(v) => match v.text_field("tx") {
                Some(token) => Some(SqlTx { db: self.name.clone(), token }),
                None => None,
            },
            None => None,
        }
    }
}

impl SqlTx {
    /// Runs a query within the transaction. `sql_rows` reads the rows out of the
    /// answer.
    pub fn query(&self, sql: &str, args: &[Json]) -> (r: Request)
        ensures
            r@ == wire::post("sql/query"@, statement_within(self@, sql@, json::trees(args@))),
    {
        let mut body = statement_body(self.db.as_str(), sql, args);
        body.set("tx", Json::text(self.token.as_str()));
        wire::post_request("sql/query", body)
    }

    /// Runs a statement within the transaction. `sql_exec_from_value` reads what
    /// it changed out of the answer.
    pub fn execute(&self, sql: &str, args: &[Json]) -> (r: Request)
        ensures
            r@ == wire::post("sql/execute"@, statement_within(self@, sql@, json::trees(args@))),
    {
        let mut body = statement_body(self.db.as_str(), sql, args);
        body.set("tx", Json::text(self.token.as_str()));
        wire::post_request("sql/execute", body)
    }

    fn settling(&self, path: &str) -> (r: Request)
        ensures
            r@ == wire::post(path@, map!["tx"@ => Tree::Text(self@.token)]),
    {
        let mut body: Object = Table::empty();
        body.set("tx", Json::text(self.token.as_str()));
        wire::post_request(path, body)
    }

    /// Commits the transaction.
    pub fn commit(&self) -> (r: Request)
        ensures
            r@ == wire::post("sql/commit"@, map!["tx"@ => Tree::Text(self@.token)]),
    {
        self.settling("sql/commit")
    }

    /// Rolls the transaction back.
    pub fn rollback(&self) -> (r: Request)
        ensures
            r@ == wire::post("sql/rollback"@, map!["tx"@ => Tree::Text(self@.token)]),
    {
        self.settling("sql/rollback")
    }
}

// ---------------------------------------------------------------------------
// Laws
// ---------------------------------------------------------------------------

/// A row has the columns for its fields, and no others.
pub proof fn rows_have_the_columns(names: Seq<Seq<char>>, cells: Seq<Tree>, k: Seq<char>)
    ensures
        row_fields(names, cells).contains_key(k) <==> names.contains(k),
    decreases names.len(),
{
    if names.len() > 0 {
        let before = names.drop_last();
        rows_have_the_columns(before, cells, k);
        if names.contains(k) && names.last() != k {
            let i = choose|i: int| 0 <= i < names.len() && names[i] == k;
            assert(before[i] == k);
        }
        if before.contains(k) {
            let i = choose|i: int| 0 <= i < before.len() && before[i] == k;
            assert(names[i] == k);
        }
        if names.last() == k {
            assert(names[names.len() - 1] == k);
        }
    }
}

/// A column that no later one overrides holds the cell at its position, or null
/// where the row is too short.
pub proof fn columns_hold_their_cells(names: Seq<Seq<char>>, cells: Seq<Tree>, i: int)
    requires
        0 <= i < names.len(),
        forall|j: int| i < j < names.len() ==> names[j] != names[i],
    ensures
        row_fields(names, cells)[names[i]] == (if i < cells.len() {
            cells[i]
        } else {
            Tree::Null
        }),
    decreases names.len(),
{
    let before = names.drop_last();
    if i < names.len() - 1 {
        assert(before[i] == names[i]);
        assert forall|j: int| i < j < before.len() implies before[j] != before[i] by {
            assert(before[j] == names[j]);
        }
        columns_hold_their_cells(before, cells, i);
        assert(names[names.len() - 1] != names[i]);
    }
}

/// There are as many rows as the answer lists.
pub proof fn every_row_is_read(v: Tree)
    ensures
        rows_in(Some(v)).len() == items_in(v, "rows"@).len(),
{
}

/// Every cell of an answer is read as it is, whatever value it is: in the row it
/// stands in, under the name of its column. A cell that the row does not have is
/// null, and a column that a later one of its name overrides is left to that one.
pub proof fn cells_are_read_as_they_are(
    m: Map<Seq<char>, Tree>,
    columns: Seq<Tree>,
    rows: Seq<Tree>,
    cells: Seq<Tree>,
    r: int,
    i: int,
)
    requires
        m.contains_key("columns"@),
        m["columns"@] == Tree::List(columns),
        m.contains_key("rows"@),
        m["rows"@] == Tree::List(rows),
        0 <= r < rows.len(),
        rows[r] == Tree::List(cells),
        forall|j: int| 0 <= j < columns.len() ==> (#[trigger] columns[j]) is Text,
        0 <= i < columns.len(),
        forall|j: int| i < j < columns.len() ==> #[trigger] columns[j] != columns[i],
    ensures
        ({
            let read = rows_in(Some(Tree::Fields(m)));
            let name = columns[i]->Text_0;
            &&& read.len() == rows.len()
            &&& read[r].contains_key(name)
            &&& i < cells.len() ==> read[r][name] == cells[i]
            &&& i >= cells.len() ==> read[r][name] == Tree::Null
        }),
{
    let names = json::texts_in(columns);
    json::laws::lists_of_texts_are_picked_out_whole(columns);
    assert(columns[i] == Tree::Text(names[i]));
    assert forall|j: int| i < j < names.len() implies names[j] != names[i] by {
        assert(columns[j] == Tree::Text(names[j]));
    }
    columns_hold_their_cells(names, cells, i);
    rows_have_the_columns(names, cells, names[i]);
    assert(names.contains(names[i]));
}

/// The same where some of the columns are no texts: those are left out, and the
/// others take the cells in turn.
pub proof fn named_columns_take_the_cells(
    m: Map<Seq<char>, Tree>,
    columns: Seq<Tree>,
    rows: Seq<Tree>,
    r: int,
    i: int,
)
    requires
        m.contains_key("columns"@),
        m["columns"@] == Tree::List(columns),
        m.contains_key("rows"@),
        m["rows"@] == Tree::List(rows),
        0 <= r < rows.len(),
        0 <= i < json::texts_in(columns).len(),
        forall|j: int|
            i < j < json::texts_in(columns).len() ==> json::texts_in(columns)[j]
                != json::texts_in(columns)[i],
    ensures
        ({
            let name = json::texts_in(columns)[i];
            let read = rows_in(Some(Tree::Fields(m)))[r];
            &&& read.contains_key(name)
            &&& rows[r] is List && i < rows[r]->List_0.len() ==> read[name] == rows[r]->List_0[i]
            &&& rows[r] is List && i >= rows[r]->List_0.len() ==> read[name] == Tree::Null
            &&& !(rows[r] is List) ==> read[name] == Tree::Null
        }),
{
    let names = json::texts_in(columns);
    let cells = json::or_else(rows[r].list(), Seq::empty());
    columns_hold_their_cells(names, cells, i);
    rows_have_the_columns(names, cells, names[i]);
    assert(names.contains(names[i]));
}

/// A row that is read has no field besides the columns of the answer.
pub proof fn rows_have_no_other_fields(
    m: Map<Seq<char>, Tree>,
    columns: Seq<Tree>,
    r: int,
    k: Seq<char>,
)
    requires
        m.contains_key("columns"@),
        m["columns"@] == Tree::List(columns),
        0 <= r < rows_in(Some(Tree::Fields(m))).len(),
    ensures
        rows_in(Some(Tree::Fields(m)))[r].contains_key(k) ==> columns.contains(Tree::Text(k)),
{
    let rows = items_in(Tree::Fields(m), "rows"@);
    let names = json::texts_in(columns);
    rows_have_the_columns(names, json::or_else(rows[r].list(), Seq::empty()), k);
    if names.contains(k) {
        lemma_picked_from(columns, k);
    }
}

proof fn lemma_picked_from(l: Seq<Tree>, k: Seq<char>)
    requires
        json::texts_in(l).contains(k),
    ensures
        l.contains(Tree::Text(k)),
    decreases l.len(),
{
    if l.len() > 0 {
        let before = l.drop_last();
        if l.last() == Tree::Text(k) {
            assert(l[l.len() - 1] == Tree::Text(k));
        } else {
            let names = json::texts_in(l);
            let i = choose|i: int| 0 <= i < names.len() && names[i] == k;
            assert(json::texts_in(before)[i] == k);
            lemma_picked_from(before, k);
            let j = choose|j: int| 0 <= j < before.len() && before[j] == Tree::Text(k);
            assert(l[j] == Tree::Text(k));
        }
    }
}

/// An answer without a list of rows gives no rows.
pub proof fn answers_without_rows_give_none(m: Map<Seq<char>, Tree>, v: Tree)
    ensures
        rows_in(None).len() == 0,
        !m.contains_key("rows"@) || !(m["rows"@] is List) ==> rows_in(Some(Tree::Fields(m))).len()
            == 0,
        !(v is Fields) ==> rows_in(Some(v)).len() == 0,
{
}

/// A row that is read means its fields.
pub proof fn objects_mean_their_fields(s: Seq<Object>, i: int)
    requires
        0 <= i < s.len(),
    ensures
        objects(s).len() == s.len(),
        objects(s)[i] == s[i].fields(),
{
}

/// A number of what a statement changed is read as it is; one that is missing or
/// too large is zero.
pub proof fn changes_are_read_as_they_are(m: Map<Seq<char>, Tree>, k: Seq<char>, n: int, v: Tree)
    ensures
        m.contains_key(k) && m[k] == Tree::Number(json::Numeral::Int(n)) ==> change_in(
            Some(Tree::Fields(m)),
            k,
        ) == (if i64::MIN <= n <= i64::MAX {
            n
        } else {
            0
        }),
        !m.contains_key(k) || !(m[k] is Number) ==> change_in(Some(Tree::Fields(m)), k) == 0,
        !(v is Fields) ==> change_in(Some(v), k) == 0,
        change_in(None, k) == 0,
{
}

/// A statement is sent as it is, with its arguments in their order, to the database
/// of that name; within a transaction also with its token. Nothing else is sent.
pub proof fn statements_are_sent_whole(
    db: Seq<char>,
    sql: Seq<char>,
    args: Seq<Tree>,
    t: Transaction,
    k: Seq<char>,
)
    ensures
        ({
            let m = statement(db, sql, args);
            &&& m.contains_key("db"@) && m["db"@] == Tree::Text(db)
            &&& m.contains_key("sql"@) && m["sql"@] == Tree::Text(sql)
            &&& m.contains_key("args"@) && m["args"@] == Tree::List(args)
            &&& m.contains_key(k) ==> k == "db"@ || k == "sql"@ || k == "args"@
        }),
        ({
            let m = statement_within(t, sql, args);
            &&& m.contains_key("db"@) && m["db"@] == Tree::Text(t.db)
            &&& m.contains_key("sql"@) && m["sql"@] == Tree::Text(sql)
            &&& m.contains_key("args"@) && m["args"@] == Tree::List(args)
            &&& m.contains_key("tx"@) && m["tx"@] == Tree::Text(t.token)
            &&& m.contains_key(k) ==> k == "db"@ || k == "sql"@ || k == "args"@ || k == "tx"@
        }),
{
    reveal_strlit("db");
    reveal_strlit("sql");
    reveal_strlit("args");
    reveal_strlit("tx");
    assert("db"@.len() == 2 && "sql"@.len() == 3 && "args"@.len() == 4 && "tx"@.len() == 2);
    assert("db"@[0] != "tx"@[0]);
}

/// A transaction is begun with the token that the answer gives, on the database it
/// was asked of; without a token none is begun.
pub proof fn transactions_have_the_answers_token(
    db: Seq<char>,
    m: Map<Seq<char>, Tree>,
    token: Seq<char>,
    v: Tree,
    t: SqlTx,
)
    ensures
        m.contains_key("tx"@) && m["tx"@] == Tree::Text(token) ==> transaction_in(
            db,
            Some(Tree::Fields(m)),
        ) == Some(Transaction { db, token }),
        !m.contains_key("tx"@) || !(m["tx"@] is Text) ==> transaction_in(db, Some(Tree::Fields(m)))
            is None,
        !(v is Fields) ==> transaction_in(db, Some(v)) is None,
        transaction_in(db, None) is None,
        transaction_opt(Some(t)) == Some(t@),
        transaction_opt(None) is None,
{
}

/// A message is pushed as it is to the queue of that name, and popped from the
/// queue of that name.
pub proof fn messages_are_sent_whole(name: Seq<char>, body: Tree, k: Seq<char>)
    ensures
        ({
            let call = pushing(name, body);
            let m = call.body->0->Fields_0;
            &&& call.method == "POST"@
            &&& call.path == "queue/push"@
            &&& call.body is Some && call.body->0 is Fields
            &&& m.contains_key("queue"@) && m["queue"@] == Tree::Text(name)
            &&& m.contains_key("body"@) && m["body"@] == body
            &&& m.contains_key(k) ==> k == "queue"@ || k == "body"@
        }),
        ({
            let call = popping(name);
            let m = call.body->0->Fields_0;
            &&& call.method == "POST"@
            &&& call.path == "queue/pop"@
            &&& call.body is Some && call.body->0 is Fields
            &&& m.contains_key("queue"@) && m["queue"@] == Tree::Text(name)
            &&& m.contains_key(k) ==> k == "queue"@
        }),
{
    reveal_strlit("queue");
    reveal_strlit("body");
    assert("queue"@.len() == 5 && "body"@.len() == 4);
}

/// Rows of an answer without a list of columns have no fields.
pub proof fn rows_without_columns_are_empty(m: Map<Seq<char>, Tree>, r: int)
    requires
        !m.contains_key("columns"@) || !(m["columns"@] is List),
        0 <= r < rows_in(Some(Tree::Fields(m))).len(),
    ensures
        rows_in(Some(Tree::Fields(m)))[r] == Map::<Seq<char>, Tree>::empty(),
{
}

}
