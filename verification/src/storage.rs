//! The usage store: how often and how recently each branch of each
//! repository was checked out, the branch that was left last, and the
//! aliases, kept in a versioned SQLite database.
//!
//! Every operation builds its statements, each a text with its parameters,
//! hands them to the database and reads the answers back as plain values.
//! What the database does with a statement is its own affair. What an
//! operation does is told by the exchanges that it has with the database:
//! a store keeps the record of them, and the contract of an operation says
//! which statements it hands over, in which order, and what it makes of
//! each answer.

use vstd::prelude::*;
use crate::constants::{DAY_SECONDS, SCHEMA_VERSION};
use crate::error::GgoError;
use crate::text::{decimal, decimal_string, texts};

verus! {

/// How often and how recently one branch of one repository was checked out.
#[derive(Debug, Clone)]
pub struct BranchRecord {
    pub repo_path: String,
    pub branch_name: String,
    pub switch_count: i64,
    pub last_used: i64,
}

/// A short name for a branch, valid in one repository.
#[derive(Debug, Clone)]
pub struct Alias {
    pub repo_path: String,
    pub alias: String,
    pub branch_name: String,
    pub created_at: i64,
}

impl View for BranchRecord {
    type V = (Seq<char>, Seq<char>, i64, i64);

    open spec fn view(&self) -> (Seq<char>, Seq<char>, i64, i64) {
        (self.repo_path@, self.branch_name@, self.switch_count, self.last_used)
    }
}

impl View for Alias {
    type V = (Seq<char>, Seq<char>, Seq<char>, i64);

    open spec fn view(&self) -> (Seq<char>, Seq<char>, Seq<char>, i64) {
        (self.repo_path@, self.alias@, self.branch_name@, self.created_at)
    }
}

/// Totals over the whole store.
#[derive(Debug, Clone)]
pub struct Stats {
    pub total_switches: i64,
    pub unique_branches: i64,
    pub unique_repos: i64,
    pub db_path: String,
}

/// One cell of a row that the database returned.
#[derive(Debug, Clone)]
pub enum SqlValue {
    Null,
    Integer(i64),
    Real,
    Text(String),
    Blob(Vec<u8>),
}

/// A statement for the database: its text, and the values of its numbered
/// parameters in order. Every value is handed over as text.
#[derive(Debug, Clone)]
pub struct Statement {
    pub sql: String,
    pub params: Vec<String>,
}

impl View for Statement {
    type V = (Seq<char>, Seq<Seq<char>>);

    open spec fn view(&self) -> (Seq<char>, Seq<Seq<char>>) {
        (self.sql@, texts(self.params@))
    }
}

/// `rusqlite::Connection`, a connection to a SQLite database, carried
/// through as it is.
#[verifier::external_type_specification]
#[verifier::external_body]
pub struct ExConnection(rusqlite::Connection);

/// `rusqlite::Error`, what a failed call of the database returns, carried
/// through as it is.
#[verifier::external_type_specification]
#[verifier::external_body]
pub struct ExSqlError(rusqlite::Error);

/// `rusqlite::types::Value`, a cell as the database hands it out, carried
/// through as it is.
#[verifier::external_type_specification]
#[verifier::external_body]
pub struct ExSqlCell(rusqlite::types::Value);

/// What the database answered to a statement.
#[derive(Debug, Clone)]
pub enum Answer {
    /// The statement failed.
    Failed,
    /// The statement was run and changed this many rows.
    Changed(usize),
    /// The query was run and returned these rows; a row that could not be
    /// read stands as `None`.
    Rows(Vec<Option<Vec<SqlValue>>>),
}

/// One exchange with the database: the statement that was handed over, as
/// its text and the values of its parameters, and the answer to it.
pub struct Exchange {
    pub sql: Seq<char>,
    pub params: Seq<Seq<char>>,
    pub answer: Answer,
}

/// An open usage store: the connection to its database, the path of the
/// database file (empty for a database in memory), the record of the
/// exchanges that went over the connection since it was opened, and the
/// record of the questions that were put to git on its behalf.
pub struct Store {
    conn: rusqlite::Connection,
    path: String,
    log: Ghost<Seq<Exchange>>,
    asked_git: Ghost<Seq<Probe>>,
}

/// One question to git about a branch on record, with what git answered:
/// whether the repository was found, and whether the branch was found in
/// it. A branch is not looked for in a repository that was not found.
pub struct Probe {
    pub repo_path: Seq<char>,
    pub branch_name: Seq<char>,
    pub repository_found: bool,
    pub branch_found: bool,
}

/// Whether the exchange handed `statement` over.
pub open spec fn handed(exchange: Exchange, statement: (Seq<char>, Seq<Seq<char>>)) -> bool {
    exchange.sql == statement.0 && exchange.params == statement.1
}

/// Whether `after` is the store `before` after `n` more exchanges.
pub open spec fn continues(before: Store, after: Store, n: int) -> bool {
    &&& after.location() == before.location()
    &&& after.probes() == before.probes()
    &&& n >= 0
    &&& after.exchanges().len() == before.exchanges().len() + n
    &&& after.exchanges().take(before.exchanges().len() as int) == before.exchanges()
}

/// The exchange number `k` among those that `after` has beyond `before`.
pub open spec fn exchange_after(before: Store, after: Store, k: int) -> Exchange {
    after.exchanges()[before.exchanges().len() + k]
}

/// Whether `after` is the store `before` after one more exchange, in which
/// `statement` was handed over.
pub open spec fn asked(before: Store, after: Store, statement: (Seq<char>, Seq<Seq<char>>))
    -> bool {
    continues(before, after, 1) && handed(exchange_after(before, after, 0), statement)
}

/// The answer to the exchange that the store had last.
pub open spec fn last_answer(store: Store) -> Answer {
    store.exchanges().last().answer
}

/// Whether the record `after` is the record `before` with `n` more exchanges.
pub open spec fn extends(before: Seq<Exchange>, after: Seq<Exchange>, n: int) -> bool {
    &&& n >= 0
    &&& after.len() == before.len() + n
    &&& after.take(before.len() as int) == before
}

/// Whether, between the records `before` and `after`, the statements were
/// handed over one by one in their order, up to the first that failed:
/// every statement but the last that was handed over was answered without
/// failure, and `done` tells whether all of them were.
pub open spec fn ran_in_order(
    before: Seq<Exchange>,
    after: Seq<Exchange>,
    statements: Seq<(Seq<char>, Seq<Seq<char>>)>,
    done: bool,
) -> bool {
    let n = after.len() - before.len();
    &&& extends(before, after, n)
    &&& n <= statements.len()
    &&& forall|k: int| 0 <= k < n ==> handed(#[trigger] after[before.len() + k], statements[k])
    &&& forall|k: int| 0 <= k < n - 1 ==> !((#[trigger] after[before.len() + k]).answer is Failed)
    &&& done ==> n == statements.len() && (n > 0 ==> !(after.last().answer is Failed))
    &&& !done ==> n > 0 && after.last().answer is Failed
}

/// The text of a statement without parameters, as a statement.
pub open spec fn plain(sql: Seq<char>) -> (Seq<char>, Seq<Seq<char>>) {
    (sql, Seq::<Seq<char>>::empty())
}

/// More exchanges after more exchanges are more exchanges, and the earlier
/// ones stay as they were.
pub proof fn lemma_extends_compose(
    a: Seq<Exchange>,
    b: Seq<Exchange>,
    c: Seq<Exchange>,
    n: int,
    m: int,
)
    requires
        extends(a, b, n),
        extends(b, c, m),
    ensures
        extends(a, c, n + m),
        forall|i: int| 0 <= i < b.len() ==> c[i] == b[i],
{
    assert forall|i: int| 0 <= i < b.len() implies c[i] == b[i] by {
        assert(c.take(b.len() as int)[i] == c[i]);
    }
    assert forall|i: int| 0 <= i < a.len() implies c[i] == a[i] by {
        assert(b.take(a.len() as int)[i] == b[i]);
    }
    assert(c.take(a.len() as int) =~= a);
}

/// Nothing handed over is a run of no statements.
pub proof fn lemma_ran_nothing(log: Seq<Exchange>)
    ensures
        ran_in_order(log, log, Seq::empty(), true),
{
    assert(log.take(log.len() as int) =~= log);
}

/// A run of statements that went through, followed by a run of further
/// statements, is a run of all of them: through if the second went through,
/// and stopped within any list that starts with these if it did not.
pub proof fn lemma_ran_then(
    a: Seq<Exchange>,
    b: Seq<Exchange>,
    c: Seq<Exchange>,
    first: Seq<(Seq<char>, Seq<Seq<char>>)>,
    second: Seq<(Seq<char>, Seq<Seq<char>>)>,
    all: Seq<(Seq<char>, Seq<Seq<char>>)>,
    done: bool,
)
    requires
        ran_in_order(a, b, first, true),
        ran_in_order(b, c, second, done),
        all.len() >= first.len() + second.len(),
        all.take((first.len() + second.len()) as int) == first + second,
    ensures
        done ==> ran_in_order(a, c, first + second, true),
        !done ==> ran_in_order(a, c, all, false),
{
    let n = b.len() - a.len();
    let m = c.len() - b.len();
    lemma_extends_compose(a, b, c, n, m);
    let both = first + second;
    assert forall|k: int| 0 <= k < n + m implies handed(
        #[trigger] c[a.len() + k],
        both[k],
    ) && handed(c[a.len() + k], all[k]) by {
        if k < n {
            assert(c[a.len() + k] == b[a.len() + k]);
            assert(handed(b[a.len() + k], first[k]));
        } else {
            assert(c[a.len() + k] == c[b.len() + (k - n)]);
            assert(handed(c[b.len() + (k - n)], second[k - n]));
        }
        assert(all.take((first.len() + second.len()) as int)[k] == all[k]);
    }
    assert forall|k: int| 0 <= k < n + m - 1 implies !((#[trigger] c[a.len() + k]).answer
        is Failed) by {
        if k < n {
            assert(c[a.len() + k] == b[a.len() + k]);
            if k == n - 1 {
                assert(b[a.len() + k] == b.last());
            }
        } else {
            assert(c[a.len() + k] == c[b.len() + (k - n)]);
        }
    }
    if m == 0 {
        assert(c =~= b);
    }
}

/// One more statement handed over continues a run that went through so far.
pub proof fn lemma_ran_one_more(
    a: Seq<Exchange>,
    b: Seq<Exchange>,
    c: Seq<Exchange>,
    statements: Seq<(Seq<char>, Seq<Seq<char>>)>,
    i: int,
)
    requires
        0 <= i < statements.len(),
        ran_in_order(a, b, statements.take(i), true),
        extends(b, c, 1),
        handed(c.last(), statements[i]),
    ensures
        !(c.last().answer is Failed) ==> ran_in_order(a, c, statements.take(i + 1), true),
        c.last().answer is Failed ==> ran_in_order(a, c, statements, false),
{
    let one = seq![statements[i]];
    let done = !(c.last().answer is Failed);
    assert(c[b.len() as int] == c.last());
    assert(ran_in_order(b, c, one, done));
    assert(statements.take(i) + one =~= statements.take(i + 1));
    assert(statements.take(i + 1) =~= statements.take(i) + one);
    lemma_ran_then(a, b, c, statements.take(i), one, statements, done);
}

/// Opens the database file at `path` with `Connection::open`, creating it if
/// it does not exist. Whether that succeeds depends on the file system.
#[verifier::external_body]
fn open_connection(path: &str) -> Result<rusqlite::Connection, rusqlite::Error> {
    rusqlite::Connection::open(path)
}

/// Opens a fresh database in memory with `Connection::open_in_memory`.
#[verifier::external_body]
fn open_memory_connection() -> Result<rusqlite::Connection, rusqlite::Error> {
    rusqlite::Connection::open_in_memory()
}

/// Runs one statement with `Connection::execute`, its parameters bound in
/// order as text, and returns the number of rows that it changed. The
/// outcome depends on what the database holds.
#[verifier::external_body]
fn execute_statement(conn: &rusqlite::Connection, sql: &str, params: &Vec<String>) -> Result<
    usize,
    rusqlite::Error,
> {
    conn.execute(sql, rusqlite::params_from_iter(params.iter()))
}

/// Moves a cell out of `rusqlite`'s `Value`, variant by variant; of a
/// floating-point cell only the kind is kept.
#[verifier::external_body]
fn cell_value(value: rusqlite::types::Value) -> SqlValue {
    match value {
        rusqlite::types::Value::Null => SqlValue::Null,
        rusqlite::types::Value::Integer(i) => SqlValue::Integer(i),
        rusqlite::types::Value::Real(_) => SqlValue::Real,
        rusqlite::types::Value::Text(s) => SqlValue::Text(s),
        rusqlite::types::Value::Blob(b) => SqlValue::Blob(b),
    }
}

/// Runs one query with `Connection::prepare`, `Statement::query` and
/// `Rows::next`, its parameters bound in order as text, and returns the rows
/// in order, each with the cells of all its columns. A row of which a cell
/// could not be read stands as `None`; so does a step that failed, after
/// which no further row is asked for. The outcome depends on what the
/// database holds.
#[verifier::external_body]
fn query_rows(conn: &rusqlite::Connection, sql: &str, params: &Vec<String>) -> Result<
    Vec<Option<Vec<SqlValue>>>,
    rusqlite::Error,
> {
    let mut statement = conn.prepare(sql)?;
    let width = statement.column_count();
    let mut rows = statement.query(rusqlite::params_from_iter(params.iter()))?;
    let mut out = Vec::new();
    loop {
        match rows.next() {
            Ok(Some(row)) => out.push((0..width).map(|i| row.get(i).map(cell_value)).collect::<Result<_, rusqlite::Error>>().ok()),
            Ok(None) => return Ok(out),
            Err(_) => {
                out.push(None);
                return Ok(out);
            },
        }
    }
}

/// The words of a database error, as its `Display` gives them.
#[verifier::external_body]
fn error_text(error: &rusqlite::Error) -> String {
    error.to_string()
}

/// The store's error for a failed operation: what was attempted, and the
/// words of the database.
fn database_error(attempt: &str, error: &rusqlite::Error) -> (out: GgoError)
    ensures
        out is DatabaseError,
{
    let mut words = attempt.to_owned();
    words.append(": ");
    let cause = error_text(error);
    words.append(cause.as_str());
    GgoError::DatabaseError(words)
}

/// Statement that counts one more checkout of a branch: a new record starts
/// at one, an existing one is incremented and stamped with the new time.
pub const RECORD_CHECKOUT_SQL: &'static str =
    "INSERT INTO branches (repo_path, branch_name, switch_count, last_used)
         VALUES (?1, ?2, 1, ?3)
         ON CONFLICT(repo_path, branch_name) DO UPDATE SET
            switch_count = switch_count + 1,
            last_used = ?3";

/// The statement that records a checkout of `branch_name` in `repo_path` at `now`.
pub fn record_checkout_statement(repo_path: &str, branch_name: &str, now: i64) -> (statement:
    Statement)
    ensures
        statement@ == (RECORD_CHECKOUT_SQL@, seq![repo_path@, branch_name@, decimal(now as int)]),
{
    let mut params: Vec<String> = Vec::new();
    params.push(repo_path.to_owned());
    params.push(branch_name.to_owned());
    params.push(decimal_string(now));
    proof {
        assert(texts(params@) =~= seq![repo_path@, branch_name@, decimal(now as int)]);
    }
    Statement { sql: RECORD_CHECKOUT_SQL.to_owned(), params }
}

/// Runs a statement that changes the store and returns the number of rows
/// that it changed; a failure is reported as a database error that names
/// the attempt.
fn run(store: &mut Store, statement: &Statement, attempt: &str) -> (outcome: Result<
    usize,
    GgoError,
>)
    ensures
        asked(*old(store), *final(store), statement@),
        extends(old(store).exchanges(), final(store).exchanges(), 1),
        handed(final(store).exchanges().last(), statement@),
        match outcome {
            Ok(changed) => last_answer(*final(store)) == Answer::Changed(changed),
            Err(error) => last_answer(*final(store)) is Failed && error is DatabaseError,
        },
{
    let answer = execute_statement(&store.conn, statement.sql.as_str(), &statement.params);
    let ghost before = store.log@;
    match answer {
        Ok(changed) => {
            store.log = Ghost(
                before.push(
                    Exchange {
                        sql: statement.sql@,
                        params: texts(statement.params@),
                        answer: Answer::Changed(changed),
                    },
                ),
            );
            proof {
                assert(store.log@.take(before.len() as int) =~= before);
            }
            Ok(changed)
        },
        Err(error) => {
            store.log = Ghost(
                before.push(
                    Exchange {
                        sql: statement.sql@,
                        params: texts(statement.params@),
                        answer: Answer::Failed,
                    },
                ),
            );
            proof {
                assert(store.log@.take(before.len() as int) =~= before);
            }
            Err(database_error(attempt, &error))
        },
    }
}

/// Records a checkout of `branch_name` in `repo_path` at time `now`: the
/// first checkout creates the usage record with a count of one, every later
/// one increments the count and sets the time of last use. The statement
/// that does so is handed to the database, and the outcome tells whether
/// the database took it.
pub fn record_checkout(store: &mut Store, repo_path: &str, branch_name: &str, now: i64) -> (outcome:
    Result<(), GgoError>)
    ensures
        asked(
            *old(store),
            *final(store),
            (RECORD_CHECKOUT_SQL@, seq![repo_path@, branch_name@, decimal(now as int)]),
        ),
        outcome is Ok <==> last_answer(*final(store)) is Changed,
        outcome is Err ==> outcome->Err_0 is DatabaseError,
{
    let statement = record_checkout_statement(repo_path, branch_name, now);
    match run(store, &statement, "Failed to record checkout") {
        Ok(_) => Ok(()),
        Err(error) => Err(error),
    }
}

/// Records a checkout that has already happened. The switch stands whatever
/// becomes of the record: a failure of the store comes back as a warning to
/// show, never as an error.
pub fn record_checkout_outcome(store: &mut Store, repo_path: &str, branch_name: &str, now: i64) -> (warning:
    Option<GgoError>)
    ensures
        asked(
            *old(store),
            *final(store),
            (RECORD_CHECKOUT_SQL@, seq![repo_path@, branch_name@, decimal(now as int)]),
        ),
        warning is None <==> last_answer(*final(store)) is Changed,
        warning is Some ==> warning->0 is DatabaseError,
{
    match record_checkout(store, repo_path, branch_name, now) {
        Ok(_) => None,
        Err(error) => Some(error),
    }
}

/// Query for the usage records of one repository, most recently used first.
pub const BRANCH_RECORDS_SQL: &'static str =
    "SELECT repo_path, branch_name, switch_count, last_used
             FROM branches
             WHERE repo_path = ?1
             ORDER BY last_used DESC";

/// Query for the usage records of all repositories, most recently used first.
pub const ALL_RECORDS_SQL: &'static str =
    "SELECT repo_path, branch_name, switch_count, last_used
             FROM branches
             ORDER BY last_used DESC";

/// The views of a list of usage records.
pub open spec fn record_views(records: Seq<BranchRecord>) -> Seq<(Seq<char>, Seq<char>, i64, i64)> {
    records.map_values(|record: BranchRecord| record@)
}

/// The views of a list of aliases.
pub open spec fn alias_views(aliases: Seq<Alias>) -> Seq<(Seq<char>, Seq<char>, Seq<char>, i64)> {
    aliases.map_values(|alias: Alias| alias@)
}

/// The cells of a row that the database returned; a row that could not be
/// read has none.
pub open spec fn cells(row: Option<Vec<SqlValue>>) -> Seq<SqlValue> {
    match row {
        Some(row) => row@,
        None => Seq::empty(),
    }
}

/// The usage record that a row holds: two texts and two integers, in this
/// order; `None` for a row of any other shape.
pub open spec fn record_of_row(row: Seq<SqlValue>) -> Option<(Seq<char>, Seq<char>, i64, i64)> {
    if row.len() >= 4 && row[0] is Text && row[1] is Text && row[2] is Integer
        && row[3] is Integer {
        Some((row[0]->Text_0@, row[1]->Text_0@, row[2]->Integer_0, row[3]->Integer_0))
    } else {
        None
    }
}

/// The alias that a row holds: three texts and an integer, in this order;
/// `None` for a row of any other shape.
pub open spec fn alias_of_row(row: Seq<SqlValue>) -> Option<
    (Seq<char>, Seq<char>, Seq<char>, i64),
> {
    if row.len() >= 4 && row[0] is Text && row[1] is Text && row[2] is Text
        && row[3] is Integer {
        Some((row[0]->Text_0@, row[1]->Text_0@, row[2]->Text_0@, row[3]->Integer_0))
    } else {
        None
    }
}

/// The text that a row starts with; `None` for a row that starts otherwise.
pub open spec fn text_of_row(row: Seq<SqlValue>) -> Option<Seq<char>> {
    if row.len() >= 1 && row[0] is Text {
        Some(row[0]->Text_0@)
    } else {
        None
    }
}

/// The integer that a row starts with; `None` for a row that starts otherwise.
pub open spec fn integer_of_row(row: Seq<SqlValue>) -> Option<i64> {
    if row.len() >= 1 && row[0] is Integer {
        Some(row[0]->Integer_0)
    } else {
        None
    }
}

/// The usage records of the rows from `start` up to the first row that
/// does not hold one.
pub open spec fn records_of_rows(rows: Seq<Option<Vec<SqlValue>>>, start: int) -> Seq<
    (Seq<char>, Seq<char>, i64, i64),
>
    decreases rows.len() - start,
{
    if start < 0 || start >= rows.len() {
        Seq::empty()
    } else {
        match record_of_row(cells(rows[start])) {
            Some(record) => seq![record] + records_of_rows(rows, start + 1),
            None => Seq::empty(),
        }
    }
}

/// The aliases of the rows from `start` up to the first row that does not
/// hold one.
pub open spec fn aliases_of_rows(rows: Seq<Option<Vec<SqlValue>>>, start: int) -> Seq<
    (Seq<char>, Seq<char>, Seq<char>, i64),
>
    decreases rows.len() - start,
{
    if start < 0 || start >= rows.len() {
        Seq::empty()
    } else {
        match alias_of_row(cells(rows[start])) {
            Some(alias) => seq![alias] + aliases_of_rows(rows, start + 1),
            None => Seq::empty(),
        }
    }
}

/// The leading texts of the rows from `start` up to the first row that
/// does not start with a text.
pub open spec fn texts_of_rows(rows: Seq<Option<Vec<SqlValue>>>, start: int) -> Seq<Seq<char>>
    decreases rows.len() - start,
{
    if start < 0 || start >= rows.len() {
        Seq::empty()
    } else {
        match text_of_row(cells(rows[start])) {
            Some(text) => seq![text] + texts_of_rows(rows, start + 1),
            None => Seq::empty(),
        }
    }
}

/// Reads the text of a cell.
fn cell_text(cell: &SqlValue) -> (text: Option<String>)
    ensures
        match *cell {
            SqlValue::Text(s) => text matches Some(t) && t@ == s@,
            _ => text is None,
        },
{
    match cell {
        SqlValue::Text(s) => Some(s.clone()),
        _ => None,
    }
}

/// Reads the integer of a cell.
fn cell_integer(cell: &SqlValue) -> (value: Option<i64>)
    ensures
        match *cell {
            SqlValue::Integer(i) => value == Some(i),
            _ => value is None,
        },
{
    match cell {
        SqlValue::Integer(i) => Some(*i),
        _ => None,
    }
}

/// Reads the usage record of a row that the database returned; none for a
/// row that could not be read.
fn read_record(row: &Option<Vec<SqlValue>>) -> (record: Option<BranchRecord>)
    ensures
        match record_of_row(cells(*row)) {
            Some(view) => record matches Some(r) && r@ == view,
            None => record is None,
        },
{
    match row {
        Some(row) => record_from_row(row),
        None => None,
    }
}

/// Reads the alias of a row that the database returned; none for a row that
/// could not be read.
fn read_alias(row: &Option<Vec<SqlValue>>) -> (alias: Option<Alias>)
    ensures
        match alias_of_row(cells(*row)) {
            Some(view) => alias matches Some(a) && a@ == view,
            None => alias is None,
        },
{
    match row {
        Some(row) => alias_from_row(row),
        None => None,
    }
}

/// Reads the leading text of a row that the database returned; none for a
/// row that could not be read.
fn read_text(row: &Option<Vec<SqlValue>>) -> (text: Option<String>)
    ensures
        match text_of_row(cells(*row)) {
            Some(view) => text matches Some(t) && t@ == view,
            None => text is None,
        },
{
    match row {
        Some(row) => text_from_row(row),
        None => None,
    }
}

/// Reads the leading integer of a row that the database returned; none for
/// a row that could not be read.
fn read_integer(row: &Option<Vec<SqlValue>>) -> (value: Option<i64>)
    ensures
        value == integer_of_row(cells(*row)),
{
    match row {
        Some(row) => integer_from_row(row),
        None => None,
    }
}

/// Reads a usage record from a row of the branches table.
pub fn record_from_row(row: &Vec<SqlValue>) -> (record: Option<BranchRecord>)
    ensures
        match record_of_row(row@) {
            Some(view) => record matches Some(r) && r@ == view,
            None => record is None,
        },
{
    if row.len() < 4 {
        return None;
    }
    let repo_path = cell_text(&row[0]);
    let branch_name = cell_text(&row[1]);
    let switch_count = cell_integer(&row[2]);
    let last_used = cell_integer(&row[3]);
    match (repo_path, branch_name, switch_count, last_used) {
        (Some(repo_path), Some(branch_name), Some(switch_count), Some(last_used)) => Some(
            BranchRecord { repo_path, branch_name, switch_count, last_used },
        ),
        _ => None,
    }
}

/// Reads an alias from a row of the aliases table.
pub fn alias_from_row(row: &Vec<SqlValue>) -> (alias: Option<Alias>)
    ensures
        match alias_of_row(row@) {
            Some(view) => alias matches Some(a) && a@ == view,
            None => alias is None,
        },
{
    if row.len() < 4 {
        return None;
    }
    let repo_path = cell_text(&row[0]);
    let name = cell_text(&row[1]);
    let branch_name = cell_text(&row[2]);
    let created_at = cell_integer(&row[3]);
    match (repo_path, name, branch_name, created_at) {
        (Some(repo_path), Some(name), Some(branch_name), Some(created_at)) => Some(
            Alias { repo_path, alias: name, branch_name, created_at },
        ),
        _ => None,
    }
}

/// Reads the text that a row starts with.
pub fn text_from_row(row: &Vec<SqlValue>) -> (text: Option<String>)
    ensures
        match text_of_row(row@) {
            Some(view) => text matches Some(t) && t@ == view,
            None => text is None,
        },
{
    if row.len() < 1 {
        return None;
    }
    cell_text(&row[0])
}

/// Reads the integer that a row starts with.
pub fn integer_from_row(row: &Vec<SqlValue>) -> (value: Option<i64>)
    ensures
        value == integer_of_row(row@),
{
    if row.len() < 1 {
        return None;
    }
    cell_integer(&row[0])
}

/// Reads usage records from rows, in order, up to the first row that does
/// not hold one.
pub fn records_from_rows(rows: &Vec<Option<Vec<SqlValue>>>) -> (records: Vec<BranchRecord>)
    ensures
        record_views(records@) == records_of_rows(rows@, 0),
{
    let mut records: Vec<BranchRecord> = Vec::new();
    let mut i: usize = 0;
    proof {
        assert(record_views(records@) =~= Seq::empty());
    }
    while i < rows.len()
        invariant
            i <= rows@.len(),
            records_of_rows(rows@, 0) == record_views(records@) + records_of_rows(rows@, i as int),
        decreases rows@.len() - i,
    {
        match read_record(&rows[i]) {
            Some(record) => {
                proof {
                    assert(record_views(records@.push(record)) =~= record_views(records@)
                        + seq![record@]);
                    assert(record_views(records@) + (seq![record@] + records_of_rows(
                        rows@,
                        i + 1,
                    )) =~= record_views(records@) + seq![record@] + records_of_rows(rows@, i + 1));
                }
                records.push(record);
            },
            None => {
                proof {
                    assert(record_views(records@) + Seq::empty() =~= record_views(records@));
                }
                return records;
            },
        }
        i += 1;
    }
    proof {
        assert(record_views(records@) + Seq::empty() =~= record_views(records@));
    }
    records
}

/// Reads aliases from rows, in order, up to the first row that does not
/// hold one.
pub fn aliases_from_rows(rows: &Vec<Option<Vec<SqlValue>>>) -> (aliases: Vec<Alias>)
    ensures
        alias_views(aliases@) == aliases_of_rows(rows@, 0),
{
    let mut aliases: Vec<Alias> = Vec::new();
    let mut i: usize = 0;
    proof {
        assert(alias_views(aliases@) =~= Seq::empty());
    }
    while i < rows.len()
        invariant
            i <= rows@.len(),
            aliases_of_rows(rows@, 0) == alias_views(aliases@) + aliases_of_rows(rows@, i as int),
        decreases rows@.len() - i,
    {
        match read_alias(&rows[i]) {
            Some(alias) => {
                proof {
                    assert(alias_views(aliases@.push(alias)) =~= alias_views(aliases@)
                        + seq![alias@]);
                    assert(alias_views(aliases@) + (seq![alias@] + aliases_of_rows(rows@, i + 1))
                        =~= alias_views(aliases@) + seq![alias@] + aliases_of_rows(rows@, i + 1));
                }
                aliases.push(alias);
            },
            None => {
                proof {
                    assert(alias_views(aliases@) + Seq::empty() =~= alias_views(aliases@));
                }
                return aliases;
            },
        }
        i += 1;
    }
    proof {
        assert(alias_views(aliases@) + Seq::empty() =~= alias_views(aliases@));
    }
    aliases
}

/// Reads the leading text of each row, in order, up to the first row that
/// does not start with a text.
pub fn texts_from_rows(rows: &Vec<Option<Vec<SqlValue>>>) -> (names: Vec<String>)
    ensures
        texts(names@) == texts_of_rows(rows@, 0),
{
    let mut names: Vec<String> = Vec::new();
    let mut i: usize = 0;
    proof {
        assert(texts(names@) =~= Seq::empty());
    }
    while i < rows.len()
        invariant
            i <= rows@.len(),
            texts_of_rows(rows@, 0) == texts(names@) + texts_of_rows(rows@, i as int),
        decreases rows@.len() - i,
    {
        match read_text(&rows[i]) {
            Some(name) => {
                proof {
                    assert(texts(names@.push(name)) =~= texts(names@) + seq![name@]);
                    assert(texts(names@) + (seq![name@] + texts_of_rows(rows@, i + 1)) =~= texts(
                        names@,
                    ) + seq![name@] + texts_of_rows(rows@, i + 1));
                }
                names.push(name);
            },
            None => {
                proof {
                    assert(texts(names@) + Seq::empty() =~= texts(names@));
                }
                return names;
            },
        }
        i += 1;
    }
    proof {
        assert(texts(names@) + Seq::empty() =~= texts(names@));
    }
    names
}

/// A statement without parameters.
pub fn statement0(sql: &str) -> (statement: Statement)
    ensures
        statement@ == (sql@, Seq::<Seq<char>>::empty()),
{
    let params: Vec<String> = Vec::new();
    proof {
        assert(texts(params@) =~= Seq::<Seq<char>>::empty());
    }
    Statement { sql: sql.to_owned(), params }
}

/// A statement with one parameter.
pub fn statement1(sql: &str, first: &str) -> (statement: Statement)
    ensures
        statement@ == (sql@, seq![first@]),
{
    let mut params: Vec<String> = Vec::new();
    params.push(first.to_owned());
    proof {
        assert(texts(params@) =~= seq![first@]);
    }
    Statement { sql: sql.to_owned(), params }
}

/// A statement with two parameters.
pub fn statement2(sql: &str, first: &str, second: &str) -> (statement: Statement)
    ensures
        statement@ == (sql@, seq![first@, second@]),
{
    let mut params: Vec<String> = Vec::new();
    params.push(first.to_owned());
    params.push(second.to_owned());
    proof {
        assert(texts(params@) =~= seq![first@, second@]);
    }
    Statement { sql: sql.to_owned(), params }
}

/// Whether `outcome` is what reading usage records makes of `answer`: the
/// records of the rows up to the first malformed one, or a database error
/// for a query that failed.
pub open spec fn is_records_outcome(answer: Answer, outcome: Result<Vec<BranchRecord>, GgoError>)
    -> bool {
    match answer {
        Answer::Rows(rows) => outcome matches Ok(records) && record_views(records@)
            == records_of_rows(rows@, 0),
        _ => outcome matches Err(error) && error is DatabaseError,
    }
}

/// Whether `outcome` is what reading aliases makes of `answer`.
pub open spec fn is_aliases_outcome(answer: Answer, outcome: Result<Vec<Alias>, GgoError>) -> bool {
    match answer {
        Answer::Rows(rows) => outcome matches Ok(aliases) && alias_views(aliases@)
            == aliases_of_rows(rows@, 0),
        _ => outcome matches Err(error) && error is DatabaseError,
    }
}

/// Whether `outcome` is what reading a list of texts makes of `answer`.
pub open spec fn is_texts_outcome(answer: Answer, outcome: Result<Vec<String>, GgoError>) -> bool {
    match answer {
        Answer::Rows(rows) => outcome matches Ok(names) && texts(names@) == texts_of_rows(
            rows@,
            0,
        ),
        _ => outcome matches Err(error) && error is DatabaseError,
    }
}

/// Whether `outcome` is what reading a single text makes of `answer`: the
/// text that the first row starts with, nothing without a row, and a
/// database error for a first row of another shape or a query that failed.
pub open spec fn is_text_outcome(answer: Answer, outcome: Result<Option<String>, GgoError>)
    -> bool {
    match answer {
        Answer::Rows(rows) => match single_text_of(rows@) {
            Ok(Some(text)) => outcome matches Ok(Some(found)) && found@ == text,
            Ok(None) => outcome matches Ok(None),
            Err(_) => outcome matches Err(error) && error is DatabaseError,
        },
        _ => outcome matches Err(error) && error is DatabaseError,
    }
}

/// The number that a query for a single number comes to: the integer that
/// the first row starts with, and zero without one or for a query that
/// failed.
pub open spec fn number_of(answer: Answer) -> i64 {
    match answer {
        Answer::Rows(rows) => integer_or_zero_of(rows@),
        _ => 0,
    }
}

/// Runs a query and returns its rows; a failure is reported as a database
/// error that names the attempt.
fn fetch(store: &mut Store, statement: &Statement, attempt: &str) -> (outcome: Result<
    Vec<Option<Vec<SqlValue>>>,
    GgoError,
>)
    ensures
        asked(*old(store), *final(store), statement@),
        extends(old(store).exchanges(), final(store).exchanges(), 1),
        handed(final(store).exchanges().last(), statement@),
        match outcome {
            Ok(rows) => last_answer(*final(store)) == Answer::Rows(rows),
            Err(error) => last_answer(*final(store)) is Failed && error is DatabaseError,
        },
{
    let answer = query_rows(&store.conn, statement.sql.as_str(), &statement.params);
    let ghost before = store.log@;
    match answer {
        Ok(rows) => {
            store.log = Ghost(
                before.push(
                    Exchange {
                        sql: statement.sql@,
                        params: texts(statement.params@),
                        answer: Answer::Rows(rows),
                    },
                ),
            );
            proof {
                assert(store.log@.take(before.len() as int) =~= before);
            }
            Ok(rows)
        },
        Err(error) => {
            store.log = Ghost(
                before.push(
                    Exchange {
                        sql: statement.sql@,
                        params: texts(statement.params@),
                        answer: Answer::Failed,
                    },
                ),
            );
            proof {
                assert(store.log@.take(before.len() as int) =~= before);
            }
            Err(database_error(attempt, &error))
        },
    }
}

/// The query for the usage records of `repo_path`.
pub fn branch_records_query(repo_path: &str) -> (statement: Statement)
    ensures
        statement@ == (BRANCH_RECORDS_SQL@, seq![repo_path@]),
{
    statement1(BRANCH_RECORDS_SQL, repo_path)
}

/// The usage records of one repository, most recently used first: the
/// query for them is handed to the database, and its rows are read as
/// records.
pub fn get_branch_records(store: &mut Store, repo_path: &str) -> (outcome: Result<
    Vec<BranchRecord>,
    GgoError,
>)
    ensures
        asked(*old(store), *final(store), (BRANCH_RECORDS_SQL@, seq![repo_path@])),
        is_records_outcome(last_answer(*final(store)), outcome),
{
    let statement = branch_records_query(repo_path);
    match fetch(store, &statement, "Failed to query branches") {
        Ok(rows) => Ok(records_from_rows(&rows)),
        Err(error) => Err(error),
    }
}

/// The usage records of all repositories, most recently used first: the
/// query for them is handed to the database, and its rows are read as
/// records.
pub fn get_all_records(store: &mut Store) -> (outcome: Result<Vec<BranchRecord>, GgoError>)
    ensures
        asked(*old(store), *final(store), plain(ALL_RECORDS_SQL@)),
        is_records_outcome(last_answer(*final(store)), outcome),
{
    let statement = statement0(ALL_RECORDS_SQL);
    match fetch(store, &statement, "Failed to query branches") {
        Ok(rows) => Ok(records_from_rows(&rows)),
        Err(error) => Err(error),
    }
}

/// Statement that creates the table of previous branches where it is missing.
pub const CREATE_PREVIOUS_SQL: &'static str =
    "CREATE TABLE IF NOT EXISTS previous_branch (
            repo_path TEXT PRIMARY KEY,
            branch_name TEXT NOT NULL,
            updated_at INTEGER NOT NULL
        )";

/// Statement that puts a branch in the place of a repository's previous branch.
pub const SAVE_PREVIOUS_SQL: &'static str =
    "INSERT OR REPLACE INTO previous_branch (repo_path, branch_name, updated_at)
         VALUES (?1, ?2, ?3)";

/// Query for the previous branch of a repository.
pub const GET_PREVIOUS_SQL: &'static str =
    "SELECT branch_name FROM previous_branch WHERE repo_path = ?1";

/// Statement that defines an alias in a repository, in the place of any
/// alias of the same name there.
pub const CREATE_ALIAS_SQL: &'static str =
    "INSERT OR REPLACE INTO aliases (repo_path, alias, branch_name, created_at)
         VALUES (?1, ?2, ?3, ?4)";

/// Query for the branch that an alias names in a repository.
pub const GET_ALIAS_SQL: &'static str =
    "SELECT branch_name FROM aliases WHERE repo_path = ?1 AND alias = ?2";

/// Statement that removes an alias from a repository.
pub const DELETE_ALIAS_SQL: &'static str =
    "DELETE FROM aliases WHERE repo_path = ?1 AND alias = ?2";

/// Query for the aliases of a repository, by name.
pub const LIST_ALIASES_SQL: &'static str =
    "SELECT repo_path, alias, branch_name, created_at
             FROM aliases
             WHERE repo_path = ?1
             ORDER BY alias";

/// Query for the names of the aliases of one branch of a repository, by name.
pub const ALIASES_FOR_BRANCH_SQL: &'static str =
    "SELECT alias
             FROM aliases
             WHERE repo_path = ?1 AND branch_name = ?2
             ORDER BY alias";

/// Query for the number of checkouts on record.
pub const TOTAL_SWITCHES_SQL: &'static str = "SELECT COALESCE(SUM(switch_count), 0) FROM branches";

/// Query for the number of usage records.
pub const COUNT_BRANCHES_SQL: &'static str = "SELECT COUNT(*) FROM branches";

/// Query for the number of repositories with usage records.
pub const COUNT_REPOS_SQL: &'static str = "SELECT COUNT(DISTINCT repo_path) FROM branches";

/// Statement that removes the usage records last used before a time.
pub const CLEANUP_OLD_SQL: &'static str = "DELETE FROM branches WHERE last_used < ?1";

/// Statement that reclaims the space of removed rows.
pub const VACUUM_SQL: &'static str = "VACUUM";

/// Statement that refreshes the statistics for query planning.
pub const ANALYZE_SQL: &'static str = "ANALYZE";

/// `x` limited to what a time can hold.
pub open spec fn clamped_time(x: int) -> int {
    if x > i64::MAX {
        i64::MAX as int
    } else if x < i64::MIN {
        i64::MIN as int
    } else {
        x
    }
}

/// The time before which a usage record counts as old: `max_age_days` days
/// before `now`.
pub open spec fn cutoff(now: int, max_age_days: int) -> int {
    clamped_time(now - max_age_days * DAY_SECONDS)
}

/// What a query for a single text comes to: nothing without a row, the text
/// that the first row starts with, or a failure if it starts otherwise.
pub open spec fn single_text_of(rows: Seq<Option<Vec<SqlValue>>>) -> Result<Option<Seq<char>>, ()> {
    if rows.len() == 0 {
        Ok(None)
    } else {
        match text_of_row(cells(rows[0])) {
            Some(text) => Ok(Some(text)),
            None => Err(()),
        }
    }
}

/// What a query for a single number comes to: the integer that the first
/// row starts with, and zero without such a row.
pub open spec fn integer_or_zero_of(rows: Seq<Option<Vec<SqlValue>>>) -> i64 {
    if rows.len() == 0 {
        0
    } else {
        match integer_of_row(cells(rows[0])) {
            Some(value) => value,
            None => 0,
        }
    }
}

/// A statement with three parameters.
pub fn statement3(sql: &str, first: &str, second: &str, third: &str) -> (statement: Statement)
    ensures
        statement@ == (sql@, seq![first@, second@, third@]),
{
    let mut params: Vec<String> = Vec::new();
    params.push(first.to_owned());
    params.push(second.to_owned());
    params.push(third.to_owned());
    proof {
        assert(texts(params@) =~= seq![first@, second@, third@]);
    }
    Statement { sql: sql.to_owned(), params }
}

/// Reads the answer to a query for a single text.
pub fn single_text(rows: &Vec<Option<Vec<SqlValue>>>) -> (outcome: Result<Option<String>, ()>)
    ensures
        match single_text_of(rows@) {
            Ok(Some(text)) => outcome matches Ok(Some(found)) && found@ == text,
            Ok(None) => outcome matches Ok(None),
            Err(_) => outcome is Err,
        },
{
    if rows.len() == 0 {
        return Ok(None);
    }
    match read_text(&rows[0]) {
        Some(text) => Ok(Some(text)),
        None => Err(()),
    }
}

/// Reads the answer to a query for a single number, zero where there is none.
pub fn integer_or_zero(rows: &Vec<Option<Vec<SqlValue>>>) -> (value: i64)
    ensures
        value == integer_or_zero_of(rows@),
{
    if rows.len() == 0 {
        return 0;
    }
    match read_integer(&rows[0]) {
        Some(value) => value,
        None => 0,
    }
}

/// Runs a query for a single number; zero where the query fails or returns
/// no number.
fn count(store: &mut Store, statement: &Statement) -> (value: i64)
    ensures
        asked(*old(store), *final(store), statement@),
        value == number_of(last_answer(*final(store))),
{
    match fetch(store, statement, "Failed to count") {
        Ok(rows) => integer_or_zero(&rows),
        Err(_) => 0,
    }
}

/// Runs a query for a single text; a failure, or a first row that does not
/// start with a text, is reported as a database error that names the attempt.
fn fetch_text(store: &mut Store, statement: &Statement, attempt: &str) -> (outcome: Result<
    Option<String>,
    GgoError,
>)
    ensures
        asked(*old(store), *final(store), statement@),
        is_text_outcome(last_answer(*final(store)), outcome),
{
    match fetch(store, statement, attempt) {
        Ok(rows) => match single_text(&rows) {
            Ok(found) => Ok(found),
            Err(_) => Err(GgoError::DatabaseError(attempt.to_owned())),
        },
        Err(error) => Err(error),
    }
}

/// The statement that saves `branch_name` as the previous branch of
/// `repo_path` at `now`.
pub fn save_previous_statement(repo_path: &str, branch_name: &str, now: i64) -> (statement:
    Statement)
    ensures
        statement@ == (SAVE_PREVIOUS_SQL@, seq![repo_path@, branch_name@, decimal(now as int)]),
{
    let stamp = decimal_string(now);
    statement3(SAVE_PREVIOUS_SQL, repo_path, branch_name, stamp.as_str())
}

/// Saves `branch_name` as the branch that was left last in `repo_path`, in
/// the place of the one saved before. Two statements are handed to the
/// database, the second only if the first went through: one that creates
/// the table where it is missing, and one that puts the branch in.
pub fn save_previous_branch(store: &mut Store, repo_path: &str, branch_name: &str, now: i64) -> (outcome:
    Result<(), GgoError>)
    ensures
        final(store).location() == old(store).location(),
        final(store).probes() == old(store).probes(),
        ran_in_order(
            old(store).exchanges(),
            final(store).exchanges(),
            seq![
                plain(CREATE_PREVIOUS_SQL@),
                (SAVE_PREVIOUS_SQL@, seq![repo_path@, branch_name@, decimal(now as int)]),
            ],
            outcome is Ok,
        ),
        outcome is Err ==> outcome->Err_0 is DatabaseError,
{
    let ghost start = store.exchanges();
    let ghost statements = seq![
        plain(CREATE_PREVIOUS_SQL@),
        (SAVE_PREVIOUS_SQL@, seq![repo_path@, branch_name@, decimal(now as int)]),
    ];
    proof {
        lemma_ran_nothing(start);
        assert(statements.take(0) =~= Seq::empty());
    }
    let create = statement0(CREATE_PREVIOUS_SQL);
    let created = run(store, &create, "Failed to create previous_branch table");
    let ghost middle = store.exchanges();
    proof {
        lemma_ran_one_more(start, start, middle, statements, 0);
    }
    match created {
        Ok(_) => {},
        Err(error) => {
            return Err(error);
        },
    }
    let statement = save_previous_statement(repo_path, branch_name, now);
    let saved = run(store, &statement, "Failed to save previous branch");
    proof {
        lemma_ran_one_more(start, middle, store.exchanges(), statements, 1);
        assert(statements.take(2) =~= statements);
    }
    match saved {
        Ok(_) => Ok(()),
        Err(error) => Err(error),
    }
}

/// Saves the branch that is being left, for a switch that goes on whatever
/// becomes of the record: a failure of the store comes back as a warning to
/// show, never as an error.
pub fn save_previous_outcome(store: &mut Store, repo_path: &str, branch_name: &str, now: i64) -> (warning:
    Option<GgoError>)
    ensures
        final(store).location() == old(store).location(),
        final(store).probes() == old(store).probes(),
        ran_in_order(
            old(store).exchanges(),
            final(store).exchanges(),
            seq![
                plain(CREATE_PREVIOUS_SQL@),
                (SAVE_PREVIOUS_SQL@, seq![repo_path@, branch_name@, decimal(now as int)]),
            ],
            warning is None,
        ),
        warning is Some ==> warning->0 is DatabaseError,
{
    match save_previous_branch(store, repo_path, branch_name, now) {
        Ok(_) => None,
        Err(error) => Some(error),
    }
}

/// The query for the previous branch of `repo_path`.
pub fn previous_branch_query(repo_path: &str) -> (statement: Statement)
    ensures
        statement@ == (GET_PREVIOUS_SQL@, seq![repo_path@]),
{
    statement1(GET_PREVIOUS_SQL, repo_path)
}

/// The branch that was left last in `repo_path`; none before the first save.
/// Two statements are handed to the database: one that creates the table
/// where it is missing, whose failure is passed over, and the query, whose
/// answer is read as a single text.
pub fn get_previous_branch(store: &mut Store, repo_path: &str) -> (outcome: Result<
    Option<String>,
    GgoError,
>)
    ensures
        continues(*old(store), *final(store), 2),
        handed(exchange_after(*old(store), *final(store), 0), plain(CREATE_PREVIOUS_SQL@)),
        handed(
            exchange_after(*old(store), *final(store), 1),
            (GET_PREVIOUS_SQL@, seq![repo_path@]),
        ),
        is_text_outcome(last_answer(*final(store)), outcome),
{
    let ghost start = store.exchanges();
    let create = statement0(CREATE_PREVIOUS_SQL);
    let _ = run(store, &create, "Failed to create previous_branch table");
    let ghost middle = store.exchanges();
    let statement = previous_branch_query(repo_path);
    let outcome = fetch_text(store, &statement, "Failed to get previous branch");
    proof {
        lemma_extends_compose(start, middle, store.exchanges(), 1, 1);
    }
    outcome
}

/// The statement that makes `alias` a name for `branch_name` in `repo_path`.
pub fn create_alias_statement(repo_path: &str, alias: &str, branch_name: &str, now: i64) -> (statement:
    Statement)
    ensures
        statement@ == (
            CREATE_ALIAS_SQL@,
            seq![repo_path@, alias@, branch_name@, decimal(now as int)],
        ),
{
    let mut params: Vec<String> = Vec::new();
    params.push(repo_path.to_owned());
    params.push(alias.to_owned());
    params.push(branch_name.to_owned());
    params.push(decimal_string(now));
    proof {
        assert(texts(params@) =~= seq![repo_path@, alias@, branch_name@, decimal(now as int)]);
    }
    Statement { sql: CREATE_ALIAS_SQL.to_owned(), params }
}

/// Makes `alias` a name for `branch_name` in `repo_path`. An alias of that
/// name in the same repository is replaced; other repositories are not
/// touched. The statement that does so is handed to the database, and the
/// outcome tells whether the database took it.
pub fn create_alias(store: &mut Store, repo_path: &str, alias: &str, branch_name: &str, now: i64) -> (outcome:
    Result<(), GgoError>)
    ensures
        asked(
            *old(store),
            *final(store),
            (CREATE_ALIAS_SQL@, seq![repo_path@, alias@, branch_name@, decimal(now as int)]),
        ),
        outcome is Ok <==> last_answer(*final(store)) is Changed,
        outcome is Err ==> outcome->Err_0 is DatabaseError,
{
    let statement = create_alias_statement(repo_path, alias, branch_name, now);
    match run(store, &statement, "Failed to create alias") {
        Ok(_) => Ok(()),
        Err(error) => Err(error),
    }
}

/// The query for the branch that `alias` names in `repo_path`.
pub fn alias_query(repo_path: &str, alias: &str) -> (statement: Statement)
    ensures
        statement@ == (GET_ALIAS_SQL@, seq![repo_path@, alias@]),
{
    statement2(GET_ALIAS_SQL, repo_path, alias)
}

/// The branch that `alias` names in `repo_path`; none if the alias is not
/// defined in that repository, whatever other repositories define. The
/// query, which names the repository, is handed to the database, and its
/// answer is read as a single text.
pub fn get_alias(store: &mut Store, repo_path: &str, alias: &str) -> (outcome: Result<
    Option<String>,
    GgoError,
>)
    ensures
        asked(*old(store), *final(store), (GET_ALIAS_SQL@, seq![repo_path@, alias@])),
        is_text_outcome(last_answer(*final(store)), outcome),
{
    let statement = alias_query(repo_path, alias);
    fetch_text(store, &statement, "Failed to get alias")
}

/// The statement that removes `alias` from `repo_path`.
pub fn delete_alias_statement(repo_path: &str, alias: &str) -> (statement: Statement)
    ensures
        statement@ == (DELETE_ALIAS_SQL@, seq![repo_path@, alias@]),
{
    statement2(DELETE_ALIAS_SQL, repo_path, alias)
}

/// Removes `alias` from `repo_path`; nothing happens if it is not defined.
/// The statement that does so is handed to the database, and the outcome
/// tells whether the database took it.
pub fn delete_alias(store: &mut Store, repo_path: &str, alias: &str) -> (outcome: Result<
    (),
    GgoError,
>)
    ensures
        asked(*old(store), *final(store), (DELETE_ALIAS_SQL@, seq![repo_path@, alias@])),
        outcome is Ok <==> last_answer(*final(store)) is Changed,
        outcome is Err ==> outcome->Err_0 is DatabaseError,
{
    let statement = delete_alias_statement(repo_path, alias);
    match run(store, &statement, "Failed to delete alias") {
        Ok(_) => Ok(()),
        Err(error) => Err(error),
    }
}

/// The query for the aliases of `repo_path`.
pub fn list_aliases_query(repo_path: &str) -> (statement: Statement)
    ensures
        statement@ == (LIST_ALIASES_SQL@, seq![repo_path@]),
{
    statement1(LIST_ALIASES_SQL, repo_path)
}

/// The aliases of `repo_path`, by name: the query for them is handed to the
/// database, and its rows are read as aliases.
pub fn list_aliases(store: &mut Store, repo_path: &str) -> (outcome: Result<Vec<Alias>, GgoError>)
    ensures
        asked(*old(store), *final(store), (LIST_ALIASES_SQL@, seq![repo_path@])),
        is_aliases_outcome(last_answer(*final(store)), outcome),
{
    let statement = list_aliases_query(repo_path);
    match fetch(store, &statement, "Failed to query aliases") {
        Ok(rows) => Ok(aliases_from_rows(&rows)),
        Err(error) => Err(error),
    }
}

/// The query for the names of the aliases of `branch_name` in `repo_path`.
pub fn aliases_for_branch_query(repo_path: &str, branch_name: &str) -> (statement: Statement)
    ensures
        statement@ == (ALIASES_FOR_BRANCH_SQL@, seq![repo_path@, branch_name@]),
{
    statement2(ALIASES_FOR_BRANCH_SQL, repo_path, branch_name)
}

/// The names of the aliases of `branch_name` in `repo_path`, in order: the
/// query for them is handed to the database, and its rows are read as names.
pub fn get_aliases_for_branch(store: &mut Store, repo_path: &str, branch_name: &str) -> (outcome:
    Result<Vec<String>, GgoError>)
    ensures
        asked(
            *old(store),
            *final(store),
            (ALIASES_FOR_BRANCH_SQL@, seq![repo_path@, branch_name@]),
        ),
        is_texts_outcome(last_answer(*final(store)), outcome),
{
    let statement = aliases_for_branch_query(repo_path, branch_name);
    match fetch(store, &statement, "Failed to query aliases") {
        Ok(rows) => Ok(texts_from_rows(&rows)),
        Err(error) => Err(error),
    }
}

/// Totals over the whole store: checkouts, usage records and repositories.
/// The three queries for them are handed to the database in this order; a
/// total that cannot be read counts as zero.
pub fn get_stats(store: &mut Store) -> (outcome: Result<Stats, GgoError>)
    ensures
        continues(*old(store), *final(store), 3),
        handed(exchange_after(*old(store), *final(store), 0), plain(TOTAL_SWITCHES_SQL@)),
        handed(exchange_after(*old(store), *final(store), 1), plain(COUNT_BRANCHES_SQL@)),
        handed(exchange_after(*old(store), *final(store), 2), plain(COUNT_REPOS_SQL@)),
        outcome matches Ok(stats) && stats.db_path@ == old(store).location()
            && stats.total_switches == number_of(
            exchange_after(*old(store), *final(store), 0).answer,
        ) && stats.unique_branches == number_of(
            exchange_after(*old(store), *final(store), 1).answer,
        ) && stats.unique_repos == number_of(
            exchange_after(*old(store), *final(store), 2).answer,
        ),
{
    let ghost start = store.exchanges();
    let first = statement0(TOTAL_SWITCHES_SQL);
    let total_switches = count(store, &first);
    let ghost one = store.exchanges();
    let second = statement0(COUNT_BRANCHES_SQL);
    let unique_branches = count(store, &second);
    let ghost two = store.exchanges();
    proof {
        lemma_extends_compose(start, one, two, 1, 1);
    }
    let third = statement0(COUNT_REPOS_SQL);
    let unique_repos = count(store, &third);
    proof {
        lemma_extends_compose(start, two, store.exchanges(), 2, 1);
    }
    Ok(Stats { total_switches, unique_branches, unique_repos, db_path: store.path.clone() })
}

/// The time `max_age_days` days before `now`, limited to what a time can hold.
pub fn cleanup_cutoff(now: i64, max_age_days: i64) -> (time: i64)
    ensures
        time == cutoff(now as int, max_age_days as int),
{
    let span: i128 = (max_age_days as i128) * 86400;
    assert(span == max_age_days * DAY_SECONDS);
    let time: i128 = (now as i128) - span;
    if time > i64::MAX as i128 {
        i64::MAX
    } else if time < i64::MIN as i128 {
        i64::MIN
    } else {
        time as i64
    }
}

/// The statement that removes the usage records last used more than
/// `max_age_days` days before `now`.
pub fn cleanup_old_statement(max_age_days: i64, now: i64) -> (statement: Statement)
    ensures
        statement@ == (
            CLEANUP_OLD_SQL@,
            seq![decimal(cutoff(now as int, max_age_days as int))],
        ),
{
    let stamp = decimal_string(cleanup_cutoff(now, max_age_days));
    statement1(CLEANUP_OLD_SQL, stamp.as_str())
}

/// Removes the usage records last used more than `max_age_days` days before
/// `now`, and returns how many were removed: the statement that does so is
/// handed to the database, and the number of rows that it changed comes
/// back.
pub fn cleanup_old_records(store: &mut Store, max_age_days: i64, now: i64) -> (outcome: Result<
    usize,
    GgoError,
>)
    ensures
        asked(
            *old(store),
            *final(store),
            (CLEANUP_OLD_SQL@, seq![decimal(cutoff(now as int, max_age_days as int))]),
        ),
        match outcome {
            Ok(removed) => last_answer(*final(store)) == Answer::Changed(removed),
            Err(error) => last_answer(*final(store)) is Failed && error is DatabaseError,
        },
{
    let statement = cleanup_old_statement(max_age_days, now);
    run(store, &statement, "Failed to cleanup old branch records")
}

/// Reclaims the space of removed rows and refreshes the statistics for
/// query planning: the two statements that do so are handed to the
/// database, the second only if the first went through.
pub fn optimize_database(store: &mut Store) -> (outcome: Result<(), GgoError>)
    ensures
        final(store).location() == old(store).location(),
        final(store).probes() == old(store).probes(),
        ran_in_order(
            old(store).exchanges(),
            final(store).exchanges(),
            seq![plain(VACUUM_SQL@), plain(ANALYZE_SQL@)],
            outcome is Ok,
        ),
        outcome is Err ==> outcome->Err_0 is DatabaseError,
{
    let ghost start = store.exchanges();
    let ghost statements = seq![plain(VACUUM_SQL@), plain(ANALYZE_SQL@)];
    proof {
        lemma_ran_nothing(start);
        assert(statements.take(0) =~= Seq::empty());
    }
    let vacuum = statement0(VACUUM_SQL);
    let vacuumed = run(store, &vacuum, "Failed to run VACUUM");
    let ghost middle = store.exchanges();
    proof {
        lemma_ran_one_more(start, start, middle, statements, 0);
    }
    match vacuumed {
        Ok(_) => {},
        Err(error) => {
            return Err(error);
        },
    }
    let analyze = statement0(ANALYZE_SQL);
    let analyzed = run(store, &analyze, "Failed to run ANALYZE");
    proof {
        lemma_ran_one_more(start, middle, store.exchanges(), statements, 1);
        assert(statements.take(2) =~= statements);
    }
    match analyzed {
        Ok(_) => Ok(()),
        Err(error) => Err(error),
    }
}

impl Store {
    /// The path of the database file; empty for a database in memory.
    pub closed spec fn location(&self) -> Seq<char> {
        self.path@
    }

    /// The exchanges that went over the connection since the store was
    /// opened, in order.
    pub closed spec fn exchanges(&self) -> Seq<Exchange> {
        self.log@
    }

    /// The questions that were put to git on behalf of the store since it
    /// was opened, with their answers, in order.
    pub closed spec fn probes(&self) -> Seq<Probe> {
        self.asked_git@
    }

    /// The path of the database file; empty for a database in memory.
    pub fn path(&self) -> (path: &String)
        ensures
            path@ == self.location(),
    {
        &self.path
    }
}

/// Statement that creates the ledger of schema versions where it is missing.
pub const CREATE_LEDGER_SQL: &'static str =
    "CREATE TABLE IF NOT EXISTS schema_version (
            version INTEGER PRIMARY KEY,
            applied_at INTEGER NOT NULL
        )";

/// Query for the highest version in the ledger.
pub const HIGHEST_VERSION_SQL: &'static str =
    "SELECT version FROM schema_version ORDER BY version DESC LIMIT 1";

/// Statement that enters a version in the ledger with the time of entry.
pub const RECORD_VERSION_SQL: &'static str =
    "INSERT INTO schema_version (version, applied_at) VALUES (?1, ?2)";

/// First version: the table of usage records.
pub const CREATE_BRANCHES_SQL: &'static str =
    "CREATE TABLE IF NOT EXISTS branches (
                        id INTEGER PRIMARY KEY,
                        repo_path TEXT NOT NULL,
                        branch_name TEXT NOT NULL,
                        switch_count INTEGER DEFAULT 1,
                        last_used INTEGER NOT NULL,
                        UNIQUE(repo_path, branch_name)
                    )";

/// First version: the index of usage records by repository and time.
pub const CREATE_REPO_INDEX_SQL: &'static str =
    "CREATE INDEX IF NOT EXISTS idx_branches_repo_last_used
                     ON branches(repo_path, last_used DESC)";

/// First version: the index of usage records by time.
pub const CREATE_TIME_INDEX_SQL: &'static str =
    "CREATE INDEX IF NOT EXISTS idx_branches_last_used
                     ON branches(last_used DESC)";

/// Second version: the table of aliases, keyed by repository and name.
pub const CREATE_ALIASES_SQL: &'static str =
    "CREATE TABLE IF NOT EXISTS aliases (
                        repo_path TEXT NOT NULL,
                        alias TEXT NOT NULL,
                        branch_name TEXT NOT NULL,
                        created_at INTEGER NOT NULL,
                        PRIMARY KEY (repo_path, alias)
                    )";

/// Second version: the index of aliases by repository and branch.
pub const CREATE_ALIAS_INDEX_SQL: &'static str =
    "CREATE INDEX IF NOT EXISTS idx_aliases_branch
                     ON aliases(repo_path, branch_name)";

/// The texts of the statements that bring the schema from the version
/// before `version` to `version`, in order; `None` for a version that the
/// store does not know.
pub open spec fn migration_sql(version: int) -> Option<Seq<Seq<char>>> {
    if version == 1 {
        Some(
            seq![
                CREATE_BRANCHES_SQL@,
                CREATE_REPO_INDEX_SQL@,
                CREATE_TIME_INDEX_SQL@,
                CREATE_PREVIOUS_SQL@,
            ],
        )
    } else if version == 2 {
        Some(seq![CREATE_ALIASES_SQL@, CREATE_ALIAS_INDEX_SQL@])
    } else {
        None
    }
}

/// The versions that remain to be applied to a store whose ledger has
/// `from` as its highest version: every version above `from` up to the
/// current one, in ascending order.
pub open spec fn pending_versions(from: int) -> Seq<int> {
    Seq::new(
        if from < SCHEMA_VERSION {
            (SCHEMA_VERSION - from) as nat
        } else {
            0
        },
        |i: int| from + 1 + i,
    )
}

/// The versions `1..=upto`, in ascending order.
pub open spec fn versions_through(upto: int) -> Seq<int> {
    Seq::new(
        if upto > 0 {
            upto as nat
        } else {
            0
        },
        |i: int| i + 1,
    )
}

/// The version that the answer to the ledger query stands for: the integer
/// of its first row where that is a version number, zero otherwise.
pub open spec fn ledger_version_of(rows: Seq<Option<Vec<SqlValue>>>) -> int {
    let value = integer_or_zero_of(rows);
    if i32::MIN <= value <= i32::MAX {
        value as int
    } else {
        0
    }
}

/// A ledger that holds the versions up to `from` without gaps holds, once
/// the pending versions are entered after them, every version from the
/// first to the current one exactly once and in ascending order. A fresh
/// store, whose ledger is empty, walks every version.
pub proof fn lemma_ledger_complete(from: int)
    requires
        0 <= from <= SCHEMA_VERSION,
    ensures
        versions_through(from) + pending_versions(from) == versions_through(SCHEMA_VERSION as int),
        pending_versions(0) == versions_through(SCHEMA_VERSION as int),
        forall|i: int, j: int|
            0 <= i < j < versions_through(SCHEMA_VERSION as int).len() ==> versions_through(
                SCHEMA_VERSION as int,
            )[i] < versions_through(SCHEMA_VERSION as int)[j],
{
    assert(versions_through(from) + pending_versions(from) =~= versions_through(
        SCHEMA_VERSION as int,
    ));
    assert(pending_versions(0) =~= versions_through(SCHEMA_VERSION as int));
}

/// What a run of migrations did: the versions that were applied and entered
/// in the ledger, in order, and the error that stopped the run, if any.
#[derive(Debug, Clone)]
pub struct MigrationReport {
    pub applied: Vec<i32>,
    pub error: Option<GgoError>,
}

/// The versions of a list, as integers.
pub open spec fn version_numbers(versions: Seq<i32>) -> Seq<int> {
    versions.map_values(|v: i32| v as int)
}

/// The statements of one migration step.
pub fn migration_statements(version: i32) -> (statements: Option<Vec<Statement>>)
    ensures
        match migration_sql(version as int) {
            Some(sqls) => statements matches Some(list) && list@.len() == sqls.len() && forall|
                i: int,
            |
                0 <= i < sqls.len() ==> (#[trigger] list@[i])@ == (
                    sqls[i],
                    Seq::<Seq<char>>::empty(),
                ),
            None => statements is None,
        },
{
    if version == 1 {
        let mut list: Vec<Statement> = Vec::new();
        list.push(statement0(CREATE_BRANCHES_SQL));
        list.push(statement0(CREATE_REPO_INDEX_SQL));
        list.push(statement0(CREATE_TIME_INDEX_SQL));
        list.push(statement0(CREATE_PREVIOUS_SQL));
        Some(list)
    } else if version == 2 {
        let mut list: Vec<Statement> = Vec::new();
        list.push(statement0(CREATE_ALIASES_SQL));
        list.push(statement0(CREATE_ALIAS_INDEX_SQL));
        Some(list)
    } else {
        None
    }
}

/// The statement that enters `version` in the ledger at `now`.
pub fn record_version_statement(version: i32, now: i64) -> (statement: Statement)
    ensures
        statement@ == (RECORD_VERSION_SQL@, seq![decimal(version as int), decimal(now as int)]),
{
    let number = decimal_string(version as i64);
    let stamp = decimal_string(now);
    statement2(RECORD_VERSION_SQL, number.as_str(), stamp.as_str())
}

/// The statements of one migration step, in the order in which they are
/// handed over: those that change the schema, then the entry of the version
/// in the ledger with the time `now`.
pub open spec fn step_statements(version: int, now: int) -> Seq<(Seq<char>, Seq<Seq<char>>)> {
    match migration_sql(version) {
        Some(sqls) => sqls.map_values(|sql: Seq<char>| plain(sql)).push(
            (RECORD_VERSION_SQL@, seq![decimal(version), decimal(now)]),
        ),
        None => Seq::empty(),
    }
}

/// The statements of all migration steps above `from` up to `upto`, step by
/// step in ascending order of version.
pub open spec fn migration_trace(from: int, upto: int, now: int) -> Seq<
    (Seq<char>, Seq<Seq<char>>),
>
    decreases upto - from,
{
    if upto <= from {
        Seq::empty()
    } else {
        migration_trace(from, upto - 1, now) + step_statements(upto, now)
    }
}

/// The statements of the steps up to a version are the first of the
/// statements of the steps up to any later version.
pub proof fn lemma_migration_trace_prefix(from: int, version: int, upto: int, now: int)
    requires
        from <= version <= upto,
    ensures
        migration_trace(from, version, now).len() <= migration_trace(from, upto, now).len(),
        migration_trace(from, upto, now).take(migration_trace(from, version, now).len() as int)
            == migration_trace(from, version, now),
    decreases upto - version,
{
    let short = migration_trace(from, version, now);
    if version == upto {
        assert(short.take(short.len() as int) =~= short);
    } else {
        lemma_migration_trace_prefix(from, version, upto - 1, now);
        let middle = migration_trace(from, upto - 1, now);
        let long = migration_trace(from, upto, now);
        assert(long == middle + step_statements(upto, now));
        assert(long.take(short.len() as int) =~= middle.take(short.len() as int));
    }
}

/// Applies one migration step: its statements in order, then its entry in
/// the ledger. Stops at the first statement that fails. A version that the
/// store does not know is refused before anything is handed over.
fn apply_migration(store: &mut Store, version: i32, now: i64) -> (outcome: Result<(), GgoError>)
    ensures
        final(store).location() == old(store).location(),
        final(store).probes() == old(store).probes(),
        migration_sql(version as int) is Some ==> ran_in_order(
            old(store).exchanges(),
            final(store).exchanges(),
            step_statements(version as int, now as int),
            outcome is Ok,
        ) && (outcome is Err ==> outcome->Err_0 is DatabaseError),
        migration_sql(version as int) is None ==> final(store).exchanges() == old(store).exchanges() && outcome is Err && outcome->Err_0 is Other,
{
    let ghost start = store.exchanges();
    let ghost steps = step_statements(version as int, now as int);
    let statements = match migration_statements(version) {
        Some(list) => list,
        None => {
            let mut words = "Unknown migration version: ".to_owned();
            let number = decimal_string(version as i64);
            words.append(number.as_str());
            return Err(GgoError::Other(words));
        },
    };
    proof {
        lemma_ran_nothing(start);
        assert(steps.take(0) =~= Seq::empty());
    }
    let mut i: usize = 0;
    while i < statements.len()
        invariant
            i <= statements@.len(),
            store.location() == old(store).location(),
            store.probes() == old(store).probes(),
            start == old(store).exchanges(),
            migration_sql(version as int) is Some,
            steps == step_statements(version as int, now as int),
            statements@.len() + 1 == steps.len(),
            forall|k: int| 0 <= k < statements@.len() ==> (#[trigger] statements@[k])@ == steps[k],
            ran_in_order(start, store.exchanges(), steps.take(i as int), true),
        decreases statements@.len() - i,
    {
        let ghost middle = store.exchanges();
        let outcome = run(store, &statements[i], "Failed to apply migration");
        proof {
            lemma_ran_one_more(start, middle, store.exchanges(), steps, i as int);
        }
        match outcome {
            Ok(_) => {},
            Err(error) => {
                return Err(error);
            },
        }
        i += 1;
    }
    let entry = record_version_statement(version, now);
    let ghost middle = store.exchanges();
    let outcome = run(store, &entry, "Failed to record migration version");
    proof {
        lemma_ran_one_more(start, middle, store.exchanges(), steps, i as int);
        assert(steps.take(i + 1) =~= steps);
    }
    match outcome {
        Ok(_) => Ok(()),
        Err(error) => Err(error),
    }
}

/// Brings the schema forward from `from_version`: applies every later
/// version up to the current one, in ascending order and one at a time,
/// entering each in the ledger as soon as it is applied. The run stops at
/// the first step that fails; what was applied before stays applied.
pub fn run_migrations(store: &mut Store, from_version: i32, now: i64) -> (report: MigrationReport)
    ensures
        final(store).location() == old(store).location(),
        final(store).probes() == old(store).probes(),
        from_version >= 0 ==> ran_in_order(
            old(store).exchanges(),
            final(store).exchanges(),
            migration_trace(from_version as int, SCHEMA_VERSION as int, now as int),
            report.error is None,
        ),
        from_version < 0 ==> final(store).exchanges() == old(store).exchanges()
            && report.error is Some,
        version_numbers(report.applied@) == pending_versions(from_version as int).take(
            report.applied@.len() as int,
        ),
        report.applied@.len() <= pending_versions(from_version as int).len(),
        report.error is None ==> version_numbers(report.applied@) == pending_versions(
            from_version as int,
        ),
        report.error is Some ==> report.applied@.len() < pending_versions(
            from_version as int,
        ).len(),
        report.error is Some ==> report.error->0 is DatabaseError || report.error->0 is Other,
{
    let ghost start = store.exchanges();
    let ghost all = migration_trace(from_version as int, SCHEMA_VERSION as int, now as int);
    let ghost pending = pending_versions(from_version as int);
    let mut applied: Vec<i32> = Vec::new();
    proof {
        lemma_ran_nothing(start);
    }
    if from_version >= SCHEMA_VERSION {
        proof {
            assert(version_numbers(applied@) =~= pending);
            assert(pending.take(0) =~= pending);
        }
        return MigrationReport { applied, error: None };
    }
    let mut version: i32 = from_version + 1;
    proof {
        assert(version_numbers(applied@) =~= pending.take(0));
    }
    loop
        invariant
            from_version < SCHEMA_VERSION,
            store.location() == old(store).location(),
            store.probes() == old(store).probes(),
            start == old(store).exchanges(),
            pending == pending_versions(from_version as int),
            all == migration_trace(from_version as int, SCHEMA_VERSION as int, now as int),
            from_version < version <= SCHEMA_VERSION,
            applied@.len() == version - from_version - 1,
            version_numbers(applied@) == pending.take(applied@.len() as int),
            from_version >= 0 ==> ran_in_order(
                start,
                store.exchanges(),
                migration_trace(from_version as int, version - 1, now as int),
                true,
            ),
            from_version < 0 ==> version == from_version + 1 && store.exchanges() == start,
        decreases SCHEMA_VERSION - version,
    {
        let ghost middle = store.exchanges();
        let outcome = apply_migration(store, version, now);
        proof {
            if from_version >= 0 {
                let first = migration_trace(from_version as int, version - 1, now as int);
                let second = step_statements(version as int, now as int);
                assert(migration_sql(version as int) is Some);
                assert(first + second == migration_trace(
                    from_version as int,
                    version as int,
                    now as int,
                ));
                lemma_migration_trace_prefix(
                    from_version as int,
                    version as int,
                    SCHEMA_VERSION as int,
                    now as int,
                );
                lemma_ran_then(start, middle, store.exchanges(), first, second, all, outcome is Ok);
            } else {
                assert(migration_sql(version as int) is None);
            }
        }
        match outcome {
            Ok(_) => {},
            Err(error) => {
                return MigrationReport { applied, error: Some(error) };
            },
        }
        proof {
            assert(version_numbers(applied@.push(version)) =~= pending.take(
                applied@.len() as int + 1,
            ));
        }
        applied.push(version);
        if version == SCHEMA_VERSION {
            proof {
                assert(pending.take(applied@.len() as int) =~= pending);
            }
            return MigrationReport { applied, error: None };
        }
        version = version + 1;
    }
}

/// Reads the highest version from the answer to the ledger query: zero for
/// an empty ledger and for an answer that holds no version number.
pub fn ledger_version(rows: &Vec<Option<Vec<SqlValue>>>) -> (version: i32)
    ensures
        version == ledger_version_of(rows@),
{
    let value = integer_or_zero(rows);
    if value >= i32::MIN as i64 && value <= i32::MAX as i64 {
        value as i32
    } else {
        0
    }
}

/// The version that the answer to the ledger query stands for: zero for a
/// query that failed.
pub open spec fn answered_version(answer: Answer) -> int {
    match answer {
        Answer::Rows(rows) => ledger_version_of(rows@),
        _ => 0,
    }
}

/// Whether, between the records `before` and `after`, a store was
/// prepared: the statement that creates the ledger was handed over; if it
/// went through, so was the query for the highest version in the ledger,
/// and after it the statements of every migration step above the version
/// that the answer stands for, up to the first that failed. `done` tells
/// whether everything went through.
pub open spec fn is_initialization(
    before: Seq<Exchange>,
    after: Seq<Exchange>,
    now: int,
    done: bool,
) -> bool {
    &&& after.len() > before.len()
    &&& after.take(before.len() as int) == before
    &&& handed(after[before.len() as int], plain(CREATE_LEDGER_SQL@))
    &&& if after[before.len() as int].answer is Failed {
        !done && after.len() == before.len() + 1
    } else {
        &&& after.len() >= before.len() + 2
        &&& handed(after[before.len() as int + 1], plain(HIGHEST_VERSION_SQL@))
        &&& if answered_version(after[before.len() as int + 1].answer) >= 0 {
            ran_in_order(
                after.take(before.len() as int + 2),
                after,
                migration_trace(
                    answered_version(after[before.len() as int + 1].answer),
                    SCHEMA_VERSION as int,
                    now,
                ),
                done,
            )
        } else {
            !done && after.len() == before.len() + 2
        }
    }
}

/// Prepares the database of a store that was just opened: creates the
/// ledger where it is missing, reads the highest version entered in it
/// (zero for an empty or unreadable ledger) and applies every migration
/// above that version. A failure of any step is fatal. Returns the versions
/// that were applied.
pub fn initialize_tables(store: &mut Store, now: i64) -> (outcome: Result<Vec<i32>, GgoError>)
    ensures
        final(store).location() == old(store).location(),
        final(store).probes() == old(store).probes(),
        is_initialization(
            old(store).exchanges(),
            final(store).exchanges(),
            now as int,
            outcome is Ok,
        ),
        outcome matches Ok(applied) ==> version_numbers(applied@) == pending_versions(
            answered_version(exchange_after(*old(store), *final(store), 1).answer),
        ),
        outcome is Err ==> outcome->Err_0 is DatabaseError || outcome->Err_0 is Other,
{
    let ghost start = store.exchanges();
    let create = statement0(CREATE_LEDGER_SQL);
    let created = run(store, &create, "Failed to create schema_version table");
    let ghost one = store.exchanges();
    match created {
        Ok(_) => {},
        Err(error) => {
            return Err(error);
        },
    }
    let query = statement0(HIGHEST_VERSION_SQL);
    let current: i32 = match fetch(store, &query, "Failed to read schema version") {
        Ok(rows) => ledger_version(&rows),
        Err(_) => 0,
    };
    let ghost two = store.exchanges();
    proof {
        lemma_extends_compose(start, one, two, 1, 1);
        assert(two[start.len() as int] == one.last());
        assert(two[start.len() as int + 1] == two.last());
        assert(current == answered_version(two.last().answer));
    }
    let report = run_migrations(store, current, now);
    proof {
        let last = store.exchanges();
        let n = last.len() - two.len();
        if current >= 0 {
            assert(extends(two, last, n));
        } else {
            assert(last =~= two);
            assert(extends(two, last, 0)) by {
                assert(last.take(two.len() as int) =~= two);
            }
        }
        lemma_extends_compose(start, two, last, 2, n);
        assert(last.take(start.len() as int + 2) =~= two);
    }
    match report.error {
        Some(error) => Err(error),
        None => {
            proof {
                assert(version_numbers(report.applied@) == pending_versions(current as int));
            }
            Ok(report.applied)
        },
    }
}

/// Makes a store of what opening a connection came to: a store at `path`
/// that has had no exchange yet, or a database error that names the attempt.
fn store_of(
    connection: Result<rusqlite::Connection, rusqlite::Error>,
    path: &str,
    attempt: &str,
) -> (outcome: Result<Store, GgoError>)
    ensures
        connection is Ok ==> (outcome matches Ok(store) && store.location() == path@
            && store.exchanges().len() == 0 && store.probes().len() == 0),
        connection is Err ==> (outcome matches Err(error) && error is DatabaseError),
{
    match connection {
        Ok(conn) => Ok(Store { conn, path: path.to_owned(), log: Ghost(Seq::empty()), asked_git: Ghost(Seq::empty()) }),
        Err(error) => Err(database_error(attempt, &error)),
    }
}

/// Opens the store in the database file at `path`, creating the file if it
/// does not exist, and brings its schema to the current version. The store
/// that comes back has had the exchanges of its preparation and no others.
pub fn open_db(path: &str, now: i64) -> (outcome: Result<Store, GgoError>)
    ensures
        outcome matches Ok(store) ==> store.location() == path@ && store.probes().len() == 0
            && is_initialization(Seq::empty(), store.exchanges(), now as int, true),
        outcome is Err ==> outcome->Err_0 is DatabaseError || outcome->Err_0 is Other,
{
    let mut store = match store_of(open_connection(path), path, "Failed to open database") {
        Ok(store) => store,
        Err(error) => {
            return Err(error);
        },
    };
    proof {
        assert(store.exchanges() =~= Seq::empty());
    }
    match initialize_tables(&mut store, now) {
        Ok(_) => Ok(store),
        Err(error) => Err(error),
    }
}

/// Opens a fresh store in memory, with its schema at the current version.
/// Nothing of it outlives the handle. The store that comes back has had the
/// exchanges of its preparation and no others.
pub fn open_memory_db(now: i64) -> (outcome: Result<Store, GgoError>)
    ensures
        outcome matches Ok(store) ==> store.location().len() == 0 && store.probes().len() == 0
            && is_initialization(Seq::empty(), store.exchanges(), now as int, true),
        outcome is Err ==> outcome->Err_0 is DatabaseError || outcome->Err_0 is Other,
{
    let opened = store_of(open_memory_connection(), "", "Failed to open in-memory database");
    let mut store = match opened {
        Ok(store) => store,
        Err(error) => {
            return Err(error);
        },
    };
    proof {
        reveal_strlit("");
        assert(store.exchanges() =~= Seq::empty());
    }
    match initialize_tables(&mut store, now) {
        Ok(_) => Ok(store),
        Err(error) => Err(error),
    }
}

/// Opens a database in memory and leaves it as it is: without ledger and
/// without tables, until `initialize_tables` prepares it. The store that
/// comes back has had no exchange yet.
pub fn open_blank_memory_db() -> (outcome: Result<Store, GgoError>)
    ensures
        outcome matches Ok(store) ==> store.location().len() == 0 && store.exchanges().len()
            == 0 && store.probes().len() == 0,
        outcome is Err ==> outcome->Err_0 is DatabaseError,
{
    proof {
        reveal_strlit("");
    }
    store_of(open_memory_connection(), "", "Failed to open in-memory database")
}

/// The leading integers of the rows from `start` up to the first row that
/// does not start with an integer.
pub open spec fn integers_of_rows(rows: Seq<Option<Vec<SqlValue>>>, start: int) -> Seq<i64>
    decreases rows.len() - start,
{
    if start < 0 || start >= rows.len() {
        Seq::empty()
    } else {
        match integer_of_row(cells(rows[start])) {
            Some(value) => seq![value] + integers_of_rows(rows, start + 1),
            None => Seq::empty(),
        }
    }
}

/// Reads the leading integer of each row, in order, up to the first row
/// that does not start with an integer.
pub fn integers_from_rows(rows: &Vec<Option<Vec<SqlValue>>>) -> (values: Vec<i64>)
    ensures
        values@ == integers_of_rows(rows@, 0),
{
    let mut values: Vec<i64> = Vec::new();
    let mut i: usize = 0;
    while i < rows.len()
        invariant
            i <= rows@.len(),
            integers_of_rows(rows@, 0) == values@ + integers_of_rows(rows@, i as int),
        decreases rows@.len() - i,
    {
        match read_integer(&rows[i]) {
            Some(value) => {
                proof {
                    assert(values@ + (seq![value] + integers_of_rows(rows@, i + 1))
                        =~= values@.push(value) + integers_of_rows(rows@, i + 1));
                }
                values.push(value);
            },
            None => {
                proof {
                    assert(values@ + Seq::empty() =~= values@);
                }
                return values;
            },
        }
        i += 1;
    }
    proof {
        assert(values@ + Seq::empty() =~= values@);
    }
    values
}

/// The versions entered in the ledger, in ascending order: the query for
/// them is handed to the database, and its rows are read as integers.
pub fn applied_versions(store: &mut Store) -> (outcome: Result<Vec<i64>, GgoError>)
    ensures
        asked(*old(store), *final(store), plain(LEDGER_SQL@)),
        match last_answer(*final(store)) {
            Answer::Rows(rows) => outcome matches Ok(versions) && versions@ == integers_of_rows(
                rows@,
                0,
            ),
            _ => outcome matches Err(error) && error is DatabaseError,
        },
{
    let query = statement0(LEDGER_SQL);
    match fetch(store, &query, "Failed to read schema versions") {
        Ok(rows) => Ok(integers_from_rows(&rows)),
        Err(error) => Err(error),
    }
}

/// Query for the versions entered in the ledger, in ascending order.
pub const LEDGER_SQL: &'static str = "SELECT version FROM schema_version ORDER BY version";

/// Statement that removes the usage record of one branch of a repository.
pub const DELETE_BRANCH_SQL: &'static str =
    "DELETE FROM branches WHERE repo_path = ?1 AND branch_name = ?2";

/// Statement that removes the aliases of one branch of a repository.
pub const DELETE_BRANCH_ALIASES_SQL: &'static str =
    "DELETE FROM aliases WHERE repo_path = ?1 AND branch_name = ?2";

/// Query for the number of usage records of a repository.
pub const COUNT_REPO_BRANCHES_SQL: &'static str =
    "SELECT COUNT(*) FROM branches WHERE repo_path = ?1";

/// Statement that removes the usage records of a repository.
pub const DELETE_REPO_BRANCHES_SQL: &'static str = "DELETE FROM branches WHERE repo_path = ?1";

/// Statement that removes the aliases of a repository.
pub const DELETE_REPO_ALIASES_SQL: &'static str = "DELETE FROM aliases WHERE repo_path = ?1";

/// `git2::Repository`, an open git repository, carried through as it is.
#[verifier::external_type_specification]
#[verifier::external_body]
pub struct ExRepository(git2::Repository);

/// What git says of a branch that the store has on record.
#[derive(Clone, Copy, Debug, PartialEq, Eq, Structural)]
pub enum BranchState {
    /// The repository and the branch exist.
    Present,
    /// The repository exists, the branch does not.
    BranchMissing,
    /// The repository no longer exists.
    RepositoryMissing,
}

/// Opens the repository at `path` with `Repository::open`; `None` where git
/// finds no repository there. The answer depends on the file system.
#[verifier::external_body]
fn open_repository(path: &str) -> Option<git2::Repository> {
    git2::Repository::open(path).ok()
}

/// Asks `Repository::find_branch` whether the repository has a local branch
/// of the given name. The answer depends on the repository.
#[verifier::external_body]
fn has_local_branch(repository: &git2::Repository, name: &str) -> bool {
    repository.find_branch(name, git2::BranchType::Local).is_ok()
}

/// What git says of a branch, given whether its repository was found and
/// whether the branch was found in it.
pub open spec fn state_of(repository_found: bool, branch_found: bool) -> BranchState {
    if !repository_found {
        BranchState::RepositoryMissing
    } else if branch_found {
        BranchState::Present
    } else {
        BranchState::BranchMissing
    }
}

/// Makes the state of a branch of what git found.
pub fn branch_state_from(repository_found: bool, branch_found: bool) -> (state: BranchState)
    ensures
        state == state_of(repository_found, branch_found),
{
    if !repository_found {
        BranchState::RepositoryMissing
    } else if branch_found {
        BranchState::Present
    } else {
        BranchState::BranchMissing
    }
}

/// Whether `after` is the store `before` after one more question to git,
/// about the branch `branch_name` of the repository at `repo_path`.
pub open spec fn probed(before: Store, after: Store, repo_path: Seq<char>, branch_name: Seq<char>)
    -> bool {
    &&& after.location() == before.location()
    &&& after.exchanges() == before.exchanges()
    &&& after.probes().len() == before.probes().len() + 1
    &&& after.probes().take(before.probes().len() as int) == before.probes()
    &&& after.probes().last().repo_path == repo_path
    &&& after.probes().last().branch_name == branch_name
    &&& !after.probes().last().repository_found ==> !after.probes().last().branch_found
}

/// What git said of the branch in the question that the store put last.
pub open spec fn last_state(store: Store) -> BranchState {
    state_of(store.probes().last().repository_found, store.probes().last().branch_found)
}

/// Asks git about a branch on record: whether its repository still exists,
/// and the branch in it. The question and its answer go on record.
fn branch_state(store: &mut Store, repo_path: &str, branch_name: &str) -> (state: BranchState)
    ensures
        probed(*old(store), *final(store), repo_path@, branch_name@),
        state == last_state(*final(store)),
{
    let ghost before = store.asked_git@;
    let (repository_found, branch_found) = match open_repository(repo_path) {
        Some(repository) => (true, has_local_branch(&repository, branch_name)),
        None => (false, false),
    };
    store.asked_git = Ghost(
        before.push(
            Probe {
                repo_path: repo_path@,
                branch_name: branch_name@,
                repository_found,
                branch_found,
            },
        ),
    );
    proof {
        assert(store.asked_git@.take(before.len() as int) =~= before);
    }
    branch_state_from(repository_found, branch_found)
}

/// The texts and parameters of the statements that clean up after a record
/// whose branch is in `state`.
pub open spec fn cleanup_sql(repo_path: Seq<char>, branch_name: Seq<char>, state: BranchState)
    -> Seq<(Seq<char>, Seq<Seq<char>>)> {
    match state {
        BranchState::Present => Seq::empty(),
        BranchState::BranchMissing => seq![
            (DELETE_BRANCH_SQL@, seq![repo_path, branch_name]),
            (DELETE_BRANCH_ALIASES_SQL@, seq![repo_path, branch_name]),
        ],
        BranchState::RepositoryMissing => seq![
            (DELETE_REPO_BRANCHES_SQL@, seq![repo_path]),
            (DELETE_REPO_ALIASES_SQL@, seq![repo_path]),
        ],
    }
}

/// The statements that clean up after a usage record, given what git says
/// of its branch: nothing for a branch that exists; for a missing branch
/// the removal of its record and of the aliases that name it; for a missing
/// repository the removal of all its records and all its aliases.
pub fn cleanup_statements(record: &BranchRecord, state: BranchState) -> (statements: Vec<Statement>)
    ensures
        statements@.map_values(|s: Statement| s@) == cleanup_sql(
            record.repo_path@,
            record.branch_name@,
            state,
        ),
{
    let mut statements: Vec<Statement> = Vec::new();
    match state {
        BranchState::Present => {},
        BranchState::BranchMissing => {
            statements.push(
                statement2(
                    DELETE_BRANCH_SQL,
                    record.repo_path.as_str(),
                    record.branch_name.as_str(),
                ),
            );
            statements.push(
                statement2(
                    DELETE_BRANCH_ALIASES_SQL,
                    record.repo_path.as_str(),
                    record.branch_name.as_str(),
                ),
            );
        },
        BranchState::RepositoryMissing => {
            statements.push(statement1(DELETE_REPO_BRANCHES_SQL, record.repo_path.as_str()));
            statements.push(statement1(DELETE_REPO_ALIASES_SQL, record.repo_path.as_str()));
        },
    }
    proof {
        assert(statements@.map_values(|s: Statement| s@) =~= cleanup_sql(
            record.repo_path@,
            record.branch_name@,
            state,
        ));
    }
    statements
}

/// How many records count as removed after a usage record, given what git
/// says of its branch and how many records its repository had on record.
pub open spec fn removed_count(state: BranchState, repo_records: int) -> int {
    match state {
        BranchState::Present => 0,
        BranchState::BranchMissing => 1,
        BranchState::RepositoryMissing => if repo_records > 0 {
            repo_records
        } else {
            0
        },
    }
}

/// `total` and `more` added up, limited to what a count can hold.
pub open spec fn counted(total: int, more: int) -> int {
    if total + more > usize::MAX {
        usize::MAX as int
    } else {
        total + more
    }
}

/// Adds to a running count of removed records what the cleanup after one
/// record removed.
pub fn add_removed(total: usize, state: BranchState, repo_records: i64) -> (sum: usize)
    ensures
        sum == counted(total as int, removed_count(state, repo_records as int)),
{
    let more: u64 = match state {
        BranchState::Present => 0,
        BranchState::BranchMissing => 1,
        BranchState::RepositoryMissing => if repo_records > 0 {
            repo_records as u64
        } else {
            0
        },
    };
    let room: usize = usize::MAX - total;
    if more > room as u64 {
        usize::MAX
    } else {
        total + (more as usize)
    }
}

/// What the cleanup after one usage record adds to the record of exchanges
/// from position `at` on, and to the count `total` of removed records,
/// given what git says of its branch: nothing for a branch that exists; the
/// two removals for a branch that is gone, which count as one record; for a
/// repository that is gone the query for the number of its records and the
/// two removals, which count as many records as the query found. `None`
/// where the record of exchanges does not hold these at that position.
pub open spec fn cleanup_step(
    repo_path: Seq<char>,
    branch_name: Seq<char>,
    state: BranchState,
    log: Seq<Exchange>,
    at: int,
    total: int,
) -> Option<(int, int)> {
    match state {
        BranchState::Present => Some((at, total)),
        BranchState::BranchMissing => if 0 <= at && at + 2 <= log.len() && handed(
            log[at],
            (DELETE_BRANCH_SQL@, seq![repo_path, branch_name]),
        ) && handed(log[at + 1], (DELETE_BRANCH_ALIASES_SQL@, seq![repo_path, branch_name])) {
            Some((at + 2, counted(total, 1)))
        } else {
            None
        },
        BranchState::RepositoryMissing => if 0 <= at && at + 3 <= log.len() && handed(
            log[at],
            (COUNT_REPO_BRANCHES_SQL@, seq![repo_path]),
        ) && handed(log[at + 1], (DELETE_REPO_BRANCHES_SQL@, seq![repo_path])) && handed(
            log[at + 2],
            (DELETE_REPO_ALIASES_SQL@, seq![repo_path]),
        ) {
            Some(
                (
                    at + 3,
                    counted(
                        total,
                        removed_count(
                            BranchState::RepositoryMissing,
                            number_of(log[at].answer) as int,
                        ),
                    ),
                ),
            )
        } else {
            None
        },
    }
}

/// What the cleanup after the first `upto` of the usage records adds to
/// the record of exchanges from position `start` on, given what git says of
/// each of their branches: the position that it reaches and the count of
/// removed records.
pub open spec fn cleanup_replay(
    records: Seq<(Seq<char>, Seq<char>, i64, i64)>,
    states: Seq<BranchState>,
    upto: int,
    log: Seq<Exchange>,
    start: int,
) -> Option<(int, int)>
    decreases upto,
{
    if upto <= 0 {
        Some((start, 0))
    } else {
        match cleanup_replay(records, states, upto - 1, log, start) {
            Some((at, total)) => cleanup_step(
                records[upto - 1].0,
                records[upto - 1].1,
                states[upto - 1],
                log,
                at,
                total,
            ),
            None => None,
        }
    }
}

/// The cleanup after some records reads the same from a longer record of
/// exchanges and with more known of later branches.
proof fn lemma_cleanup_replay_frame(
    records: Seq<(Seq<char>, Seq<char>, i64, i64)>,
    states: Seq<BranchState>,
    more_states: Seq<BranchState>,
    upto: int,
    log: Seq<Exchange>,
    longer: Seq<Exchange>,
    start: int,
)
    requires
        0 <= upto <= states.len() <= more_states.len(),
        forall|j: int| 0 <= j < upto ==> states[j] == more_states[j],
        extends(log, longer, longer.len() - log.len()),
        0 <= start <= log.len(),
        cleanup_replay(records, states, upto, log, start) is Some,
    ensures
        cleanup_replay(records, states, upto, log, start) matches Some(reached) && start
            <= reached.0 && reached.0 <= log.len(),
        cleanup_replay(records, more_states, upto, longer, start) == cleanup_replay(
            records,
            states,
            upto,
            log,
            start,
        ),
    decreases upto,
{
    if upto > 0 {
        lemma_cleanup_replay_frame(records, states, more_states, upto - 1, log, longer, start);
        let before = cleanup_replay(records, states, upto - 1, log, start)->0;
        let at = before.0;
        assert forall|j: int| 0 <= j < log.len() implies longer[j] == log[j] by {
            assert(longer.take(log.len() as int)[j] == longer[j]);
        }
    }
}

/// What git said of the branches in the `n` questions from number `from`
/// on, one state for each question.
pub open spec fn probed_states(probes: Seq<Probe>, from: int, n: int) -> Seq<BranchState> {
    Seq::new(
        if n >= 0 {
            n as nat
        } else {
            0
        },
        |i: int| state_of(probes[from + i].repository_found, probes[from + i].branch_found),
    )
}

/// Whether the `records.len()` questions from number `from` on were about
/// the branches of the records, one after the other.
pub open spec fn probes_follow(
    probes: Seq<Probe>,
    from: int,
    records: Seq<(Seq<char>, Seq<char>, i64, i64)>,
) -> bool {
    &&& probes.len() == from + records.len()
    &&& forall|i: int|
        0 <= i < records.len() ==> (#[trigger] probes[from + i]).repo_path == records[i].0
            && probes[from + i].branch_name == records[i].1
}

/// Cleans up after one usage record, given what git says of its branch:
/// hands to the database what the cleanup asks for, whether or not the
/// database takes it, and returns the count of removed records with what
/// this cleanup adds to it. For a repository that is gone the number of its
/// records is asked first.
pub fn cleanup_after(store: &mut Store, record: &BranchRecord, state: BranchState, total: usize)
    -> (sum: usize)
    ensures
        final(store).location() == old(store).location(),
        final(store).probes() == old(store).probes(),
        extends(
            old(store).exchanges(),
            final(store).exchanges(),
            final(store).exchanges().len() - old(store).exchanges().len(),
        ),
        cleanup_step(
            record.repo_path@,
            record.branch_name@,
            state,
            final(store).exchanges(),
            old(store).exchanges().len() as int,
            total as int,
        ) == Some((final(store).exchanges().len() as int, sum as int)),
{
    let ghost base = store.exchanges();
    let repo_records: i64 = match state {
        BranchState::RepositoryMissing => {
            let query = statement1(COUNT_REPO_BRANCHES_SQL, record.repo_path.as_str());
            count(store, &query)
        },
        _ => 0,
    };
    let ghost counted_at = store.exchanges();
    proof {
        if state == BranchState::RepositoryMissing {
            assert(extends(base, counted_at, 1));
            assert(counted_at[base.len() as int] == counted_at.last());
        } else {
            assert(counted_at.take(base.len() as int) =~= base);
        }
    }
    let statements = cleanup_statements(record, state);
    let ghost planned = cleanup_sql(record.repo_path@, record.branch_name@, state);
    let mut k: usize = 0;
    proof {
        assert(counted_at.take(counted_at.len() as int) =~= counted_at);
        assert(statements@.len() == planned.len()) by {
            assert(statements@.map_values(|s: Statement| s@).len() == planned.len());
        }
    }
    while k < statements.len()
        invariant
            k <= statements@.len(),
            store.location() == old(store).location(),
            store.probes() == old(store).probes(),
            statements@.map_values(|s: Statement| s@) == planned,
            statements@.len() == planned.len(),
            extends(counted_at, store.exchanges(), k as int),
            forall|j: int|
                0 <= j < k ==> handed(
                    #[trigger] store.exchanges()[counted_at.len() + j],
                    planned[j],
                ),
        decreases statements@.len() - k,
    {
        let ghost middle = store.exchanges();
        let _ = run(store, &statements[k], "Failed to remove stale records");
        proof {
            let grown = store.exchanges();
            lemma_extends_compose(counted_at, middle, grown, k as int, 1);
            assert(statements@.map_values(|s: Statement| s@)[k as int] == statements@[k as int]@);
            assert(grown[counted_at.len() + k] == grown.last());
            assert forall|j: int| 0 <= j < k + 1 implies handed(
                #[trigger] grown[counted_at.len() + j],
                planned[j],
            ) by {
                if j < k {
                    assert(grown[counted_at.len() + j] == middle[counted_at.len() + j]);
                }
            }
        }
        k += 1;
    }
    let sum = add_removed(total, state, repo_records);
    proof {
        let grown = store.exchanges();
        let n = counted_at.len() - base.len();
        lemma_extends_compose(base, counted_at, grown, n, k as int);
        if state == BranchState::BranchMissing {
            assert(grown[base.len() as int] == grown[counted_at.len() as int + 0]);
            assert(grown[base.len() as int + 1] == grown[counted_at.len() as int + 1]);
        }
        if state == BranchState::RepositoryMissing {
            assert(grown[base.len() as int] == counted_at[base.len() as int]);
            assert(grown[base.len() as int + 1] == grown[counted_at.len() as int + 0]);
            assert(grown[base.len() as int + 2] == grown[counted_at.len() as int + 1]);
        }
    }
    sum
}

/// Removes what the store holds on branches that no longer exist. Every
/// usage record is checked with git: where the branch is gone, its record
/// and the aliases that name it are removed; where the whole repository is
/// gone, all its records and aliases are. Returns the number of usage
/// records that were removed. The query for all records is handed to the
/// database first. Then, record by record, git is asked about the branch of
/// the record, and what the cleanup after the record asks for, given git's
/// answer, is handed to the database, whether or not the database takes it.
pub fn cleanup_deleted_branches(store: &mut Store) -> (outcome: Result<usize, GgoError>)
    ensures
        final(store).location() == old(store).location(),
        final(store).exchanges().len() > old(store).exchanges().len(),
        final(store).exchanges().take(old(store).exchanges().len() as int) == old(store).exchanges(),
        final(store).probes().take(old(store).probes().len() as int) == old(store).probes(),
        handed(exchange_after(*old(store), *final(store), 0), plain(ALL_RECORDS_SQL@)),
        match exchange_after(*old(store), *final(store), 0).answer {
            Answer::Rows(rows) => outcome matches Ok(deleted) && probes_follow(
                final(store).probes(),
                old(store).probes().len() as int,
                records_of_rows(rows@, 0),
            ) && cleanup_replay(
                records_of_rows(rows@, 0),
                probed_states(
                    final(store).probes(),
                    old(store).probes().len() as int,
                    records_of_rows(rows@, 0).len() as int,
                ),
                records_of_rows(rows@, 0).len() as int,
                final(store).exchanges(),
                old(store).exchanges().len() as int + 1,
            ) == Some((final(store).exchanges().len() as int, deleted as int)),
            _ => outcome is Err && outcome->Err_0 is DatabaseError && final(store).exchanges().len() == old(store).exchanges().len() + 1 && final(store).probes()
                == old(store).probes(),
        },
{
    let ghost start = store.exchanges();
    let ghost asked_before = store.probes();
    let records = match get_all_records(store) {
        Ok(records) => records,
        Err(error) => {
            proof {
                assert(store.probes().take(asked_before.len() as int) =~= asked_before);
            }
            return Err(error);
        },
    };
    let ghost first = store.exchanges();
    let ghost views = record_views(records@);
    let ghost states: Seq<BranchState> = Seq::empty();
    let mut deleted: usize = 0;
    let mut i: usize = 0;
    proof {
        assert(first.take(first.len() as int) =~= first);
        assert(asked_before.take(asked_before.len() as int) =~= asked_before);
    }
    while i < records.len()
        invariant
            i <= records@.len(),
            store.location() == old(store).location(),
            asked_before == old(store).probes(),
            views == record_views(records@),
            extends(first, store.exchanges(), store.exchanges().len() - first.len()),
            store.probes().len() == asked_before.len() + i,
            store.probes().take(asked_before.len() as int) == asked_before,
            forall|j: int|
                0 <= j < i ==> (#[trigger] store.probes()[asked_before.len() + j]).repo_path
                    == views[j].0 && store.probes()[asked_before.len() + j].branch_name
                    == views[j].1,
            states.len() == i,
            forall|j: int|
                0 <= j < i ==> #[trigger] states[j] == state_of(
                    store.probes()[asked_before.len() + j].repository_found,
                    store.probes()[asked_before.len() + j].branch_found,
                ),
            cleanup_replay(views, states, i as int, store.exchanges(), first.len() as int) == Some(
                (store.exchanges().len() as int, deleted as int),
            ),
        decreases records@.len() - i,
    {
        let ghost base = store.exchanges();
        let ghost asked = store.probes();
        let record = &records[i];
        let state = branch_state(store, record.repo_path.as_str(), record.branch_name.as_str());
        let ghost asked_now = store.probes();
        let ghost total = deleted as int;
        deleted = cleanup_after(store, record, state, deleted);
        proof {
            let grown = store.exchanges();
            lemma_extends_compose(first, base, grown, base.len() - first.len(), grown.len() - base.len());
            let more = states.push(state);
            lemma_cleanup_replay_frame(views, states, more, i as int, base, grown, first.len() as int);
            assert(views[i as int] == records@[i as int]@);
            assert(more[i as int] == state);
            assert(asked_now[asked_before.len() + i] == asked_now.last());
            assert forall|j: int| 0 <= j < i implies #[trigger] asked_now[asked_before.len() + j]
                == asked[asked_before.len() + j] by {
                assert(asked_now.take(asked.len() as int)[asked_before.len() + j]
                    == asked_now[asked_before.len() + j]);
            }
            assert(asked_now.take(asked_before.len() as int) =~= asked_before) by {
                assert forall|j: int| 0 <= j < asked_before.len() implies asked_now[j]
                    == asked_before[j] by {
                    assert(asked_now.take(asked.len() as int)[j] == asked_now[j]);
                    assert(asked.take(asked_before.len() as int)[j] == asked[j]);
                }
            }
            states = more;
        }
        i += 1;
    }
    proof {
        let last = store.exchanges();
        lemma_extends_compose(start, first, last, 1, last.len() - first.len());
        assert(last[start.len() as int] == first.last());
        assert(first.len() == start.len() + 1);
        assert(states =~= probed_states(
            store.probes(),
            asked_before.len() as int,
            views.len() as int,
        ));
    }
    Ok(deleted)
}

/// Reads the system clock with `SystemTime::now` and returns the whole
/// seconds since the Unix epoch, zero for a clock set before it.
#[verifier::external_body]
fn unix_seconds() -> u64 {
    std::time::SystemTime::now().duration_since(std::time::UNIX_EPOCH).unwrap_or_default().as_secs()
}

/// The time that stands for a number of seconds since the Unix epoch: the
/// same number, limited to what a time can hold.
pub open spec fn timestamp_of(seconds: u64) -> i64 {
    if seconds > i64::MAX as u64 {
        i64::MAX
    } else {
        seconds as i64
    }
}

/// Makes a time of a number of seconds since the Unix epoch.
pub fn timestamp_from(seconds: u64) -> (time: i64)
    ensures
        time == timestamp_of(seconds),
{
    if seconds > i64::MAX as u64 {
        i64::MAX
    } else {
        seconds as i64
    }
}

/// The current time in seconds since the Unix epoch: what the clock shows,
/// as a time.
pub fn now_timestamp() -> (now: i64)
    ensures
        now >= 0,
{
    let seconds = unix_seconds();
    timestamp_from(seconds)
}

/// Runs a statement that changes the store and returns the number of rows
/// that it changed: the statement is handed to the database as it is.
pub fn execute(store: &mut Store, statement: &Statement) -> (outcome: Result<usize, GgoError>)
    ensures
        asked(*old(store), *final(store), statement@),
        match outcome {
            Ok(changed) => last_answer(*final(store)) == Answer::Changed(changed),
            Err(error) => last_answer(*final(store)) is Failed && error is DatabaseError,
        },
{
    run(store, statement, "Failed to execute statement")
}

/// Runs a query and returns its rows, each with the cells of all its
/// columns: the query is handed to the database as it is.
pub fn query(store: &mut Store, statement: &Statement) -> (outcome: Result<
    Vec<Option<Vec<SqlValue>>>,
    GgoError,
>)
    ensures
        asked(*old(store), *final(store), statement@),
        match outcome {
            Ok(rows) => last_answer(*final(store)) == Answer::Rows(rows),
            Err(error) => last_answer(*final(store)) is Failed && error is DatabaseError,
        },
{
    fetch(store, statement, "Failed to run query")
}

} // verus!
