//! The statements that keep the relational store in step with the directory,
//! and the queries that read it.

use vstd::prelude::*;
use vstd::string::*;
use crate::chain::{provisioned, DbWrite, DbWriteView};
use crate::string_map::StringMap;
use crate::text::str_eq;

verus! {

/// A value bound to a statement, or found in a row.
pub enum SqlValue {
    Null,
    Integer(u64),
    Text(String),
}

/// The view of [`SqlValue`] that contracts speak of.
pub enum SqlValueView {
    Null,
    Integer(u64),
    Text(Seq<char>),
}

impl View for SqlValue {
    type V = SqlValueView;

    open spec fn view(&self) -> SqlValueView {
        match *self {
            SqlValue::Null => SqlValueView::Null,
            SqlValue::Integer(n) => SqlValueView::Integer(n),
            SqlValue::Text(t) => SqlValueView::Text(t@),
        }
    }
}

/// SQL text with the values for its numbered placeholders.
pub struct Statement {
    pub sql: String,
    pub params: Vec<SqlValue>,
}

/// The view of [`Statement`] that contracts speak of.
#[verifier::ext_equal]
pub struct StatementView {
    pub sql: Seq<char>,
    pub params: Seq<SqlValueView>,
}

pub open spec fn params_view(params: Seq<SqlValue>) -> Seq<SqlValueView> {
    params.map_values(|p: SqlValue| p@)
}

impl View for Statement {
    type V = StatementView;

    open spec fn view(&self) -> StatementView {
        StatementView { sql: self.sql@, params: params_view(self.params@) }
    }
}

pub open spec fn statements_view(statements: Seq<Statement>) -> Seq<StatementView> {
    statements.map_values(|s: Statement| s@)
}

/// A row of a query's result: column name to value.
pub type Row = StringMap<SqlValue>;

/// Why the store could not be written.
#[derive(Clone, Copy, Debug, PartialEq, Eq, Structural)]
pub enum DbError {
    /// No category has the identity that a provider names as its parent.
    NoCategory,
    /// The category's row has no name.
    NoCategoryName,
    /// The providers table has no such column for a fact.
    NoColumn,
}

/// The reason, in words.
pub open spec fn db_error_text(e: DbError) -> Seq<char> {
    match e {
        DbError::NoCategory => "no category"@,
        DbError::NoCategoryName => "no category name"@,
        DbError::NoColumn => "no such column"@,
    }
}

impl DbError {
    /// The reason, in words.
    pub fn message(&self) -> (r: String)
        ensures
            r@ == db_error_text(*self),
    {
        match self {
            DbError::NoCategory => "no category".to_owned(),
            DbError::NoCategoryName => "no category name".to_owned(),
            DbError::NoColumn => "no such column".to_owned(),
        }
    }
}

fn statement(sql: &str, params: Vec<SqlValue>) -> (r: Statement)
    ensures
        r.sql@ == sql@,
        r.params == params,
{
    Statement { sql: sql.to_owned(), params }
}

fn one_text(a: String) -> (r: Vec<SqlValue>)
    ensures
        params_view(r@) == seq![SqlValueView::Text(a@)],
{
    let mut params: Vec<SqlValue> = Vec::new();
    params.push(SqlValue::Text(a));
    assert(params_view(params@) =~= seq![SqlValueView::Text(a@)]);
    params
}

fn two_texts(a: String, b: String) -> (r: Vec<SqlValue>)
    ensures
        params_view(r@) == seq![SqlValueView::Text(a@), SqlValueView::Text(b@)],
{
    let mut params: Vec<SqlValue> = Vec::new();
    params.push(SqlValue::Text(a));
    params.push(SqlValue::Text(b));
    assert(params_view(params@) =~= seq![SqlValueView::Text(a@), SqlValueView::Text(b@)]);
    params
}

fn no_params() -> (r: Vec<SqlValue>)
    ensures
        params_view(r@) == Seq::<SqlValueView>::empty(),
{
    let params: Vec<SqlValue> = Vec::new();
    assert(params_view(params@) =~= Seq::<SqlValueView>::empty());
    params
}

/// The query for the names of the store's tables.
pub open spec fn table_names_sql() -> Seq<char> {
    "SELECT name from sqlite_master WHERE type='table';"@
}

/// Asks the store for the names of its tables.
pub fn table_names() -> (r: Statement)
    ensures
        r@.sql == table_names_sql(),
        r@.params == Seq::<SqlValueView>::empty(),
{
    statement("SELECT name from sqlite_master WHERE type='table';", no_params())
}

/// A row that names the providers table.
pub open spec fn names_providers(row: Map<Seq<char>, SqlValue>) -> bool {
    row.dom().contains("name"@) && row["name"@]@ == SqlValueView::Text("providers"@)
}

/// Whether the providers table is among the tables listed.
pub open spec fn schema_present(tables: Seq<Row>) -> bool {
    exists|i: int| 0 <= i < tables.len() && names_providers(#[trigger] tables[i]@)
}

pub open spec fn create_categories_sql() -> Seq<char> {
    "CREATE TABLE categories(name TEXT PRIMARY KEY, hash TEXT NOT NULL UNIQUE);"@
}

pub open spec fn create_providers_sql() -> Seq<char> {
    "CREATE TABLE providers(id INTEGER PRIMARY KEY AUTOINCREMENT, hash TEXT NOT NULL UNIQUE, name TEXT NOT NULL UNIQUE, provider_name TEXT, site TEXT, description TEXT, category TEXT NOT NULL, created INTEGER, FOREIGN KEY (category) REFERENCES categories(name));"@
}

pub open spec fn create_index_sql() -> Seq<char> {
    "CREATE INDEX idx_providers_category ON providers (id, category);"@
}

/// The statements that create the schema: the two tables, then the index.
pub open spec fn schema_statements() -> Seq<StatementView> {
    seq![
        StatementView { sql: create_categories_sql(), params: Seq::empty() },
        StatementView { sql: create_providers_sql(), params: Seq::empty() },
        StatementView { sql: create_index_sql(), params: Seq::empty() },
    ]
}

/// The statements that create the schema, to be run in one transaction.
pub fn write_db_schema() -> (r: Vec<Statement>)
    ensures
        statements_view(r@) == schema_statements(),
{
    let mut out: Vec<Statement> = Vec::new();
    out.push(
        statement(
            "CREATE TABLE categories(name TEXT PRIMARY KEY, hash TEXT NOT NULL UNIQUE);",
            no_params(),
        ),
    );
    out.push(
        statement(
            "CREATE TABLE providers(id INTEGER PRIMARY KEY AUTOINCREMENT, hash TEXT NOT NULL UNIQUE, name TEXT NOT NULL UNIQUE, provider_name TEXT, site TEXT, description TEXT, category TEXT NOT NULL, created INTEGER, FOREIGN KEY (category) REFERENCES categories(name));",
            no_params(),
        ),
    );
    out.push(
        statement("CREATE INDEX idx_providers_category ON providers (id, category);", no_params()),
    );
    assert(statements_view(out@) =~= schema_statements());
    out
}

fn row_names_providers(row: &Row) -> (r: bool)
    ensures
        r == names_providers(row@),
{
    match row.get("name") {
        Some(SqlValue::Text(name)) => str_eq(name.as_str(), "providers"),
        _ => false,
    }
}

/// Given the rows that list the store's tables, the statements that the
/// store still needs: none where the providers table is there, the whole
/// schema otherwise.
pub fn check_schema(tables: &Vec<Row>) -> (r: Vec<Statement>)
    ensures
        schema_present(tables@) ==> r@.len() == 0,
        !schema_present(tables@) ==> statements_view(r@) == schema_statements(),
{
    let mut i: usize = 0;
    while i < tables.len()
        invariant
            i <= tables@.len(),
            forall|k: int| 0 <= k < i ==> !names_providers(#[trigger] tables@[k]@),
        decreases tables@.len() - i,
    {
        if row_names_providers(&tables[i]) {
            return Vec::new();
        }
        i = i + 1;
    }
    write_db_schema()
}

pub open spec fn insert_category_sql() -> Seq<char> {
    "INSERT OR IGNORE INTO categories(name, hash) VALUES (?1, ?2);"@
}

/// Adds a category, unless the store has it already.
pub fn insert_category(child_hash: String, name: String) -> (r: Statement)
    ensures
        r@.sql == insert_category_sql(),
        r@.params == seq![SqlValueView::Text(name@), SqlValueView::Text(child_hash@)],
{
    statement(
        "INSERT OR IGNORE INTO categories(name, hash) VALUES (?1, ?2);",
        two_texts(name, child_hash),
    )
}

/// The name of the category that the rows of a category query hold: that of
/// the first row.
pub open spec fn category_of(rows: Seq<Row>) -> Result<SqlValue, DbError> {
    if rows.len() == 0 {
        Err(DbError::NoCategory)
    } else if !rows[0]@.dom().contains("name"@) {
        Err(DbError::NoCategoryName)
    } else {
        Ok(rows[0]@["name"@])
    }
}

pub open spec fn cell_result(r: Result<SqlValue, DbError>) -> Result<SqlValueView, DbError> {
    match r {
        Ok(v) => Ok(v@),
        Err(e) => Err(e),
    }
}

/// A copy of a value.
pub fn clone_value(v: &SqlValue) -> (r: SqlValue)
    ensures
        r@ == v@,
{
    match v {
        SqlValue::Null => SqlValue::Null,
        SqlValue::Integer(n) => SqlValue::Integer(*n),
        SqlValue::Text(t) => SqlValue::Text(t.clone()),
    }
}

/// Picks the category's name out of the rows that `get_category` found.
pub fn provider_category(rows: &Vec<Row>) -> (r: Result<SqlValue, DbError>)
    ensures
        cell_result(r) == cell_result(category_of(rows@)),
{
    if rows.len() == 0 {
        return Err(DbError::NoCategory);
    }
    match rows[0].get("name") {
        Some(name) => Ok(clone_value(name)),
        None => Err(DbError::NoCategoryName),
    }
}

pub open spec fn insert_provider_sql() -> Seq<char> {
    "INSERT OR IGNORE INTO providers(hash, name, category, created) VALUES (?1, ?2, ?3, ?4);"@
}

/// Adds a provider under `category`, created at `now`, unless the store has
/// it already.
pub fn insert_provider(category: SqlValue, child_hash: String, name: String, now: u64) -> (r:
    Statement)
    ensures
        r@.sql == insert_provider_sql(),
        r@.params == seq![
            SqlValueView::Text(child_hash@),
            SqlValueView::Text(name@),
            category@,
            SqlValueView::Integer(now),
        ],
{
    let mut params: Vec<SqlValue> = Vec::new();
    params.push(SqlValue::Text(child_hash));
    params.push(SqlValue::Text(name));
    params.push(category);
    params.push(SqlValue::Integer(now));
    assert(params_view(params@) =~= seq![
        SqlValueView::Text(child_hash@),
        SqlValueView::Text(name@),
        category@,
        SqlValueView::Integer(now),
    ]);
    statement(
        "INSERT OR IGNORE INTO providers(hash, name, category, created) VALUES (?1, ?2, ?3, ?4);",
        params,
    )
}

/// The update of one column, named in the text itself.
pub open spec fn set_fact_sql(key: Seq<char>) -> Seq<char> {
    "UPDATE providers SET '"@ + key + "' = ?1 WHERE hash = ?2"@
}

/// Whether the schema provides the column `key` for facts.
pub fn is_provisioned(key: &str) -> (r: bool)
    ensures
        r == provisioned(key@),
{
    str_eq(key, "provider_name") || str_eq(key, "site") || str_eq(key, "description")
}

/// Overwrites column `key` of the provider with identity `hash`. The column
/// has to be one that the schema provides: no other name is written into a
/// statement.
pub fn insert_provider_facts(key: String, value: String, hash: String) -> (r: Result<
    Statement,
    DbError,
>)
    ensures
        provisioned(key@) ==> (r matches Ok(s) && s@.sql == set_fact_sql(key@) && s@.params
            == seq![SqlValueView::Text(value@), SqlValueView::Text(hash@)]),
        !provisioned(key@) ==> (r matches Err(e) && e == DbError::NoColumn),
{
    if !is_provisioned(key.as_str()) {
        return Err(DbError::NoColumn);
    }
    let mut sql = "UPDATE providers SET '".to_owned();
    sql.append(key.as_str());
    sql.append("' = ?1 WHERE hash = ?2");
    Ok(Statement { sql, params: two_texts(value, hash) })
}

pub open spec fn get_all_sql() -> Seq<char> {
    "SELECT * FROM providers"@
}

/// Every provider.
pub fn get_all() -> (r: Statement)
    ensures
        r@.sql == get_all_sql(),
        r@.params == Seq::<SqlValueView>::empty(),
{
    statement("SELECT * FROM providers", no_params())
}

pub open spec fn get_category_sql() -> Seq<char> {
    "SELECT * FROM categories WHERE hash = ?1"@
}

/// The category with identity `hash`.
pub fn get_category(hash: String) -> (r: Statement)
    ensures
        r@.sql == get_category_sql(),
        r@.params == seq![SqlValueView::Text(hash@)],
{
    statement("SELECT * FROM categories WHERE hash = ?1", one_text(hash))
}

pub open spec fn get_by_category_sql() -> Seq<char> {
    "SELECT * FROM providers WHERE category= ?1"@
}

/// The providers of the category named `category`.
pub fn get_by_category(category: String) -> (r: Statement)
    ensures
        r@.sql == get_by_category_sql(),
        r@.params == seq![SqlValueView::Text(category@)],
{
    statement("SELECT * FROM providers WHERE category= ?1", one_text(category))
}

/// The characters that mean something in a pattern: the two wildcards and
/// the escape character itself.
pub open spec fn needs_escape(c: char) -> bool {
    c == '%' || c == '_' || c == '\\'
}

/// A character as it stands in a pattern to be taken for itself: behind the
/// escape character where it would mean something else.
pub open spec fn escaped_char(c: char) -> Seq<char> {
    if needs_escape(c) {
        seq!['\\', c]
    } else {
        seq![c]
    }
}

/// A text as it stands in a pattern to be taken for itself, character by
/// character.
pub open spec fn escape_like(text: Seq<char>) -> Seq<char>
    decreases text.len(),
{
    if text.len() == 0 {
        Seq::empty()
    } else {
        escape_like(text.drop_last()) + escaped_char(text.last())
    }
}

/// The pattern that matches the texts which hold `query` as it is written:
/// anything, the query taken for itself, anything.
pub open spec fn like_escaped(query: Seq<char>) -> Seq<char> {
    seq!['%'] + escape_like(query) + seq!['%']
}

/// The search over the five columns that describe a provider, whatever the
/// case. The pattern is the statement's one value; `\` is its escape
/// character.
pub open spec fn search_sql() -> Seq<char> {
    "SELECT * FROM providers WHERE (category LIKE ?1 ESCAPE '\\' COLLATE NOCASE) OR (name LIKE ?1 ESCAPE '\\' COLLATE NOCASE) OR (provider_name LIKE ?1 ESCAPE '\\' COLLATE NOCASE) OR (site LIKE ?1 ESCAPE '\\' COLLATE NOCASE) OR (description LIKE ?1 ESCAPE '\\' COLLATE NOCASE)"@
}

/// Writes the pattern for a query.
pub fn like_pattern(query: &str) -> (r: String)
    ensures
        r@ == like_escaped(query@),
{
    proof {
        reveal_strlit("%");
        reveal_strlit("\\");
    }
    let n = query.unicode_len();
    let mut out = "%".to_owned();
    assert(out@ =~= seq!['%']);
    assert(query@.take(0) =~= Seq::<char>::empty());
    let mut i: usize = 0;
    while i < n
        invariant
            i <= n,
            n == query@.len(),
            "\\"@ == seq!['\\'],
            out@ == seq!['%'] + escape_like(query@.take(i as int)),
        decreases n - i,
    {
        let c = query.get_char(i);
        let ghost before = out@;
        if c == '%' || c == '_' || c == '\\' {
            out.append("\\");
        }
        out.append(query.substring_char(i, i + 1));
        proof {
            let longer = query@.take(i + 1);
            assert(longer.drop_last() =~= query@.take(i as int));
            assert(longer.last() == c);
            assert(query@.subrange(i as int, i + 1) =~= seq![c]);
            assert(out@ =~= before + escaped_char(c));
            assert(out@ =~= seq!['%'] + escape_like(longer));
        }
        i = i + 1;
    }
    assert(query@.take(n as int) =~= query@);
    out.append("%");
    assert(out@ =~= like_escaped(query@));
    out
}

/// The providers whose category, name, provider name, site or description
/// holds `query` as it is written, whatever the case. The query travels as
/// the statement's value, never as part of its text, and its wildcards are
/// escaped.
pub fn search_provider(query: String) -> (r: Statement)
    ensures
        r@.sql == search_sql(),
        r@.params == seq![SqlValueView::Text(like_escaped(query@))],
{
    statement(
        "SELECT * FROM providers WHERE (category LIKE ?1 ESCAPE '\\' COLLATE NOCASE) OR (name LIKE ?1 ESCAPE '\\' COLLATE NOCASE) OR (provider_name LIKE ?1 ESCAPE '\\' COLLATE NOCASE) OR (site LIKE ?1 ESCAPE '\\' COLLATE NOCASE) OR (description LIKE ?1 ESCAPE '\\' COLLATE NOCASE)",
        one_text(like_pattern(query.as_str())),
    )
}

/// How a change that the directory asks for is carried out.
pub enum WritePlan {
    /// Run the statement.
    Run(Statement),
    /// Run `lookup`, then hand its rows to `provider_statement` with `hash`
    /// and `name`, and run what comes back.
    ProviderUnder { lookup: Statement, hash: String, name: String },
}

/// A category and a fact are written at once; a provider is written once
/// the store has told the name of its category. A fact for a column that the
/// schema does not provide is not written at all.
pub open spec fn plan_matches(plan: Result<WritePlan, DbError>, write: DbWriteView) -> bool {
    match write {
        DbWriteView::InsertCategory { hash, name } => {
            &&& plan matches Ok(WritePlan::Run(s))
            &&& s@.sql == insert_category_sql()
            &&& s@.params == seq![SqlValueView::Text(name), SqlValueView::Text(hash)]
        },
        DbWriteView::InsertProvider { parent_hash, hash, name } => {
            &&& plan matches Ok(WritePlan::ProviderUnder { lookup, hash: h, name: n })
            &&& lookup@.sql == get_category_sql()
            &&& lookup@.params == seq![SqlValueView::Text(parent_hash)]
            &&& h@ == hash
            &&& n@ == name
        },
        DbWriteView::SetFact { key, value, hash } => if provisioned(key) {
            &&& plan matches Ok(WritePlan::Run(s))
            &&& s@.sql == set_fact_sql(key)
            &&& s@.params == seq![SqlValueView::Text(value), SqlValueView::Text(hash)]
        } else {
            plan matches Err(e) && e == DbError::NoColumn
        },
    }
}

/// Turns a change that the directory asks for into statements.
pub fn plan_write(write: DbWrite) -> (r: Result<WritePlan, DbError>)
    ensures
        plan_matches(r, write@),
{
    match write {
        DbWrite::InsertCategory { hash, name } => Ok(WritePlan::Run(insert_category(hash, name))),
        DbWrite::InsertProvider { parent_hash, hash, name } => Ok(
            WritePlan::ProviderUnder { lookup: get_category(parent_hash), hash, name },
        ),
        DbWrite::SetFact { key, value, hash } => match insert_provider_facts(key, value, hash) {
            Ok(statement) => Ok(WritePlan::Run(statement)),
            Err(e) => Err(e),
        },
    }
}

/// The insert of a provider, given the rows that the lookup of its category
/// found: an error where they name no category.
pub fn provider_statement(rows: &Vec<Row>, hash: String, name: String, now: u64) -> (r: Result<
    Statement,
    DbError,
>)
    ensures
        match cell_result(category_of(rows@)) {
            Ok(category) => {
                &&& r matches Ok(s)
                &&& s@.sql == insert_provider_sql()
                &&& s@.params == seq![
                    SqlValueView::Text(hash@),
                    SqlValueView::Text(name@),
                    category,
                    SqlValueView::Integer(now),
                ]
            },
            Err(e) => r matches Err(x) && x == e,
        },
{
    match provider_category(rows) {
        Ok(category) => Ok(insert_provider(category, hash, name, now)),
        Err(e) => Err(e),
    }
}

} // verus!
