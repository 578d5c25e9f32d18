//! Read-side aggregations over the flow table, run by SQLite on its own
//! connection (WAL lets reads run while the writer commits).
//!
//! SQLite computes the sums; this module holds the queries, opens the
//! connection, and turns the columns SQLite returns into rows.

use rusqlite::{Connection, OpenFlags};

use vstd::prelude::*;

use crate::store::schema::{migrations, CREATE_FLOWS, CREATE_META};

verus! {

#[verifier::external_type_specification]
#[verifier::external_body]
pub struct ExConnection(rusqlite::Connection);

#[verifier::external_type_specification]
#[verifier::external_body]
pub struct ExSqliteError(rusqlite::Error);

/// Why a query failed.
#[derive(Debug)]
pub enum QueryError {
    /// SQLite reported an error.
    Sqlite(rusqlite::Error),
}

/// Bytes per key over a window.
#[derive(Clone, Debug)]
pub struct TopRow {
    pub key: String,
    pub bytes_in: u64,
    pub bytes_out: u64,
}

/// Bytes in one time bucket.
#[derive(Clone, Copy, Debug)]
pub struct RatePoint {
    /// Bucket start, Unix milliseconds.
    pub ts: i64,
    pub bytes_in: u64,
    pub bytes_out: u64,
}

/// Top domains (the remote address where no domain is known) by total
/// bytes since `?1`, at most `?2` of them.
pub const TOP_DOMAINS_SQL: &'static str = "SELECT COALESCE(domain, remote_ip) AS key, SUM(bytes_in) AS bin, SUM(bytes_out) AS bout FROM flows WHERE ts >= ?1 GROUP BY key ORDER BY (bin + bout) DESC LIMIT ?2";

/// Top processes by total bytes since `?1`, at most `?2` of them.
pub const TOP_PROCESSES_SQL: &'static str = "SELECT proc_name, SUM(bytes_in) AS bin, SUM(bytes_out) AS bout FROM flows WHERE ts >= ?1 GROUP BY proc_name ORDER BY (bin + bout) DESC LIMIT ?2";

/// Bytes per bucket of `?2` milliseconds since `?1`, oldest first.
pub const RATE_SERIES_SQL: &'static str = "SELECT (ts / ?2) * ?2 AS bucket, SUM(bytes_in), SUM(bytes_out) FROM flows WHERE ts >= ?1 GROUP BY bucket ORDER BY bucket ASC";

/// Total bytes in and out since `?1` (0 when there is no row).
pub const TOTAL_SINCE_SQL: &'static str = "SELECT COALESCE(SUM(bytes_in), 0), COALESCE(SUM(bytes_out), 0) FROM flows WHERE ts >= ?1";

/// The number of rows.
pub const COUNT_SQL: &'static str = "SELECT COUNT(*) FROM flows";

/// `Connection::open_with_flags(path, SQLITE_OPEN_READ_ONLY)`.
#[verifier::external_body]
fn sqlite_open_read_only(path: &str) -> Result<Connection, rusqlite::Error> {
    Connection::open_with_flags(path, OpenFlags::SQLITE_OPEN_READ_ONLY)
}

/// `Connection::open_in_memory`.
#[verifier::external_body]
fn sqlite_open_in_memory() -> Result<Connection, rusqlite::Error> {
    Connection::open_in_memory()
}

/// The parameter list `(a,)`.
pub open spec fn params1(a: i64) -> Seq<i64> {
    seq![a]
}

/// The parameter list `(a, b)`.
pub open spec fn params2(a: i64, b: i64) -> Seq<i64> {
    seq![a, b]
}

/// Whether SQLite ran the statements `sql` without error. A record of a
/// call, not a function of the text: whether a batch runs depends on the
/// database it runs on.
pub uninterp spec fn sqlite_batch_ran(sql: Seq<char>) -> bool;

/// Whether `rows` (a text column and two integer columns) is an answer that
/// SQLite gave to the statement `sql` with the parameters `params`. A record
/// of a call, not a function of its other arguments: the answer depends on
/// what the database holds when the statement runs.
pub uninterp spec fn sqlite_text_rows(sql: Seq<char>, params: Seq<i64>, rows: Seq<(Seq<char>, i64, i64)>) -> bool;

/// Whether `rows` (three integer columns) is an answer that SQLite gave to
/// the statement `sql` with the parameters `params`; a record of a call, as
/// `sqlite_text_rows`.
pub uninterp spec fn sqlite_int_rows(sql: Seq<char>, params: Seq<i64>, rows: Seq<(i64, i64, i64)>) -> bool;

/// Whether `row` (two integer columns) is the single row that SQLite gave
/// to the statement `sql` with the parameters `params`; a record of a call,
/// as `sqlite_text_rows`.
pub uninterp spec fn sqlite_int_pair(sql: Seq<char>, params: Seq<i64>, row: (i64, i64)) -> bool;

/// Whether `v` is the single value that SQLite gave to the statement `sql`
/// with the parameters `params`; a record of a call, as `sqlite_text_rows`.
pub uninterp spec fn sqlite_int_value(sql: Seq<char>, params: Seq<i64>, v: i64) -> bool;

/// `Connection::execute_batch`: runs SQL statements without parameters.
#[verifier::external_body]
fn sqlite_execute_batch(conn: &Connection, sql: &str) -> (r: Result<(), rusqlite::Error>)
    ensures
        r is Ok ==> sqlite_batch_ran(sql@),
{
    conn.execute_batch(sql)
}

/// Whether `x` is a 64-bit SQLite integer.
pub open spec fn in_i64(x: int) -> bool {
    i64::MIN <= x <= i64::MAX
}

/// The view of rows of a text column and two integer columns.
pub open spec fn text_rows_view(rows: Seq<(String, i64, i64)>) -> Seq<(Seq<char>, i64, i64)> {
    rows.map_values(|r: (String, i64, i64)| (r.0@, r.1, r.2))
}

/// What SQLite's `GROUP BY`, `ORDER BY (bin + bout) DESC` and `LIMIT ?2`
/// give of the rows of a top-N query read as text and integers: one row per
/// key, at most `limit` rows when the limit is not negative (a negative
/// limit is no limit), and totals that never increase along the rows. A
/// total past 64 bits is computed by SQLite as a floating-point value, so
/// the order is stated between totals that fit.
pub open spec fn top_n_order(rows: Seq<(Seq<char>, i64, i64)>, limit: i64) -> bool {
    &&& limit >= 0 ==> rows.len() <= limit
    &&& forall|i: int, j: int| #![trigger rows[i], rows[j]] 0 <= i < j < rows.len() ==> rows[i].0 != rows[j].0
    &&& forall|i: int, j: int|
        #![trigger rows[i], rows[j]]
        0 <= i < j < rows.len() && in_i64(rows[i].1 + rows[i].2) && in_i64(rows[j].1 + rows[j].2) ==> rows[i].1
            + rows[i].2 >= rows[j].1 + rows[j].2
}

/// What SQLite's `(ts / ?2) * ?2 AS bucket ... GROUP BY bucket ORDER BY
/// bucket ASC` gives of the rows of a rate series that were all read as
/// integers: distinct buckets in ascending order, each a multiple of the
/// bucket width `width` when it is not zero.
pub open spec fn rate_buckets(rows: Seq<(i64, i64, i64)>, width: i64) -> bool {
    &&& forall|i: int, j: int| #![trigger rows[i], rows[j]] 0 <= i < j < rows.len() ==> rows[i].0 < rows[j].0
    &&& width != 0 ==> forall|i: int| 0 <= i < rows.len() ==> (#[trigger] rows[i]).0 % width == 0
}

/// Runs a cached query with parameters `(a, b)` whose rows are a text
/// column and two integer columns, and collects the rows. For each of the
/// two top-N queries of this module, SQLite's `GROUP BY`, `ORDER BY ...
/// DESC` and `LIMIT` give the rows' keys, order and number.
#[verifier::external_body]
fn sqlite_query_text_int_int(
    conn: &Connection,
    sql: &str,
    a: i64,
    b: i64,
) -> (r: Result<Vec<(String, i64, i64)>, rusqlite::Error>)
    ensures
        r matches Ok(rows) ==> sqlite_text_rows(sql@, params2(a, b), text_rows_view(rows@)),
        sql@ == TOP_DOMAINS_SQL@ ==> (r matches Ok(rows) ==> top_n_order(text_rows_view(rows@), b)),
        sql@ == TOP_PROCESSES_SQL@ ==> (r matches Ok(rows) ==> top_n_order(text_rows_view(rows@), b)),
{
    let mut stmt = conn.prepare_cached(sql)?;
    let rows = stmt.query_map((a, b), |r| Ok((r.get(0)?, r.get(1)?, r.get(2)?)))?;
    rows.collect()
}

/// Runs a cached query with parameters `(a, b)` whose rows are three
/// integer columns, and collects the rows. For the rate-series query of this
/// module, the bucket expression, `GROUP BY` and `ORDER BY ... ASC` give
/// distinct ascending buckets that are multiples of `b` (a bucket that is
/// not an integer, such as the NULL of a division by zero, fails the read).
#[verifier::external_body]
fn sqlite_query_int_int_int(
    conn: &Connection,
    sql: &str,
    a: i64,
    b: i64,
) -> (r: Result<Vec<(i64, i64, i64)>, rusqlite::Error>)
    ensures
        r matches Ok(rows) ==> sqlite_int_rows(sql@, params2(a, b), rows@),
        sql@ == RATE_SERIES_SQL@ ==> (r matches Ok(rows) ==> rate_buckets(rows@, b)),
{
    let mut stmt = conn.prepare_cached(sql)?;
    let rows = stmt.query_map((a, b), |r| Ok((r.get(0)?, r.get(1)?, r.get(2)?)))?;
    rows.collect()
}

/// `Connection::query_row` with parameter `(a,)`, whose single row is two
/// integer columns.
#[verifier::external_body]
fn sqlite_query_row_int_int(conn: &Connection, sql: &str, a: i64) -> (r: Result<(i64, i64), rusqlite::Error>)
    ensures
        r matches Ok(row) ==> sqlite_int_pair(sql@, params1(a), row),
{
    conn.query_row(sql, (a,), |r| Ok((r.get(0)?, r.get(1)?)))
}

/// `Connection::query_row` without parameters, whose single row is one
/// integer column. For the row-count query of this module the value is a
/// `COUNT(*)`, which is never negative.
#[verifier::external_body]
fn sqlite_query_row_int(conn: &Connection, sql: &str) -> (r: Result<i64, rusqlite::Error>)
    ensures
        r matches Ok(v) ==> sqlite_int_value(sql@, Seq::<i64>::empty(), v),
        sql@ == COUNT_SQL@ ==> (r matches Ok(v) ==> v >= 0),
{
    conn.query_row(sql, [], |r| r.get(0))
}

/// Whether the schema's statements all ran: the metadata table, then the
/// flow table.
pub open spec fn schema_applied() -> bool {
    sqlite_batch_ran(CREATE_META@) && sqlite_batch_ran(CREATE_FLOWS@)
}

/// Applies the migrations in order, stopping at the first that fails.
pub fn run_migrations(conn: &Connection) -> (r: Result<(), QueryError>)
    ensures
        r is Ok ==> schema_applied(),
{
    let m = migrations();
    let n = m.len();
    let mut i: usize = 0;
    while i < n
        invariant
            n == m@.len(),
            n == 2,
            m@[0]@ == CREATE_META@,
            m@[1]@ == CREATE_FLOWS@,
            0 <= i <= n,
            forall|j: int| 0 <= j < i ==> sqlite_batch_ran(#[trigger] m@[j]@),
        decreases n - i,
    {
        match sqlite_execute_batch(conn, m[i]) {
            Ok(()) => {},
            Err(e) => return Err(QueryError::Sqlite(e)),
        }
        i = i + 1;
    }
    assert(sqlite_batch_ran(m@[0]@) && sqlite_batch_ran(m@[1]@));
    Ok(())
}

/// A SQL integer read back as an unsigned byte count (`as u64`).
pub fn count_from_sql(v: i64) -> (c: u64)
    ensures
        c == v as u64,
        c as i64 == v,
{
    assert((v as u64) as i64 == v) by (bit_vector);
    #[verifier::truncate]
    (v as u64)
}

/// A row limit as a SQL integer (`as i64`).
pub fn limit_to_sql(limit: usize) -> (v: i64)
    ensures
        v == limit as i64,
        limit <= i64::MAX ==> v == limit,
{
    #[verifier::truncate]
    (limit as i64)
}

/// Whether `rows` are the rows of a top-N query read from the columns
/// `raw`, one for one: the key, and each byte sum as an unsigned count.
pub open spec fn top_rows_of(raw: Seq<(Seq<char>, i64, i64)>, rows: Seq<TopRow>) -> bool {
    &&& rows.len() == raw.len()
    &&& forall|i: int|
        0 <= i < rows.len() ==> {
            &&& #[trigger] rows[i].key@ == raw[i].0
            &&& rows[i].bytes_in == raw[i].1 as u64
            &&& rows[i].bytes_out == raw[i].2 as u64
        }
}

/// Whether `points` are the points of a rate series read from the columns
/// `raw`, one for one: the bucket, and each byte sum as an unsigned count.
pub open spec fn rate_points_of(raw: Seq<(i64, i64, i64)>, points: Seq<RatePoint>) -> bool {
    &&& points.len() == raw.len()
    &&& forall|i: int|
        0 <= i < points.len() ==> {
            &&& #[trigger] points[i].ts == raw[i].0
            &&& points[i].bytes_in == raw[i].1 as u64
            &&& points[i].bytes_out == raw[i].2 as u64
        }
}

/// The columns of a rate-series answer are, in the order of
/// `RATE_SERIES_SQL`'s select list, the bucket, `SUM(bytes_in)` and
/// `SUM(bytes_out)`: each point takes its bucket from the first, its bytes
/// in from the second and its bytes out from the third, and reading a
/// point's byte counts back as 64-bit SQL integers gives those columns.
pub proof fn law_rate_point_columns(raw: Seq<(i64, i64, i64)>, points: Seq<RatePoint>)
    requires
        rate_points_of(raw, points),
    ensures
        points.len() == raw.len(),
        forall|i: int|
            0 <= i < points.len() ==> {
                &&& (#[trigger] points[i]).ts == raw[i].0
                &&& points[i].bytes_in as i64 == raw[i].1
                &&& points[i].bytes_out as i64 == raw[i].2
            },
{
    assert forall|i: int| 0 <= i < points.len() implies {
        &&& (#[trigger] points[i]).ts == raw[i].0
        &&& points[i].bytes_in as i64 == raw[i].1
        &&& points[i].bytes_out as i64 == raw[i].2
    } by {
        assert(points[i].ts == raw[i].0);
        lemma_sql_roundtrip(raw[i].1);
        lemma_sql_roundtrip(raw[i].2);
    }
}

/// The columns of a top-N answer are, in the order of the select lists of
/// `TOP_DOMAINS_SQL` and `TOP_PROCESSES_SQL`, the key, `SUM(bytes_in)` and
/// `SUM(bytes_out)`: each row takes its key from the first, its bytes in from
/// the second and its bytes out from the third, and reading a row's byte
/// counts back as 64-bit SQL integers gives those columns.
pub proof fn law_top_row_columns(raw: Seq<(Seq<char>, i64, i64)>, rows: Seq<TopRow>)
    requires
        top_rows_of(raw, rows),
    ensures
        rows.len() == raw.len(),
        forall|i: int|
            0 <= i < rows.len() ==> {
                &&& (#[trigger] rows[i]).key@ == raw[i].0
                &&& rows[i].bytes_in as i64 == raw[i].1
                &&& rows[i].bytes_out as i64 == raw[i].2
            },
{
    assert forall|i: int| 0 <= i < rows.len() implies {
        &&& (#[trigger] rows[i]).key@ == raw[i].0
        &&& rows[i].bytes_in as i64 == raw[i].1
        &&& rows[i].bytes_out as i64 == raw[i].2
    } by {
        assert(rows[i].key@ == raw[i].0);
        lemma_sql_roundtrip(raw[i].1);
        lemma_sql_roundtrip(raw[i].2);
    }
}

/// The rows of a top-N query from the columns SQLite returned.
pub fn top_rows_from(raw: Vec<(String, i64, i64)>) -> (rows: Vec<TopRow>)
    ensures
        top_rows_of(text_rows_view(raw@), rows@),
{
    let ghost rv = text_rows_view(raw@);
    let n = raw.len();
    let mut rows: Vec<TopRow> = Vec::new();
    let mut i: usize = 0;
    while i < n
        invariant
            n == raw@.len(),
            rv == text_rows_view(raw@),
            0 <= i <= n,
            rows@.len() == i,
            forall|j: int|
                0 <= j < i ==> {
                    &&& #[trigger] rows@[j].key@ == rv[j].0
                    &&& rows@[j].bytes_in == rv[j].1 as u64
                    &&& rows@[j].bytes_out == rv[j].2 as u64
                },
        decreases n - i,
    {
        let key = raw[i].0.clone();
        let row = TopRow { key, bytes_in: count_from_sql(raw[i].1), bytes_out: count_from_sql(raw[i].2) };
        let ghost pre = rows@;
        rows.push(row);
        assert forall|j: int| 0 <= j < i + 1 implies {
            &&& #[trigger] rows@[j].key@ == rv[j].0
            &&& rows@[j].bytes_in == rv[j].1 as u64
            &&& rows@[j].bytes_out == rv[j].2 as u64
        } by {
            if j < i {
                assert(rows@[j] == pre[j]);
            }
        }
        i = i + 1;
    }
    rows
}

/// A 64-bit value read back as unsigned and then as signed is itself.
proof fn lemma_sql_roundtrip(v: i64)
    ensures
        (v as u64) as i64 == v,
{
    assert((v as u64) as i64 == v) by (bit_vector);
}

/// Rows read one for one from the answer of a top-N query keep its keys,
/// its order and its number of rows.
proof fn lemma_top_rows_ordered(raw: Seq<(Seq<char>, i64, i64)>, rows: Seq<TopRow>, limit: usize)
    requires
        top_n_order(raw, limit as i64),
        top_rows_of(raw, rows),
    ensures
        top_rows_ordered(rows, limit),
{
    if limit <= i64::MAX {
        assert(limit as i64 == limit);
    }
    assert forall|i: int| 0 <= i < rows.len() implies #[trigger] sql_total(rows[i]) == raw[i].1 + raw[i].2 by {
        assert(rows[i].key@ == raw[i].0);
        lemma_sql_roundtrip(raw[i].1);
        lemma_sql_roundtrip(raw[i].2);
    }
    assert forall|i: int, j: int|
        0 <= i < j < rows.len() && in_i64(sql_total(rows[i])) && in_i64(sql_total(rows[j])) implies sql_total(
        #[trigger] rows[i],
    ) >= sql_total(#[trigger] rows[j]) by {
        assert(sql_total(rows[i]) == raw[i].1 + raw[i].2);
        assert(sql_total(rows[j]) == raw[j].1 + raw[j].2);
    }
    assert forall|i: int, j: int| 0 <= i < j < rows.len() implies (#[trigger] rows[i]).key@ != (#[trigger] rows[j]).key@ by {
        assert(rows[i].key@ == raw[i].0);
        assert(rows[j].key@ == raw[j].0);
    }
}

/// The points of a rate series from the columns SQLite returned.
pub fn rate_points_from(raw: Vec<(i64, i64, i64)>) -> (points: Vec<RatePoint>)
    ensures
        rate_points_of(raw@, points@),
{
    let n = raw.len();
    let mut points: Vec<RatePoint> = Vec::new();
    let mut i: usize = 0;
    while i < n
        invariant
            n == raw@.len(),
            0 <= i <= n,
            points@.len() == i,
            forall|j: int|
                0 <= j < i ==> {
                    &&& #[trigger] points@[j].ts == raw@[j].0
                    &&& points@[j].bytes_in == raw@[j].1 as u64
                    &&& points@[j].bytes_out == raw@[j].2 as u64
                },
        decreases n - i,
    {
        let (ts, bin, bout) = raw[i];
        points.push(RatePoint { ts, bytes_in: count_from_sql(bin), bytes_out: count_from_sql(bout) });
        i = i + 1;
    }
    points
}

/// The total a top-N query orders by: the two byte sums as SQLite holds
/// them (64-bit signed).
pub open spec fn sql_total(row: TopRow) -> int {
    (row.bytes_in as i64) + (row.bytes_out as i64)
}

/// What holds of every answer of a top-N query with row limit `limit`: one
/// row per key, at most `limit` rows (when the limit is a SQLite integer),
/// in order of non-increasing totals (between totals within 64 bits).
pub open spec fn top_rows_ordered(rows: Seq<TopRow>, limit: usize) -> bool {
    &&& limit <= i64::MAX ==> rows.len() <= limit
    &&& forall|i: int, j: int| #![trigger rows[i], rows[j]] 0 <= i < j < rows.len() ==> rows[i].key@ != rows[j].key@
    &&& forall|i: int, j: int|
        #![trigger rows[i], rows[j]]
        0 <= i < j < rows.len() && in_i64(sql_total(rows[i])) && in_i64(sql_total(rows[j])) ==> sql_total(rows[i])
            >= sql_total(rows[j])
}

/// Rate points in strictly ascending bucket order, each bucket a multiple of
/// the width `width` when it is not zero.
pub open spec fn points_bucketed(points: Seq<RatePoint>, width: i64) -> bool {
    &&& forall|i: int, j: int| #![trigger points[i], points[j]] 0 <= i < j < points.len() ==> points[i].ts < points[j].ts
    &&& width != 0 ==> forall|i: int| 0 <= i < points.len() ==> (#[trigger] points[i]).ts % width == 0
}

/// Whether `rows` is the answer to a top-N statement `sql` with parameters
/// `(since_ms, limit)`, read one for one.
pub open spec fn top_answer(sql: Seq<char>, since_ms: i64, limit: usize, rows: Seq<TopRow>) -> bool {
    exists|raw: Seq<(Seq<char>, i64, i64)>|
        #[trigger] sqlite_text_rows(sql, params2(since_ms, limit as i64), raw) && top_rows_of(raw, rows)
}

/// A read handle on the flow database.
pub struct Query {
    conn: Connection,
    path: Option<String>,
}

impl Query {
    /// The connection the queries run on.
    pub closed spec fn connection(&self) -> Connection {
        self.conn
    }

    /// The database file this handle opened; `None` for a handle that did
    /// not open a file itself.
    pub closed spec fn path(&self) -> Option<Seq<char>> {
        match self.path {
            Some(p) => Some(p@),
            None => None,
        }
    }

    /// Opens a read-only handle on an existing database file and checks its
    /// schema: a failure to open or to apply a migration is the error.
    pub fn open(db_path: &str) -> (r: Result<Query, QueryError>)
        ensures
            r matches Ok(q) ==> q.path() == Some(db_path@) && schema_applied(),
    {
        let conn = match sqlite_open_read_only(db_path) {
            Ok(c) => c,
            Err(e) => return Err(QueryError::Sqlite(e)),
        };
        match run_migrations(&conn) {
            Ok(()) => Ok(Query { conn, path: Some(db_path.to_owned()) }),
            Err(e) => Err(e),
        }
    }

    /// Opens a separate in-memory database with the schema.
    pub fn open_in_memory_for_test() -> (r: Result<Query, QueryError>)
        ensures
            r matches Ok(q) ==> q.path() == None::<Seq<char>> && schema_applied(),
    {
        let conn = match sqlite_open_in_memory() {
            Ok(c) => c,
            Err(e) => return Err(QueryError::Sqlite(e)),
        };
        match run_migrations(&conn) {
            Ok(()) => Ok(Query { conn, path: None }),
            Err(e) => Err(e),
        }
    }

    /// Wraps an already-open connection.
    pub fn from_connection(conn: Connection) -> (q: Query)
        ensures
            q.connection() == conn,
            q.path() == None::<Seq<char>>,
    {
        Query { conn, path: None }
    }

    /// Runs a top-N statement with `(since_ms, limit)` and reads its rows.
    fn top_rows(&self, sql: &str, since_ms: i64, limit: usize) -> (r: Result<Vec<TopRow>, QueryError>)
        requires
            sql@ == TOP_DOMAINS_SQL@ || sql@ == TOP_PROCESSES_SQL@,
        ensures
            r matches Ok(rows) ==> top_rows_ordered(rows@, limit) && top_answer(sql@, since_ms, limit, rows@),
    {
        let b = limit_to_sql(limit);
        match sqlite_query_text_int_int(&self.conn, sql, since_ms, b) {
            Ok(raw) => {
                let ghost rv = text_rows_view(raw@);
                let rows = top_rows_from(raw);
                proof {
                    lemma_top_rows_ordered(rv, rows@, limit);
                    assert(sqlite_text_rows(sql@, params2(since_ms, limit as i64), rv));
                }
                Ok(rows)
            },
            Err(e) => Err(QueryError::Sqlite(e)),
        }
    }

    /// Top domains by total bytes (in + out) since `since_ms`: the answer to
    /// `TOP_DOMAINS_SQL` with `(since_ms, limit)`.
    pub fn top_domains(&self, since_ms: i64, limit: usize) -> (r: Result<Vec<TopRow>, QueryError>)
        ensures
            r matches Ok(rows) ==> top_rows_ordered(rows@, limit) && top_answer(TOP_DOMAINS_SQL@, since_ms, limit, rows@),
    {
        self.top_rows(TOP_DOMAINS_SQL, since_ms, limit)
    }

    /// Top processes by total bytes since `since_ms`: the answer to
    /// `TOP_PROCESSES_SQL` with `(since_ms, limit)`.
    pub fn top_processes(&self, since_ms: i64, limit: usize) -> (r: Result<Vec<TopRow>, QueryError>)
        ensures
            r matches Ok(rows) ==> top_rows_ordered(rows@, limit) && top_answer(TOP_PROCESSES_SQL@, since_ms, limit, rows@),
    {
        self.top_rows(TOP_PROCESSES_SQL, since_ms, limit)
    }

    /// Time-bucketed total bytes; `bucket_ms` is the bucket size: the answer
    /// to `RATE_SERIES_SQL` with `(since_ms, bucket_ms)`.
    pub fn rate_series(&self, since_ms: i64, bucket_ms: i64) -> (r: Result<Vec<RatePoint>, QueryError>)
        ensures
            r matches Ok(points) ==> {
                &&& points_bucketed(points@, bucket_ms)
                &&& exists|raw: Seq<(i64, i64, i64)>|
                    #[trigger] sqlite_int_rows(RATE_SERIES_SQL@, params2(since_ms, bucket_ms), raw) && rate_points_of(raw, points@)
            },
    {
        match sqlite_query_int_int_int(&self.conn, RATE_SERIES_SQL, since_ms, bucket_ms) {
            Ok(raw) => {
                let ghost rv = raw@;
                let points = rate_points_from(raw);
                proof {
                    assert forall|i: int, j: int| 0 <= i < j < points@.len() implies #[trigger] points@[i].ts
                        < #[trigger] points@[j].ts by {
                        assert(rv[i].0 < rv[j].0);
                    }
                    if bucket_ms != 0 {
                        assert forall|i: int| 0 <= i < points@.len() implies (#[trigger] points@[i]).ts % bucket_ms == 0 by {
                            assert(rv[i].0 % bucket_ms == 0);
                        }
                    }
                    assert(sqlite_int_rows(RATE_SERIES_SQL@, params2(since_ms, bucket_ms), rv));
                }
                Ok(points)
            },
            Err(e) => Err(QueryError::Sqlite(e)),
        }
    }

    /// Total bytes since `since_ms`, as (in, out): the row that
    /// `TOTAL_SINCE_SQL` gives with `(since_ms,)`, as unsigned counts.
    pub fn total_since(&self, since_ms: i64) -> (r: Result<(u64, u64), QueryError>)
        ensures
            r matches Ok(t) ==> exists|row: (i64, i64)|
                #[trigger] sqlite_int_pair(TOTAL_SINCE_SQL@, params1(since_ms), row) && t.0 == row.0 as u64 && t.1
                    == row.1 as u64,
    {
        match sqlite_query_row_int_int(&self.conn, TOTAL_SINCE_SQL, since_ms) {
            Ok((bin, bout)) => {
                proof {
                    assert(sqlite_int_pair(TOTAL_SINCE_SQL@, params1(since_ms), (bin, bout)));
                }
                Ok((count_from_sql(bin), count_from_sql(bout)))
            },
            Err(e) => Err(QueryError::Sqlite(e)),
        }
    }

    /// The number of rows: the value that `COUNT_SQL` gives, never past
    /// `i64::MAX`.
    pub fn count(&self) -> (r: Result<u64, QueryError>)
        ensures
            r matches Ok(n) ==> n <= i64::MAX && exists|v: i64|
                #[trigger] sqlite_int_value(COUNT_SQL@, Seq::<i64>::empty(), v) && n == v,
    {
        match sqlite_query_row_int(&self.conn, COUNT_SQL) {
            Ok(n) => {
                proof {
                    assert(sqlite_int_value(COUNT_SQL@, Seq::<i64>::empty(), n));
                }
                Ok(count_from_sql(n))
            },
            Err(e) => Err(QueryError::Sqlite(e)),
        }
    }
}

} // verus!
