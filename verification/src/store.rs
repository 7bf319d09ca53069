use vstd::prelude::*;
use crate::entry::Entry;
use r2d2_sqlite::SqliteConnectionManager;

verus! {

#[verifier::external_type_specification]
#[verifier::external_body]
pub struct ExSqliteConnectionManager(SqliteConnectionManager);

#[verifier::external_type_specification]
#[verifier::external_body]
pub struct ExPoolError(r2d2::Error);

#[verifier::external_type_specification]
#[verifier::external_body]
pub struct ExSqliteError(rusqlite::Error);

/// Holds r2d2's connection pool.  The pool's own type is generic over an
/// outside trait, which the verifier does not take in a declaration, so
/// the pool lives opaquely behind this struct.
#[verifier::external_body]
pub struct DbPool {
    inner: r2d2::Pool<SqliteConnectionManager>,
}

/// One connection checked out of the pool, held opaquely for the same
/// reason as the pool itself.
#[verifier::external_body]
pub struct DbConn {
    inner: r2d2::PooledConnection<SqliteConnectionManager>,
}

/// Relies on r2d2_sqlite's SqliteConnectionManager::file: a manager that
/// opens the database file at `path`.
#[verifier::external_body]
fn manager_file(path: &str) -> SqliteConnectionManager {
    SqliteConnectionManager::file(path)
}

/// Relies on r2d2_sqlite's SqliteConnectionManager::memory: a manager
/// whose connections share one fresh in-memory database.
#[verifier::external_body]
fn manager_memory() -> SqliteConnectionManager {
    SqliteConnectionManager::memory()
}

/// Relies on r2d2::Pool::new: builds a pool over `manager`, or reports a
/// pool error when no first connection can be opened.
#[verifier::external_body]
fn pool_new(manager: SqliteConnectionManager) -> Result<DbPool, r2d2::Error> {
    r2d2::Pool::new(manager).map(|inner| DbPool { inner })
}

/// Relies on r2d2::Pool::get: checks one connection out of the pool, or
/// reports a pool error when none can be had within the timeout.  Whether
/// it succeeds depends on the pool's state, so nothing is promised of the
/// outcome.
#[verifier::external_body]
fn pool_get(pool: &DbPool) -> Result<DbConn, r2d2::Error> {
    pool.inner.get().map(|inner| DbConn { inner })
}

/// Relies on rusqlite::Connection::execute with a fixed
/// CREATE TABLE IF NOT EXISTS statement: creates the todo table when it is
/// absent and leaves the database unchanged when it is already there.  The
/// outcome depends on the database file, so nothing is promised of it.
#[verifier::external_body]
fn exec_create_table(conn: &DbConn) -> Result<(), rusqlite::Error> {
    conn.inner.execute(
        "CREATE TABLE IF NOT EXISTS todo (id INTEGER PRIMARY KEY AUTOINCREMENT, text TEXT NOT NULL)",
        [],
    ).map(|_| ())
}

/// Relies on rusqlite::Connection::execute with a fixed INSERT statement:
/// appends one row whose text is `text`; the engine assigns the identifier.
/// The outcome depends on the database file, so nothing is promised of it.
#[verifier::external_body]
fn exec_insert(conn: &DbConn, text: &Vec<u8>) -> Result<(), rusqlite::Error> {
    conn.inner.execute("INSERT INTO todo (text) VALUES (?)", (text,)).map(|_| ())
}

/// Relies on rusqlite::Connection::execute with a fixed DELETE statement:
/// removes the row whose primary key is `id`, or no row when none matches;
/// a missing row is not an error.  The outcome depends on the database
/// file, so nothing is promised of it.
#[verifier::external_body]
fn exec_delete(conn: &DbConn, id: u32) -> Result<(), rusqlite::Error> {
    conn.inner.execute("DELETE FROM todo WHERE id=?", (id,)).map(|_| ())
}

/// Relies on rusqlite's Statement::query_map over a fixed SELECT statement:
/// yields every row of the todo table, each as its identifier and its text,
/// in the engine's own row order.  What comes back depends on the database
/// file, so nothing is promised of it.
#[verifier::external_body]
fn query_rows(conn: &DbConn) -> Result<Vec<Entry>, rusqlite::Error> {
    let mut stmt = conn.inner.prepare("SELECT id, text FROM todo")?;
    let rows = stmt.query_map([], |row| {
        Ok(Entry { id: row.get(0)?, text: row.get(1)? })
    })?;
    rows.collect()
}

/// Why a storage operation failed: no connection could be checked out, or
/// the engine refused the statement.
#[derive(Debug)]
pub enum StorageError {
    Pool(r2d2::Error),
    Sql(rusqlite::Error),
}

impl StorageError {
    /// Every storage failure surfaces as the same server error status.
    pub fn http_status(&self) -> (s: u16)
        ensures
            s == 500,
    {
        500
    }
}

/// The persistent table of entries, reached through a pooled connection
/// that each operation checks out anew.
pub struct Store {
    pool: DbPool,
}

impl Store {
    /// A store whose pool opens the database file at `path`; built once at
    /// startup and then shared, unchanged, by every handler.
    pub fn open(path: &str) -> Result<Store, StorageError> {
        match pool_new(manager_file(path)) {
            Err(e) => Err(StorageError::Pool(e)),
            Ok(pool) => Ok(Store { pool }),
        }
    }

    /// A store over one fresh shared in-memory database, for exercising
    /// the library without a file.
    pub fn open_memory() -> Result<Store, StorageError> {
        match pool_new(manager_memory()) {
            Err(e) => Err(StorageError::Pool(e)),
            Ok(pool) => Ok(Store { pool }),
        }
    }

    /// Create the todo table if it is absent; asking again when it exists
    /// changes nothing.  The outcome rests with the engine.
    pub fn ensure_schema(&self) -> Result<(), StorageError> {
        match pool_get(&self.pool) {
            Err(e) => Err(StorageError::Pool(e)),
            Ok(conn) => match exec_create_table(&conn) {
                Err(e) => Err(StorageError::Sql(e)),
                Ok(u) => Ok(u),
            },
        }
    }

    /// Every entry of the table, in the engine's own row order; the order
    /// is not part of this library's contract.
    pub fn list_all(&self) -> Result<Vec<Entry>, StorageError> {
        match pool_get(&self.pool) {
            Err(e) => Err(StorageError::Pool(e)),
            Ok(conn) => match query_rows(&conn) {
                Err(e) => Err(StorageError::Sql(e)),
                Ok(entries) => Ok(entries),
            },
        }
    }

    /// Append one row with the given text; the engine assigns a fresh
    /// identifier.  The text is stored as given: empty text is permitted.
    pub fn insert(&self, text: &Vec<u8>) -> Result<(), StorageError> {
        match pool_get(&self.pool) {
            Err(e) => Err(StorageError::Pool(e)),
            Ok(conn) => match exec_insert(&conn, text) {
                Err(e) => Err(StorageError::Sql(e)),
                Ok(u) => Ok(u),
            },
        }
    }

    /// Remove the row whose identifier is `id`; when no row matches, the
    /// store is left as it was and no error is reported.
    pub fn delete_by_id(&self, id: u32) -> Result<(), StorageError> {
        match pool_get(&self.pool) {
            Err(e) => Err(StorageError::Pool(e)),
            Ok(conn) => match exec_delete(&conn, id) {
                Err(e) => Err(StorageError::Sql(e)),
                Ok(u) => Ok(u),
            },
        }
    }
}

} // verus!
