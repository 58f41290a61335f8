//! The trusted boundary to the outside pooling libraries.
//!
//! Everything in this file is believed rather than verified. Each pool
//! handle struct is opaque to verification (`external_body`) and holds the
//! outside library's pool; two handles are equal in specifications when they
//! are handles to the same underlying pool. Whether a backend accepts a
//! connection URI is a function of the URI alone, named by an
//! uninterpreted predicate per backend; each `external_body` function's
//! contract states only what the outside function it names is shown to do
//! by its source.

use vstd::prelude::*;
use vstd::utf8::encode_utf8;
use vstd::utf8::valid_utf8;

verus! {

/// Opaque handle to a lazily connecting MySQL pool (sqlx). Unverified
/// callers take the underlying pool from the public field.
#[verifier::external_body]
pub struct MySqlPoolHandle {
    pub pool: sqlx::MySqlPool,
}

/// Opaque handle to a lazily connecting PostgreSQL pool (sqlx). Unverified
/// callers take the underlying pool from the public field.
#[verifier::external_body]
pub struct PgPoolHandle {
    pub pool: sqlx::PgPool,
}

/// Opaque handle to a lazily connecting SQLite pool (sqlx). Unverified
/// callers take the underlying pool from the public field.
#[verifier::external_body]
pub struct SqlitePoolHandle {
    pub pool: sqlx::SqlitePool,
}

/// Opaque handle to a lazily connecting Redis pool (deadpool-redis).
/// Unverified callers take the underlying pool from the public field.
#[verifier::external_body]
pub struct RedisPoolHandle {
    pub pool: deadpool_redis::Pool,
}

/// tokio's handle to a runtime; an opaque token that pool creation needs so
/// it can spawn its maintenance tasks.
#[verifier::external_type_specification]
#[verifier::external_body]
pub struct ExTokioHandle(tokio::runtime::Handle);

/// The URIs that sqlx's MySQL option parser accepts; building a MySQL pool
/// succeeds on exactly these.
pub uninterp spec fn mysql_accepts(uri: Seq<char>) -> bool;

/// The URIs that sqlx's PostgreSQL option parser accepts; building a
/// PostgreSQL pool succeeds on exactly these.
pub uninterp spec fn pg_accepts(uri: Seq<char>) -> bool;

/// The URIs that sqlx's SQLite option parser accepts; building a SQLite
/// pool succeeds on exactly these.
pub uninterp spec fn sqlite_accepts(uri: Seq<char>) -> bool;

/// The URLs that the Redis client parser accepts; building a Redis pool
/// succeeds on exactly these.
pub uninterp spec fn redis_accepts(uri: Seq<char>) -> bool;

/// Relies on `String::from_utf8`: returns the string whose UTF-8 encoding is
/// `v`. The `requires` keeps out the inputs on which the call would fail;
/// every URI built by this crate is valid UTF-8 by construction.
#[verifier::external_body]
pub(crate) fn uri_string(v: &Vec<u8>) -> (r: String)
    requires
        valid_utf8(v@),
    ensures
        encode_utf8(r@) == v@,
{
    String::from_utf8(v.clone()).unwrap()
}

/// Relies on `num_cpus::get`, which is documented to always return at
/// least 1.
#[verifier::external_body]
pub(crate) fn cpu_count() -> (r: usize)
    ensures
        r >= 1,
{
    num_cpus::get()
}

/// Relies on sqlx's `PoolOptions` builder and `connect_lazy`: with the given
/// runtime context entered for the duration of the call (so the pool's
/// maintenance tasks can be spawned without panicking), it configures pool
/// sizes and timeouts, parses the URI, and returns a pool without doing any
/// I/O. `connect_lazy` fails exactly when the option parser rejects the
/// URI; the pool options never fail, so success depends on the URI alone.
#[verifier::external_body]
pub(crate) fn mysql_connect_lazy(
    rt: &tokio::runtime::Handle,
    uri: &str,
    min_conns: u32,
    max_conns: u32,
    acquire_secs: u64,
    idle_secs: u64,
    lifetime_secs: u64,
) -> (r: Result<MySqlPoolHandle, String>)
    ensures
        r is Ok <==> mysql_accepts(uri@),
{
    let _context = rt.enter();
    match sqlx::mysql::MySqlPoolOptions::new()
        .min_connections(min_conns)
        .max_connections(max_conns)
        .acquire_timeout(core::time::Duration::from_secs(acquire_secs))
        .idle_timeout(core::time::Duration::from_secs(idle_secs))
        .max_lifetime(core::time::Duration::from_secs(lifetime_secs))
        .connect_lazy(uri) {
        Ok(pool) => Ok(MySqlPoolHandle { pool }),
        Err(e) => Err(e.to_string()),
    }
}

/// Relies on sqlx's `PoolOptions` builder and `connect_lazy`, as the MySQL
/// wrapper does: success depends on the URI alone (the environment variables
/// the PostgreSQL parser reads only adjust defaults inside a successful
/// parse, never success against failure).
#[verifier::external_body]
pub(crate) fn pg_connect_lazy(
    rt: &tokio::runtime::Handle,
    uri: &str,
    min_conns: u32,
    max_conns: u32,
    acquire_secs: u64,
    idle_secs: u64,
    lifetime_secs: u64,
) -> (r: Result<PgPoolHandle, String>)
    ensures
        r is Ok <==> pg_accepts(uri@),
{
    let _context = rt.enter();
    match sqlx::postgres::PgPoolOptions::new()
        .min_connections(min_conns)
        .max_connections(max_conns)
        .acquire_timeout(core::time::Duration::from_secs(acquire_secs))
        .idle_timeout(core::time::Duration::from_secs(idle_secs))
        .max_lifetime(core::time::Duration::from_secs(lifetime_secs))
        .connect_lazy(uri) {
        Ok(pool) => Ok(PgPoolHandle { pool }),
        Err(e) => Err(e.to_string()),
    }
}

/// Relies on sqlx's `PoolOptions` builder and `connect_lazy`, as the MySQL
/// wrapper does: success depends on the URI alone.
#[verifier::external_body]
pub(crate) fn sqlite_connect_lazy(
    rt: &tokio::runtime::Handle,
    uri: &str,
    min_conns: u32,
    max_conns: u32,
    acquire_secs: u64,
    idle_secs: u64,
    lifetime_secs: u64,
) -> (r: Result<SqlitePoolHandle, String>)
    ensures
        r is Ok <==> sqlite_accepts(uri@),
{
    let _context = rt.enter();
    match sqlx::sqlite::SqlitePoolOptions::new()
        .min_connections(min_conns)
        .max_connections(max_conns)
        .acquire_timeout(core::time::Duration::from_secs(acquire_secs))
        .idle_timeout(core::time::Duration::from_secs(idle_secs))
        .max_lifetime(core::time::Duration::from_secs(lifetime_secs))
        .connect_lazy(uri) {
        Ok(pool) => Ok(SqlitePoolHandle { pool }),
        Err(e) => Err(e.to_string()),
    }
}

/// Relies on deadpool-redis's `Config::from_url` and `create_pool`: parses
/// the URL and builds a lazily connecting pool without doing any I/O and
/// without spawning. A runtime is always passed, so the builder's only
/// error is a rejected URL: success depends on the URL alone.
#[verifier::external_body]
pub(crate) fn redis_create_pool(uri: &str) -> (r: Result<RedisPoolHandle, String>)
    ensures
        r is Ok <==> redis_accepts(uri@),
{
    match deadpool_redis::Config::from_url(uri).create_pool(Some(deadpool_redis::Runtime::Tokio1)) {
        Ok(pool) => Ok(RedisPoolHandle { pool }),
        Err(e) => Err(e.to_string()),
    }
}

/// Relies on sqlx `Pool`'s `Clone`: the clone is a new handle to the same
/// shared pool.
#[verifier::external_body]
pub(crate) fn clone_mysql_pool(p: &MySqlPoolHandle) -> (r: MySqlPoolHandle)
    ensures
        r == *p,
{
    MySqlPoolHandle { pool: p.pool.clone() }
}

/// Relies on sqlx `Pool`'s `Clone`: the clone is a new handle to the same
/// shared pool.
#[verifier::external_body]
pub(crate) fn clone_pg_pool(p: &PgPoolHandle) -> (r: PgPoolHandle)
    ensures
        r == *p,
{
    PgPoolHandle { pool: p.pool.clone() }
}

/// Relies on sqlx `Pool`'s `Clone`: the clone is a new handle to the same
/// shared pool.
#[verifier::external_body]
pub(crate) fn clone_sqlite_pool(p: &SqlitePoolHandle) -> (r: SqlitePoolHandle)
    ensures
        r == *p,
{
    SqlitePoolHandle { pool: p.pool.clone() }
}

/// Relies on deadpool `Pool`'s `Clone`: the clone is a new handle to the
/// same reference-counted pool.
#[verifier::external_body]
pub(crate) fn clone_redis_pool(p: &RedisPoolHandle) -> (r: RedisPoolHandle)
    ensures
        r == *p,
{
    RedisPoolHandle { pool: p.pool.clone() }
}

} // verus!
