use std::sync::Arc;

use jieto::conn::mysql::MySqlSourceConfig;
use jieto::conn::pool_sizes;
use jieto::conn::redis::RedisSourceConfig;
use jieto::conn::sqlite::SqliteSourceConfig;
use jieto::config::MultiDataSourceConfig;
use jieto::database::DataSource;
use jieto::database::DbKind;
use jieto::database::DbManager;
use jieto::error::DbError;

fn mysql_cfg(name: &str, host: &str, default: Option<bool>) -> MySqlSourceConfig {
    MySqlSourceConfig {
        default,
        name: String::from(name),
        host: String::from(host),
        port: 3306,
        username: String::from("user"),
        password: String::from("pass"),
        database: String::from("db"),
    }
}

fn sqlite_cfg(name: &str, default: Option<bool>) -> SqliteSourceConfig {
    SqliteSourceConfig { default, name: String::from(name), url: String::from(":memory:") }
}

fn redis_cfg(name: &str, default: Option<bool>) -> RedisSourceConfig {
    RedisSourceConfig {
        default,
        name: String::from(name),
        host: String::from("localhost"),
        port: 6379,
        username: None,
        password: None,
        db: 0,
        protocol: None,
    }
}

// Pool creation spawns maintenance tasks, so registry construction takes the
// handle of a runtime, as in a real application.
fn build(cfg: MultiDataSourceConfig) -> Result<DbManager, DbError> {
    let rt = tokio::runtime::Builder::new_current_thread().build().expect("runtime");
    cfg.into_data_sources(rt.handle())
}

fn build_err(cfg: MultiDataSourceConfig) -> DbError {
    match build(cfg) {
        Err(e) => e,
        Ok(_) => panic!("expected construction to fail"),
    }
}

fn lookup_err(r: Result<&DataSource, DbError>) -> DbError {
    match r {
        Err(e) => e,
        Ok(_) => panic!("expected a lookup error"),
    }
}

fn empty_config() -> MultiDataSourceConfig {
    MultiDataSourceConfig { sqlite: Vec::new(), mysql: Vec::new(), postgres: Vec::new(), redis: Vec::new() }
}

fn mysql_host_of(ds: &DataSource) -> String {
    let handle = ds.mysql_pool().expect("expected a MySQL source");
    handle.pool.connect_options().get_host().to_string()
}

#[test]
fn flagged_instance_is_the_default() {
    let mut cfg = empty_config();
    cfg.mysql.push(mysql_cfg("a", "host-a", Some(true)));
    cfg.mysql.push(mysql_cfg("b", "host-b", None));
    let m = build(cfg).expect("construction succeeds");
    let ds = m.with_default(DbKind::Mysql).expect("default resolves");
    assert_eq!(mysql_host_of(ds), "host-a");
}

#[test]
fn flagged_instance_is_the_default_regardless_of_position() {
    let mut cfg = empty_config();
    cfg.mysql.push(mysql_cfg("a", "host-a", None));
    cfg.mysql.push(mysql_cfg("b", "host-b", Some(true)));
    let m = build(cfg).expect("construction succeeds");
    let ds = m.with_default(DbKind::Mysql).expect("default resolves");
    assert_eq!(mysql_host_of(ds), "host-b");
}

#[test]
fn first_instance_is_the_default_when_none_is_flagged() {
    let mut cfg = empty_config();
    cfg.mysql.push(mysql_cfg("a", "host-a", None));
    cfg.mysql.push(mysql_cfg("b", "host-b", None));
    let m = build(cfg).expect("construction succeeds");
    let ds = m.with_default(DbKind::Mysql).expect("default resolves");
    assert_eq!(mysql_host_of(ds), "host-a");
}

#[test]
fn explicit_false_flag_counts_as_unflagged() {
    let mut cfg = empty_config();
    cfg.mysql.push(mysql_cfg("a", "host-a", Some(false)));
    cfg.mysql.push(mysql_cfg("b", "host-b", None));
    let m = build(cfg).expect("construction succeeds");
    let ds = m.with_default(DbKind::Mysql).expect("default resolves");
    assert_eq!(mysql_host_of(ds), "host-a");
}

#[test]
fn two_flagged_instances_abort_the_build() {
    let mut cfg = empty_config();
    cfg.mysql.push(mysql_cfg("a", "host-a", Some(true)));
    cfg.mysql.push(mysql_cfg("b", "host-b", Some(true)));
    let err = build_err(cfg);
    assert_eq!(
        err,
        DbError::MultipleDefault {
            db_type: String::from("Mysql"),
            names: vec![String::from("a"), String::from("b")],
        }
    );
}

#[test]
fn multiple_default_error_wins_over_other_kinds() {
    // A healthy sqlite kind does not rescue a broken mysql kind: the whole
    // build fails and no registry is produced.
    let mut cfg = empty_config();
    cfg.sqlite.push(sqlite_cfg("s1", None));
    cfg.mysql.push(mysql_cfg("a", "host-a", Some(true)));
    cfg.mysql.push(mysql_cfg("b", "host-b", Some(true)));
    let err = build_err(cfg);
    assert!(matches!(err, DbError::MultipleDefault { .. }));
}

#[test]
fn empty_configuration_builds_an_empty_registry() {
    let m = build(empty_config()).expect("an empty configuration builds");
    for kind in [DbKind::Sqlite, DbKind::Mysql, DbKind::Postgres, DbKind::Redis] {
        assert!(m.with_default(kind).is_err());
    }
    assert!(m.get("anything").is_none());
}

#[test]
fn unconfigured_kind_has_no_default() {
    let mut cfg = empty_config();
    cfg.sqlite.push(sqlite_cfg("s1", None));
    let m = build(cfg).expect("construction succeeds");
    let err = lookup_err(m.with_default(DbKind::Redis));
    assert_eq!(err, DbError::DataSourceNotFound(String::from("Redis")));
}

#[test]
fn unknown_name_is_not_found() {
    let mut cfg = empty_config();
    cfg.sqlite.push(sqlite_cfg("s1", None));
    let m = build(cfg).expect("construction succeeds");
    let err = lookup_err(m.with_named(DbKind::Sqlite, "nope"));
    assert_eq!(err, DbError::DataSourceNotFound(String::from("nope")));
    assert!(m.get("nope").is_none());
}

#[test]
fn wrong_kind_is_a_kind_mismatch() {
    let mut cfg = empty_config();
    cfg.sqlite.push(sqlite_cfg("s1", None));
    let m = build(cfg).expect("construction succeeds");
    let err = lookup_err(m.with_named(DbKind::Mysql, "s1"));
    assert_eq!(err, DbError::KindMismatch);

    let ds = m.get("s1").expect("s1 is registered");
    assert_eq!(ds.kind(), Some(DbKind::Sqlite));
    assert!(matches!(ds.mysql_pool(), Err(DbError::KindMismatch)));
    assert!(matches!(ds.redis_pool(), Err(DbError::KindMismatch)));
    assert!(ds.sqlite_pool().is_ok());
    assert!(ds.extract(DbKind::Sqlite).is_ok());
    assert!(matches!(ds.extract(DbKind::Postgres), Err(DbError::KindMismatch)));
}

#[test]
fn empty_instance_name_is_rejected() {
    let mut cfg = empty_config();
    cfg.sqlite.push(sqlite_cfg("", None));
    let err = build_err(cfg);
    assert_eq!(err, DbError::ConfigValidation { db_type: String::from("Sqlite") });
}

#[test]
fn rejected_uri_aborts_with_the_instance_name() {
    let mut cfg = empty_config();
    cfg.mysql.push(mysql_cfg("broken", "bad host", None));
    let err = build_err(cfg);
    match err {
        DbError::BackendInit { name, cause } => {
            assert_eq!(name, "broken");
            assert!(!cause.is_empty());
        },
        other => panic!("expected BackendInit, got {other:?}"),
    }
}

#[test]
fn later_duplicate_name_replaces_the_earlier_entry() {
    let mut cfg = empty_config();
    cfg.mysql.push(mysql_cfg("dup", "host-first", None));
    cfg.mysql.push(mysql_cfg("dup", "host-second", None));
    let m = build(cfg).expect("construction succeeds");
    let ds = m.with_named(DbKind::Mysql, "dup").expect("dup is registered");
    assert_eq!(mysql_host_of(ds), "host-second");
}

#[test]
fn each_kind_resolves_its_own_default() {
    let mut cfg = empty_config();
    cfg.sqlite.push(sqlite_cfg("s1", None));
    cfg.mysql.push(mysql_cfg("m1", "host-m", None));
    cfg.redis.push(redis_cfg("r1", None));
    let m = build(cfg).expect("construction succeeds");
    assert_eq!(m.with_default(DbKind::Sqlite).unwrap().kind(), Some(DbKind::Sqlite));
    assert_eq!(m.with_default(DbKind::Mysql).unwrap().kind(), Some(DbKind::Mysql));
    assert_eq!(m.with_default(DbKind::Redis).unwrap().kind(), Some(DbKind::Redis));
    let err = lookup_err(m.with_default(DbKind::Postgres));
    assert_eq!(err, DbError::DataSourceNotFound(String::from("Postgres")));
}

#[test]
fn credentials_with_reserved_characters_survive_uri_parsing() {
    // The pooling library parses the URI back; the percent-encoded username
    // must decode to the configured value.
    let mut cfg = empty_config();
    cfg.mysql.push(MySqlSourceConfig {
        default: None,
        name: String::from("enc"),
        host: String::from("localhost"),
        port: 3306,
        username: String::from("user@domain"),
        password: String::from("p@ss:word"),
        database: String::from("my db"),
    });
    let m = build(cfg).expect("construction succeeds");
    let ds = m.with_named(DbKind::Mysql, "enc").expect("registered");
    let handle = ds.mysql_pool().expect("mysql source");
    let opts = handle.pool.connect_options();
    assert_eq!(opts.get_username(), "user@domain");
    assert_eq!(opts.get_database(), Some("my db"));
}

#[test]
fn shared_readers_observe_the_same_registry() {
    let mut cfg = empty_config();
    cfg.mysql.push(mysql_cfg("a", "host-a", None));
    cfg.mysql.push(mysql_cfg("b", "host-b", Some(true)));
    let m = Arc::new(build(cfg).expect("construction succeeds"));
    let m2: Arc<DbManager> = Arc::clone(&m);
    let first = mysql_host_of(m.with_default(DbKind::Mysql).unwrap());
    let second = mysql_host_of(m2.with_default(DbKind::Mysql).unwrap());
    let third = mysql_host_of(m.with_default(DbKind::Mysql).unwrap());
    assert_eq!(first, "host-b");
    assert_eq!(second, "host-b");
    assert_eq!(third, "host-b");
    assert_eq!(mysql_host_of(m2.with_named(DbKind::Mysql, "a").unwrap()), "host-a");
}

#[test]
fn postgres_instances_register_like_the_others() {
    let mut cfg = empty_config();
    cfg.postgres.push(jieto::conn::postgres::PostgresSourceConfig {
        default: None,
        name: String::from("pg1"),
        host: String::from("pg-host"),
        port: 5432,
        username: String::from("svc"),
        password: String::from("p@ss"),
        database: String::from("app"),
        ssl_mode: Some(String::from("require")),
        schema: None,
        application_name: None,
    });
    let m = build(cfg).expect("construction succeeds");
    let ds = m.with_default(DbKind::Postgres).expect("default resolves");
    let handle = ds.postgres_pool().expect("postgres source");
    assert_eq!(handle.pool.connect_options().get_host(), "pg-host");
    assert_eq!(handle.pool.connect_options().get_username(), "svc");
}

#[test]
fn kinds_keep_sources_of_the_same_name_apart() {
    // Two instances of different kinds may share a name: each kind's lookup
    // reaches its own source.
    let mut cfg = empty_config();
    cfg.sqlite.push(sqlite_cfg("shared", None));
    cfg.mysql.push(mysql_cfg("shared", "host-m", None));
    let m = build(cfg).expect("construction succeeds");
    let sq = m.with_named(DbKind::Sqlite, "shared").expect("sqlite entry");
    assert_eq!(sq.kind(), Some(DbKind::Sqlite));
    let my = m.with_named(DbKind::Mysql, "shared").expect("mysql entry");
    assert_eq!(mysql_host_of(my), "host-m");
    let err = lookup_err(m.with_named(DbKind::Redis, "shared"));
    assert_eq!(err, DbError::KindMismatch);
    // Name-only lookup hands back the first registration under that name.
    assert_eq!(m.get("shared").expect("registered").kind(), Some(DbKind::Sqlite));
}

#[test]
fn pool_sizes_apply_their_floors() {
    assert_eq!(pool_sizes(1), (2, 20));
    assert_eq!(pool_sizes(4), (2, 20));
    assert_eq!(pool_sizes(8), (4, 20));
    assert_eq!(pool_sizes(64), (32, 128));
}

#[test]
fn every_relational_pool_gets_the_sizing_floors() {
    let mut cfg = empty_config();
    cfg.sqlite.push(sqlite_cfg("s1", None));
    let m = build(cfg).expect("construction succeeds");
    let ds = m.with_default(DbKind::Sqlite).expect("default resolves");
    let handle = ds.sqlite_pool().expect("sqlite source");
    assert!(handle.pool.options().get_min_connections() >= 2);
    assert!(handle.pool.options().get_max_connections() >= 20);
}

#[test]
fn business_error_carries_code_and_message() {
    let e = jieto::BusinessError { code: 4001, msg: "invalid id" };
    assert_eq!(e.code, 4001);
    assert_eq!(e.msg, "invalid id");
}
