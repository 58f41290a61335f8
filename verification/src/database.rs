//! The data-source registry: the closed set of backend kinds, the tagged
//! union of pool handles, and the immutable registry published once at
//! startup and then shared read-only by every consumer.

use vstd::prelude::*;

use crate::error::DbError;
use crate::trusted::MySqlPoolHandle;
use crate::trusted::PgPoolHandle;
use crate::trusted::RedisPoolHandle;
use crate::trusted::SqlitePoolHandle;
use crate::trusted::clone_mysql_pool;
use crate::trusted::clone_pg_pool;
use crate::trusted::clone_redis_pool;
use crate::trusted::clone_sqlite_pool;
use crate::uri::str_eq;

verus! {

/// The closed, compile-time-known set of supported backend kinds.
#[derive(Debug, Clone, Copy, PartialEq, Eq, Structural)]
pub enum DbKind {
    Mysql,
    Sqlite,
    Postgres,
    Redis,
}

/// The label under which a kind appears in error messages and in default
/// lookups of an unconfigured kind.
pub open spec fn spec_kind_label(kind: DbKind) -> Seq<char> {
    match kind {
        DbKind::Mysql => "Mysql"@,
        DbKind::Sqlite => "Sqlite"@,
        DbKind::Postgres => "Postgres"@,
        DbKind::Redis => "Redis"@,
    }
}

/// The exec form of `spec_kind_label`.
pub fn kind_label(kind: DbKind) -> (r: String)
    ensures
        r@ == spec_kind_label(kind),
{
    match kind {
        DbKind::Mysql => "Mysql".to_owned(),
        DbKind::Sqlite => "Sqlite".to_owned(),
        DbKind::Postgres => "Postgres".to_owned(),
        DbKind::Redis => "Redis".to_owned(),
    }
}

/// A data source: either the empty state or exactly one backend kind's pool
/// handle. The only way to reach a usable pool handle is the tag-checked
/// extraction below, so a caller can never mistake one backend's handle for
/// another's.
#[allow(inconsistent_fields)]
pub enum DataSource {
    /// The empty state; never stored in a finished registry.
    Unset,
    Mysql { pool: MySqlPoolHandle },
    Sqlite { pool: SqlitePoolHandle },
    Postgres { pool: PgPoolHandle },
    Redis { pool: RedisPoolHandle },
}

impl DataSource {
    /// The kind tag of this data source; `None` in the empty state.
    pub open spec fn spec_kind(&self) -> Option<DbKind> {
        match self {
            DataSource::Unset => None,
            DataSource::Mysql { .. } => Some(DbKind::Mysql),
            DataSource::Sqlite { .. } => Some(DbKind::Sqlite),
            DataSource::Postgres { .. } => Some(DbKind::Postgres),
            DataSource::Redis { .. } => Some(DbKind::Redis),
        }
    }

    /// The exec form of `spec_kind`.
    pub fn kind(&self) -> (r: Option<DbKind>)
        ensures
            r == self.spec_kind(),
    {
        match self {
            DataSource::Unset => None,
            DataSource::Mysql { .. } => Some(DbKind::Mysql),
            DataSource::Sqlite { .. } => Some(DbKind::Sqlite),
            DataSource::Postgres { .. } => Some(DbKind::Postgres),
            DataSource::Redis { .. } => Some(DbKind::Redis),
        }
    }

    /// Tag-checked extraction: hands the receiver back exactly when it is of
    /// `kind`, and fails with a kind mismatch otherwise.
    pub fn extract(&self, kind: DbKind) -> (r: Result<&DataSource, DbError>)
        ensures
            r is Ok <==> self.spec_kind() == Some(kind),
            r matches Ok(src) ==> *src == *self,
            r is Err ==> r == Err::<&DataSource, DbError>(DbError::KindMismatch),
    {
        let matches_kind = match (self, kind) {
            (DataSource::Mysql { .. }, DbKind::Mysql) => true,
            (DataSource::Sqlite { .. }, DbKind::Sqlite) => true,
            (DataSource::Postgres { .. }, DbKind::Postgres) => true,
            (DataSource::Redis { .. }, DbKind::Redis) => true,
            _ => false,
        };
        if matches_kind {
            Ok(self)
        } else {
            Err(DbError::KindMismatch)
        }
    }

    /// The wrapped MySQL pool handle; fails with a kind mismatch on every
    /// other variant.
    pub fn mysql_pool(&self) -> (r: Result<MySqlPoolHandle, DbError>)
        ensures
            r is Ok <==> self.spec_kind() == Some(DbKind::Mysql),
            self matches DataSource::Mysql { pool } ==> r == Ok::<MySqlPoolHandle, DbError>(*pool),
            r is Err ==> r == Err::<MySqlPoolHandle, DbError>(DbError::KindMismatch),
    {
        match self {
            DataSource::Mysql { pool } => Ok(clone_mysql_pool(pool)),
            _ => Err(DbError::KindMismatch),
        }
    }

    /// The wrapped SQLite pool handle; fails with a kind mismatch on every
    /// other variant.
    pub fn sqlite_pool(&self) -> (r: Result<SqlitePoolHandle, DbError>)
        ensures
            r is Ok <==> self.spec_kind() == Some(DbKind::Sqlite),
            self matches DataSource::Sqlite { pool } ==> r == Ok::<SqlitePoolHandle, DbError>(*pool),
            r is Err ==> r == Err::<SqlitePoolHandle, DbError>(DbError::KindMismatch),
    {
        match self {
            DataSource::Sqlite { pool } => Ok(clone_sqlite_pool(pool)),
            _ => Err(DbError::KindMismatch),
        }
    }

    /// The wrapped PostgreSQL pool handle; fails with a kind mismatch on
    /// every other variant.
    pub fn postgres_pool(&self) -> (r: Result<PgPoolHandle, DbError>)
        ensures
            r is Ok <==> self.spec_kind() == Some(DbKind::Postgres),
            self matches DataSource::Postgres { pool } ==> r == Ok::<PgPoolHandle, DbError>(*pool),
            r is Err ==> r == Err::<PgPoolHandle, DbError>(DbError::KindMismatch),
    {
        match self {
            DataSource::Postgres { pool } => Ok(clone_pg_pool(pool)),
            _ => Err(DbError::KindMismatch),
        }
    }

    /// The wrapped Redis pool handle; fails with a kind mismatch on every
    /// other variant.
    pub fn redis_pool(&self) -> (r: Result<RedisPoolHandle, DbError>)
        ensures
            r is Ok <==> self.spec_kind() == Some(DbKind::Redis),
            self matches DataSource::Redis { pool } ==> r == Ok::<RedisPoolHandle, DbError>(*pool),
            r is Err ==> r == Err::<RedisPoolHandle, DbError>(DbError::KindMismatch),
    {
        match self {
            DataSource::Redis { pool } => Ok(clone_redis_pool(pool)),
            _ => Err(DbError::KindMismatch),
        }
    }
}

/// One registry entry: a data source registered under a (kind, name) key.
pub struct SourceEntry {
    pub kind: DbKind,
    pub name: String,
    pub source: DataSource,
}

/// One resolved default: the instance name that serves a kind's default
/// lookups.
pub struct DefaultEntry {
    pub kind: DbKind,
    pub name: String,
}

/// Index of the first entry registered under (kind, name); -1 when none is.
pub open spec fn find_index(s: Seq<SourceEntry>, kind: DbKind, name: Seq<char>) -> int
    decreases s.len(),
{
    if s.len() == 0 {
        -1
    } else if s[0].kind == kind && s[0].name@ == name {
        0
    } else {
        let r = find_index(s.drop_first(), kind, name);
        if r == -1 {
            -1
        } else {
            r + 1
        }
    }
}

/// The data source registered under (kind, name), when there is one.
pub open spec fn find_source(s: Seq<SourceEntry>, kind: DbKind, name: Seq<char>) -> Option<
    DataSource,
> {
    let i = find_index(s, kind, name);
    if i == -1 {
        None
    } else {
        Some(s[i].source)
    }
}

/// Index of the first entry registered under `name`, of any kind; -1 when
/// none is.
pub open spec fn find_name_index(s: Seq<SourceEntry>, name: Seq<char>) -> int
    decreases s.len(),
{
    if s.len() == 0 {
        -1
    } else if s[0].name@ == name {
        0
    } else {
        let r = find_name_index(s.drop_first(), name);
        if r == -1 {
            -1
        } else {
            r + 1
        }
    }
}

/// Index of the default entry for `kind`; -1 when the kind has none.
pub open spec fn find_default_index(d: Seq<DefaultEntry>, kind: DbKind) -> int
    decreases d.len(),
{
    if d.len() == 0 {
        -1
    } else if d[0].kind == kind {
        0
    } else {
        let r = find_default_index(d.drop_first(), kind);
        if r == -1 {
            -1
        } else {
            r + 1
        }
    }
}

/// The default instance name recorded for `kind`, when there is one.
pub open spec fn find_default(d: Seq<DefaultEntry>, kind: DbKind) -> Option<Seq<char>> {
    let i = find_default_index(d, kind);
    if i == -1 {
        None
    } else {
        Some(d[i].name@)
    }
}

/// What `find_index` returns: -1 exactly when no entry matches, and
/// otherwise the first matching position.
pub proof fn lemma_find_index(s: Seq<SourceEntry>, kind: DbKind, name: Seq<char>)
    ensures
        find_index(s, kind, name) == -1 ==> forall|j: int|
            0 <= j < s.len() ==> !((#[trigger] s[j]).kind == kind && s[j].name@ == name),
        find_index(s, kind, name) != -1 ==> {
            let i = find_index(s, kind, name);
            &&& 0 <= i < s.len()
            &&& s[i].kind == kind
            &&& s[i].name@ == name
            &&& forall|j: int|
                0 <= j < i ==> !((#[trigger] s[j]).kind == kind && s[j].name@ == name)
        },
    decreases s.len(),
{
    if s.len() > 0 {
        lemma_find_index(s.drop_first(), kind, name);
        assert forall|j: int| 1 <= j < s.len() implies s.drop_first()[j - 1] == s[j] by {}
    }
}

/// What `find_name_index` returns: -1 exactly when no entry carries the
/// name, and otherwise the first position that does.
pub proof fn lemma_find_name_index(s: Seq<SourceEntry>, name: Seq<char>)
    ensures
        find_name_index(s, name) == -1 ==> forall|j: int|
            0 <= j < s.len() ==> (#[trigger] s[j]).name@ != name,
        find_name_index(s, name) != -1 ==> {
            let i = find_name_index(s, name);
            &&& 0 <= i < s.len()
            &&& s[i].name@ == name
            &&& forall|j: int| 0 <= j < i ==> (#[trigger] s[j]).name@ != name
        },
    decreases s.len(),
{
    if s.len() > 0 {
        lemma_find_name_index(s.drop_first(), name);
        assert forall|j: int| 1 <= j < s.len() implies s.drop_first()[j - 1] == s[j] by {}
    }
}

/// What `find_default_index` returns: -1 exactly when no default entry is
/// recorded for the kind, and otherwise the first position of one.
pub proof fn lemma_find_default_index(d: Seq<DefaultEntry>, kind: DbKind)
    ensures
        find_default_index(d, kind) == -1 ==> forall|j: int|
            0 <= j < d.len() ==> (#[trigger] d[j]).kind != kind,
        find_default_index(d, kind) != -1 ==> {
            let i = find_default_index(d, kind);
            &&& 0 <= i < d.len()
            &&& d[i].kind == kind
            &&& forall|j: int| 0 <= j < i ==> (#[trigger] d[j]).kind != kind
        },
    decreases d.len(),
{
    if d.len() > 0 {
        lemma_find_default_index(d.drop_first(), kind);
        assert forall|j: int| 1 <= j < d.len() implies d.drop_first()[j - 1] == d[j] by {}
    }
}

/// The published, read-only registry: name-to-source entries and one
/// resolved default instance name per configured backend kind. Built once by
/// registry construction and never mutated afterward: every operation takes
/// `&self`.
pub struct DbManager {
    sources: Vec<SourceEntry>,
    defaults: Vec<DefaultEntry>,
}

impl DbManager {
    /// The registered (kind, name, source) entries, in registration order.
    pub closed spec fn spec_sources(&self) -> Seq<SourceEntry> {
        self.sources@
    }

    /// The recorded per-kind defaults.
    pub closed spec fn spec_defaults(&self) -> Seq<DefaultEntry> {
        self.defaults@
    }

    /// The invariants of a successfully constructed registry:
    /// (kind, name) keys are unique; each kind has at most one default
    /// entry; every source's payload variant agrees with its kind tag; every
    /// default names a registered source of its kind; and every kind with a
    /// registered source has a default entry.
    pub open spec fn wf(&self) -> bool {
        let s = self.spec_sources();
        let d = self.spec_defaults();
        &&& forall|i: int, j: int|
            #![trigger s[i], s[j]]
            0 <= i < j < s.len() ==> !(s[i].kind == s[j].kind && s[i].name@ == s[j].name@)
        &&& forall|i: int, j: int|
            #![trigger d[i], d[j]]
            0 <= i < j < d.len() ==> d[i].kind != d[j].kind
        &&& forall|i: int|
            0 <= i < s.len() ==> (#[trigger] s[i]).source.spec_kind() == Some(s[i].kind)
        &&& forall|i: int|
            0 <= i < d.len() ==> find_index(s, (#[trigger] d[i]).kind, d[i].name@) != -1
        &&& forall|i: int|
            0 <= i < s.len() ==> find_default_index(d, (#[trigger] s[i]).kind) != -1
    }

    /// Wraps finished entry and default tables; registry construction
    /// establishes `wf` before publication.
    pub fn new(sources: Vec<SourceEntry>, defaults: Vec<DefaultEntry>) -> (r: DbManager)
        ensures
            r.spec_sources() == sources@,
            r.spec_defaults() == defaults@,
    {
        DbManager { sources, defaults }
    }

    /// Name-only lookup: the first data source registered under `name`, of
    /// whatever kind. Absence is a normal result, not an error.
    pub fn get(&self, name: &str) -> (r: Option<&DataSource>)
        ensures
            match r {
                Some(src) => {
                    let i = find_name_index(self.spec_sources(), name@);
                    i != -1 && *src == self.spec_sources()[i].source
                },
                None => find_name_index(self.spec_sources(), name@) == -1,
            },
    {
        let ghost s = self.spec_sources();
        proof {
            lemma_find_name_index(s, name@);
        }
        let mut i: usize = 0;
        while i < self.sources.len()
            invariant
                s == self.spec_sources(),
                s == self.sources@,
                i <= s.len(),
                forall|j: int| 0 <= j < i ==> (#[trigger] s[j]).name@ != name@,
                find_name_index(s, name@) == -1 || find_name_index(s, name@) >= i,
            decreases s.len() - i,
        {
            let e = &self.sources[i];
            if str_eq(e.name.as_str(), name) {
                proof {
                    lemma_find_name_index(s, name@);
                }
                return Some(&e.source);
            }
            proof {
                lemma_find_name_index(s, name@);
            }
            i = i + 1;
        }
        None
    }

    /// Kind-and-name lookup: the source registered under (kind, name).
    /// Fails with `DataSourceNotFound` when no source carries the name at
    /// all, and with `KindMismatch` when the name exists only under another
    /// kind.
    pub fn with_named(&self, kind: DbKind, name: &str) -> (r: Result<&DataSource, DbError>)
        ensures
            ({
                let s = self.spec_sources();
                match find_source(s, kind, name@) {
                    Some(src) => r matches Ok(out) && *out == src,
                    None => {
                        if find_name_index(s, name@) != -1 {
                            r == Err::<&DataSource, DbError>(DbError::KindMismatch)
                        } else {
                            r matches Err(e) && e matches DbError::DataSourceNotFound(n) && n@
                                == name@
                        }
                    },
                }
            }),
    {
        let ghost s = self.spec_sources();
        proof {
            lemma_find_index(s, kind, name@);
            lemma_find_name_index(s, name@);
        }
        let mut name_seen = false;
        let mut i: usize = 0;
        while i < self.sources.len()
            invariant
                s == self.spec_sources(),
                s == self.sources@,
                i <= s.len(),
                forall|j: int|
                    0 <= j < i ==> !((#[trigger] s[j]).kind == kind && s[j].name@ == name@),
                name_seen <==> exists|j: int| 0 <= j < i && (#[trigger] s[j]).name@ == name@,
            decreases s.len() - i,
        {
            let e = &self.sources[i];
            if str_eq(e.name.as_str(), name) {
                if e.kind == kind {
                    proof {
                        lemma_find_index(s, kind, name@);
                    }
                    return Ok(&e.source);
                }
                name_seen = true;
            }
            i = i + 1;
        }
        proof {
            lemma_find_index(s, kind, name@);
            lemma_find_name_index(s, name@);
        }
        if name_seen {
            Err(DbError::KindMismatch)
        } else {
            Err(DbError::DataSourceNotFound(name.to_owned()))
        }
    }

    /// Default lookup: resolves the kind's recorded default name and
    /// delegates to `with_named`, with exactly its outcome. Fails with
    /// `DataSourceNotFound` carrying the kind's label when the kind has no
    /// configured instance; on a well-formed registry every recorded default
    /// resolves successfully.
    pub fn with_default(&self, kind: DbKind) -> (r: Result<&DataSource, DbError>)
        ensures
            ({
                let s = self.spec_sources();
                let d = self.spec_defaults();
                match find_default(d, kind) {
                    Some(nm) => {
                        match find_source(s, kind, nm) {
                            Some(src) => r matches Ok(out) && *out == src,
                            None => {
                                if find_name_index(s, nm) != -1 {
                                    r == Err::<&DataSource, DbError>(DbError::KindMismatch)
                                } else {
                                    r matches Err(e) && e matches DbError::DataSourceNotFound(n)
                                        && n@ == nm
                                }
                            },
                        }
                    },
                    None => r matches Err(e) && e matches DbError::DataSourceNotFound(n) && n@
                        == spec_kind_label(kind),
                }
            }),
            self.wf() && find_default(self.spec_defaults(), kind) is Some ==> r is Ok,
    {
        let ghost s = self.spec_sources();
        let ghost d = self.spec_defaults();
        proof {
            lemma_find_default_index(d, kind);
        }
        let mut i: usize = 0;
        while i < self.defaults.len()
            invariant
                s == self.spec_sources(),
                d == self.spec_defaults(),
                d == self.defaults@,
                i <= d.len(),
                forall|j: int| 0 <= j < i ==> (#[trigger] d[j]).kind != kind,
            decreases d.len() - i,
        {
            let e = &self.defaults[i];
            if e.kind == kind {
                proof {
                    lemma_find_default_index(d, kind);
                    if self.wf() {
                        lemma_find_index(s, kind, e.name@);
                    }
                }
                return self.with_named(kind, e.name.as_str());
            }
            i = i + 1;
        }
        proof {
            lemma_find_default_index(d, kind);
        }
        Err(DbError::DataSourceNotFound(kind_label(kind)))
    }
}

/// Lookups depend only on the registry's contents: two handles onto the same
/// published tables answer every lookup alike. Together with the `&self`-only
/// operations above, this is what makes the registry safe to share across
/// concurrent readers without locks.
pub proof fn lemma_lookup_agrees(m1: DbManager, m2: DbManager, kind: DbKind, name: Seq<char>)
    requires
        m1.spec_sources() == m2.spec_sources(),
        m1.spec_defaults() == m2.spec_defaults(),
    ensures
        find_source(m1.spec_sources(), kind, name) == find_source(m2.spec_sources(), kind, name),
        find_name_index(m1.spec_sources(), name) == find_name_index(m2.spec_sources(), name),
        find_default(m1.spec_defaults(), kind) == find_default(m2.spec_defaults(), kind),
{
}

} // verus!
