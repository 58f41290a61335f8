//! The SQLite connection factory.

use vstd::prelude::*;
use vstd::utf8::decode_utf8;
use vstd::utf8::encode_utf8;
use vstd::utf8::encode_utf8_decode_utf8;
use vstd::utf8::valid_utf8;

use crate::conn::ACQUIRE_TIMEOUT_SECS;
use crate::conn::DatabaseInit;
use crate::conn::IDLE_TIMEOUT_SECS;
use crate::conn::MAX_LIFETIME_SECS;
use crate::conn::pool_sizes;
use crate::database::DataSource;
use crate::database::DbKind;
use crate::error::DbError;
use crate::trusted::cpu_count;
use crate::trusted::sqlite_accepts;
use crate::trusted::sqlite_connect_lazy;
use crate::trusted::uri_string;
use crate::uri::SecretUri;
use crate::uri::push_str_bytes;

verus! {

/// Configuration of one SQLite instance.
pub struct SqliteSourceConfig {
    /// The default flag; absent means not flagged.
    pub default: Option<bool>,
    /// The instance name, the registry key; must be non-empty.
    pub name: String,
    /// The database location, interpolated as given.
    pub url: String,
}

impl SqliteSourceConfig {
    /// The connection URI: the scheme followed by the configured location.
    pub open spec fn spec_uri(&self) -> Seq<u8> {
        encode_utf8("sqlite://"@) + encode_utf8(self.url@)
    }

    /// Assembles the connection URI.
    pub fn create_uri(&self) -> (r: SecretUri)
        ensures
            r@ == self.spec_uri(),
    {
        let mut out: Vec<u8> = Vec::new();
        push_str_bytes(&mut out, "sqlite://");
        push_str_bytes(&mut out, self.url.as_str());
        proof {
            assert(out@ =~= self.spec_uri());
        }
        SecretUri::from_bytes(out)
    }

    /// The assembled URI is valid UTF-8.
    pub proof fn lemma_uri_valid_utf8(&self)
        ensures
            valid_utf8(self.spec_uri()),
    {
        broadcast use vstd::utf8::valid_utf8_concat;
        broadcast use vstd::utf8::encode_utf8_valid_utf8;

        assert(valid_utf8(self.spec_uri()));
    }
}

impl DatabaseInit for SqliteSourceConfig {
    open spec fn spec_kind() -> DbKind {
        DbKind::Sqlite
    }

    open spec fn spec_name(&self) -> Seq<char> {
        self.name@
    }

    open spec fn spec_flagged(&self) -> bool {
        self.default == Some(true)
    }

    open spec fn spec_accepted(&self) -> bool {
        sqlite_accepts(decode_utf8(self.spec_uri()))
    }

    fn kind_tag() -> (r: DbKind) {
        DbKind::Sqlite
    }

    fn instance_name(&self) -> (r: &String) {
        &self.name
    }

    fn flagged_default(&self) -> (r: bool) {
        match self.default {
            Some(b) => b,
            None => false,
        }
    }

    fn init_datasource(&self, rt: &tokio::runtime::Handle) -> (r: Result<DataSource, DbError>) {
        let uri = self.create_uri();
        proof {
            self.lemma_uri_valid_utf8();
        }
        let uri_str = uri_string(uri.expose());
        proof {
            encode_utf8_decode_utf8(uri_str@);
        }
        let cpus_raw = cpu_count();
        let cpus: u32 = if cpus_raw >= 0xffffffffusize {
            0xffffffffu32
        } else {
            cpus_raw as u32
        };
        let (min_conns, max_conns) = pool_sizes(cpus);
        match sqlite_connect_lazy(
            rt,
            uri_str.as_str(),
            min_conns,
            max_conns,
            ACQUIRE_TIMEOUT_SECS,
            IDLE_TIMEOUT_SECS,
            MAX_LIFETIME_SECS,
        ) {
            Ok(pool) => Ok(DataSource::Sqlite { pool }),
            Err(cause) => Err(DbError::BackendInit { name: self.name.clone(), cause }),
        }
    }
}

} // verus!
