//! The MySQL connection factory.

use vstd::prelude::*;
use vstd::utf8::decode_utf8;
use vstd::utf8::encode_utf8;
use vstd::utf8::encode_utf8_decode_utf8;
use vstd::utf8::valid_utf8;

use crate::conn::ACQUIRE_TIMEOUT_SECS;
use crate::conn::DatabaseInit;
use crate::conn::IDLE_TIMEOUT_SECS;
use crate::conn::MAX_LIFETIME_SECS;
use crate::conn::pool_sizes;
use crate::database::DataSource;
use crate::database::DbKind;
use crate::error::DbError;
use crate::trusted::cpu_count;
use crate::trusted::mysql_accepts;
use crate::trusted::mysql_connect_lazy;
use crate::trusted::uri_string;
use crate::uri::SecretUri;
use crate::uri::lemma_decimal_valid_utf8;
use crate::uri::lemma_percent_encode_valid_utf8;
use crate::uri::push_decimal;
use crate::uri::push_percent_encoded_str;
use crate::uri::push_str_bytes;
use crate::uri::spec_decimal;
use crate::uri::spec_percent_encode;

verus! {

/// Configuration of one MySQL instance.
pub struct MySqlSourceConfig {
    /// The default flag; absent means not flagged.
    pub default: Option<bool>,
    /// The instance name, the registry key; must be non-empty.
    pub name: String,
    pub host: String,
    pub port: u16,
    pub username: String,
    pub password: String,
    pub database: String,
}

impl MySqlSourceConfig {
    /// The connection URI: username, password and database name
    /// percent-encoded, host and port interpolated as given.
    pub open spec fn spec_uri(&self) -> Seq<u8> {
        encode_utf8("mysql://"@) + spec_percent_encode(encode_utf8(self.username@)) + encode_utf8(
            ":"@,
        ) + spec_percent_encode(encode_utf8(self.password@)) + encode_utf8("@"@) + encode_utf8(
            self.host@,
        ) + encode_utf8(":"@) + spec_decimal(self.port as int) + encode_utf8("/"@)
            + spec_percent_encode(encode_utf8(self.database@))
    }

    /// Assembles the connection URI.
    pub fn create_uri(&self) -> (r: SecretUri)
        ensures
            r@ == self.spec_uri(),
    {
        let mut out: Vec<u8> = Vec::new();
        push_str_bytes(&mut out, "mysql://");
        push_percent_encoded_str(&mut out, self.username.as_str());
        push_str_bytes(&mut out, ":");
        push_percent_encoded_str(&mut out, self.password.as_str());
        push_str_bytes(&mut out, "@");
        push_str_bytes(&mut out, self.host.as_str());
        push_str_bytes(&mut out, ":");
        push_decimal(&mut out, self.port as u64);
        push_str_bytes(&mut out, "/");
        push_percent_encoded_str(&mut out, self.database.as_str());
        proof {
            assert(out@ =~= self.spec_uri());
        }
        SecretUri::from_bytes(out)
    }

    /// The assembled URI is valid UTF-8.
    pub proof fn lemma_uri_valid_utf8(&self)
        ensures
            valid_utf8(self.spec_uri()),
    {
        broadcast use vstd::utf8::valid_utf8_concat;
        broadcast use vstd::utf8::encode_utf8_valid_utf8;

        lemma_percent_encode_valid_utf8(encode_utf8(self.username@));
        lemma_percent_encode_valid_utf8(encode_utf8(self.password@));
        lemma_percent_encode_valid_utf8(encode_utf8(self.database@));
        lemma_decimal_valid_utf8(self.port as int);
        let s1 = encode_utf8("mysql://"@);
        let s2 = spec_percent_encode(encode_utf8(self.username@));
        let s3 = encode_utf8(":"@);
        let s4 = spec_percent_encode(encode_utf8(self.password@));
        let s5 = encode_utf8("@"@);
        let s6 = encode_utf8(self.host@);
        let s7 = encode_utf8(":"@);
        let s8 = spec_decimal(self.port as int);
        let s9 = encode_utf8("/"@);
        let s10 = spec_percent_encode(encode_utf8(self.database@));
        assert(valid_utf8(s1 + s2));
        assert(valid_utf8(s1 + s2 + s3));
        assert(valid_utf8(s1 + s2 + s3 + s4));
        assert(valid_utf8(s1 + s2 + s3 + s4 + s5));
        assert(valid_utf8(s1 + s2 + s3 + s4 + s5 + s6));
        assert(valid_utf8(s1 + s2 + s3 + s4 + s5 + s6 + s7));
        assert(valid_utf8(s1 + s2 + s3 + s4 + s5 + s6 + s7 + s8));
        assert(valid_utf8(s1 + s2 + s3 + s4 + s5 + s6 + s7 + s8 + s9));
        assert(valid_utf8(s1 + s2 + s3 + s4 + s5 + s6 + s7 + s8 + s9 + s10));
        assert(valid_utf8(self.spec_uri()));
    }
}

impl DatabaseInit for MySqlSourceConfig {
    open spec fn spec_kind() -> DbKind {
        DbKind::Mysql
    }

    open spec fn spec_name(&self) -> Seq<char> {
        self.name@
    }

    open spec fn spec_flagged(&self) -> bool {
        self.default == Some(true)
    }

    open spec fn spec_accepted(&self) -> bool {
        mysql_accepts(decode_utf8(self.spec_uri()))
    }

    fn kind_tag() -> (r: DbKind) {
        DbKind::Mysql
    }

    fn instance_name(&self) -> (r: &String) {
        &self.name
    }

    fn flagged_default(&self) -> (r: bool) {
        match self.default {
            Some(b) => b,
            None => false,
        }
    }

    fn init_datasource(&self, rt: &tokio::runtime::Handle) -> (r: Result<DataSource, DbError>) {
        let uri = self.create_uri();
        proof {
            self.lemma_uri_valid_utf8();
        }
        let uri_str = uri_string(uri.expose());
        proof {
            encode_utf8_decode_utf8(uri_str@);
        }
        let cpus_raw = cpu_count();
        let cpus: u32 = if cpus_raw >= 0xffffffffusize {
            0xffffffffu32
        } else {
            cpus_raw as u32
        };
        let (min_conns, max_conns) = pool_sizes(cpus);
        match mysql_connect_lazy(
            rt,
            uri_str.as_str(),
            min_conns,
            max_conns,
            ACQUIRE_TIMEOUT_SECS,
            IDLE_TIMEOUT_SECS,
            MAX_LIFETIME_SECS,
        ) {
            Ok(pool) => Ok(DataSource::Mysql { pool }),
            Err(cause) => Err(DbError::BackendInit { name: self.name.clone(), cause }),
        }
    }
}

} // verus!
