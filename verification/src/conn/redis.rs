//! The Redis connection factory.

use vstd::prelude::*;
use vstd::utf8::decode_utf8;
use vstd::utf8::encode_utf8;
use vstd::utf8::encode_utf8_decode_utf8;
use vstd::utf8::valid_utf8;

use crate::conn::DatabaseInit;
use crate::database::DataSource;
use crate::database::DbKind;
use crate::error::DbError;
use crate::trusted::redis_accepts;
use crate::trusted::redis_create_pool;
use crate::trusted::uri_string;
use crate::uri::SecretUri;
use crate::uri::lemma_decimal_valid_utf8;
use crate::uri::lemma_percent_encode_valid_utf8;
use crate::uri::push_decimal;
use crate::uri::push_percent_encoded_str;
use crate::uri::push_str_bytes;
use crate::uri::spec_decimal;
use crate::uri::spec_percent_encode;

verus! {

/// Configuration of one Redis instance.
pub struct RedisSourceConfig {
    /// The default flag; absent means not flagged.
    pub default: Option<bool>,
    /// The instance name, the registry key; must be non-empty.
    pub name: String,
    pub host: String,
    pub port: u16,
    /// Optional username, percent-encoded when present.
    pub username: Option<String>,
    /// Optional password, percent-encoded when present.
    pub password: Option<String>,
    /// The database index.
    pub db: u8,
    /// Wire-protocol query parameter; absent means none is emitted.
    pub protocol: Option<String>,
}

impl RedisSourceConfig {
    /// The connection URI: optional percent-encoded credentials, then host,
    /// port and database index, then the optional protocol parameter.
    pub open spec fn spec_uri(&self) -> Seq<u8> {
        encode_utf8("redis://"@) + (if self.username is Some {
            spec_percent_encode(encode_utf8(self.username.unwrap()@))
        } else {
            Seq::<u8>::empty()
        }) + (if self.password is Some {
            encode_utf8(":"@) + spec_percent_encode(encode_utf8(self.password.unwrap()@))
        } else {
            Seq::<u8>::empty()
        }) + encode_utf8("@"@) + encode_utf8(self.host@) + encode_utf8(":"@) + spec_decimal(
            self.port as int,
        ) + encode_utf8("/"@) + spec_decimal(self.db as int) + (if self.protocol is Some {
            encode_utf8("?protocol="@) + encode_utf8(self.protocol.unwrap()@)
        } else {
            Seq::<u8>::empty()
        })
    }

    /// Assembles the connection URI.
    pub fn create_uri(&self) -> (r: SecretUri)
        ensures
            r@ == self.spec_uri(),
    {
        let mut out: Vec<u8> = Vec::new();
        push_str_bytes(&mut out, "redis://");
        if let Some(user) = &self.username {
            push_percent_encoded_str(&mut out, user.as_str());
        }
        if let Some(pass) = &self.password {
            push_str_bytes(&mut out, ":");
            push_percent_encoded_str(&mut out, pass.as_str());
        }
        push_str_bytes(&mut out, "@");
        push_str_bytes(&mut out, self.host.as_str());
        push_str_bytes(&mut out, ":");
        push_decimal(&mut out, self.port as u64);
        push_str_bytes(&mut out, "/");
        push_decimal(&mut out, self.db as u64);
        if let Some(proto) = &self.protocol {
            push_str_bytes(&mut out, "?protocol=");
            push_str_bytes(&mut out, proto.as_str());
        }
        proof {
            assert(out@ =~= self.spec_uri());
        }
        SecretUri::from_bytes(out)
    }

    /// The assembled URI is valid UTF-8.
    pub proof fn lemma_uri_valid_utf8(&self)
        ensures
            valid_utf8(self.spec_uri()),
    {
        broadcast use vstd::utf8::valid_utf8_concat;
        broadcast use vstd::utf8::encode_utf8_valid_utf8;

        if self.username is Some {
            lemma_percent_encode_valid_utf8(encode_utf8(self.username.unwrap()@));
        }
        if self.password is Some {
            lemma_percent_encode_valid_utf8(encode_utf8(self.password.unwrap()@));
        }
        lemma_decimal_valid_utf8(self.port as int);
        lemma_decimal_valid_utf8(self.db as int);
        assert(valid_utf8(Seq::<u8>::empty()));
        let s1 = encode_utf8("redis://"@);
        let s2 = if self.username is Some {
            spec_percent_encode(encode_utf8(self.username.unwrap()@))
        } else {
            Seq::<u8>::empty()
        };
        let s3 = if self.password is Some {
            encode_utf8(":"@) + spec_percent_encode(encode_utf8(self.password.unwrap()@))
        } else {
            Seq::<u8>::empty()
        };
        let s4 = encode_utf8("@"@);
        let s5 = encode_utf8(self.host@);
        let s6 = encode_utf8(":"@);
        let s7 = spec_decimal(self.port as int);
        let s8 = encode_utf8("/"@);
        let s9 = spec_decimal(self.db as int);
        let s10 = if self.protocol is Some {
            encode_utf8("?protocol="@) + encode_utf8(self.protocol.unwrap()@)
        } else {
            Seq::<u8>::empty()
        };
        assert(valid_utf8(s2));
        assert(valid_utf8(s3));
        assert(valid_utf8(s10));
        assert(valid_utf8(s1 + s2));
        assert(valid_utf8(s1 + s2 + s3));
        assert(valid_utf8(s1 + s2 + s3 + s4));
        assert(valid_utf8(s1 + s2 + s3 + s4 + s5));
        assert(valid_utf8(s1 + s2 + s3 + s4 + s5 + s6));
        assert(valid_utf8(s1 + s2 + s3 + s4 + s5 + s6 + s7));
        assert(valid_utf8(s1 + s2 + s3 + s4 + s5 + s6 + s7 + s8));
        assert(valid_utf8(s1 + s2 + s3 + s4 + s5 + s6 + s7 + s8 + s9));
        assert(valid_utf8(s1 + s2 + s3 + s4 + s5 + s6 + s7 + s8 + s9 + s10));
        assert(valid_utf8(self.spec_uri()));
    }
}

impl DatabaseInit for RedisSourceConfig {
    open spec fn spec_kind() -> DbKind {
        DbKind::Redis
    }

    open spec fn spec_name(&self) -> Seq<char> {
        self.name@
    }

    open spec fn spec_flagged(&self) -> bool {
        self.default == Some(true)
    }

    open spec fn spec_accepted(&self) -> bool {
        redis_accepts(decode_utf8(self.spec_uri()))
    }

    fn kind_tag() -> (r: DbKind) {
        DbKind::Redis
    }

    fn instance_name(&self) -> (r: &String) {
        &self.name
    }

    fn flagged_default(&self) -> (r: bool) {
        match self.default {
            Some(b) => b,
            None => false,
        }
    }

    fn init_datasource(&self, _rt: &tokio::runtime::Handle) -> (r: Result<DataSource, DbError>) {
        let uri = self.create_uri();
        proof {
            self.lemma_uri_valid_utf8();
        }
        let uri_str = uri_string(uri.expose());
        proof {
            encode_utf8_decode_utf8(uri_str@);
        }
        match redis_create_pool(uri_str.as_str()) {
            Ok(pool) => Ok(DataSource::Redis { pool }),
            Err(cause) => Err(DbError::BackendInit { name: self.name.clone(), cause }),
        }
    }
}

} // verus!
