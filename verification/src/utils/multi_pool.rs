//! Database connection settings, read from the wallet's JSON configuration
//! and credentials, and the key under which a connection pool is shared.
use vstd::prelude::*;

use std::sync::Arc;

use crate::utils::handle_store::arc_clone;

use crate::errors::error_code::ErrorCode;
use crate::json::{
    JsonNumber,
    JsonNumberView,
    JsonValue,
    JsonView,
    field,
    from_text,
    parse_json,
    spec_field,
    spec_struct_shape,
    struct_shape,
};

verus! {

/// Where the wallet's database is: `{"read_host", "write_host", "port",
/// "db_name"}`.
#[derive(Debug)]
pub struct StorageConfig {
    pub read_host: String,
    pub write_host: String,
    pub port: u16,
    pub db_name: String,
}

/// Who connects to the database: `{"user", "pass"}`.
#[derive(Debug)]
pub struct StorageCredentials {
    pub user: String,
    pub pass: String,
}

/// The model of a configuration.
pub struct StorageConfigView {
    pub read_host: Seq<char>,
    pub write_host: Seq<char>,
    pub port: u16,
    pub db_name: Seq<char>,
}

/// The model of credentials.
pub struct StorageCredentialsView {
    pub user: Seq<char>,
    pub pass: Seq<char>,
}

impl View for StorageConfig {
    type V = StorageConfigView;

    open spec fn view(&self) -> StorageConfigView {
        StorageConfigView {
            read_host: self.read_host@,
            write_host: self.write_host@,
            port: self.port,
            db_name: self.db_name@,
        }
    }
}

impl View for StorageCredentials {
    type V = StorageCredentialsView;

    open spec fn view(&self) -> StorageCredentialsView {
        StorageCredentialsView { user: self.user@, pass: self.pass@ }
    }
}

/// A required string field of a struct read from JSON.
pub open spec fn spec_string_field(doc: JsonView, name: Seq<char>, index: int) -> Option<Seq<char>> {
    match spec_field(doc, name, index) {
        Some(JsonView::String(s)) => Some(s),
        _ => None,
    }
}

/// A required `u16` field of a struct read from JSON: a non-negative
/// integer of at most 65535.
pub open spec fn spec_u16_field(doc: JsonView, name: Seq<char>, index: int) -> Option<u16> {
    match spec_field(doc, name, index) {
        Some(JsonView::Number(JsonNumberView::PosInt(u))) => if u <= 65535 {
            Some(u as u16)
        } else {
            None
        },
        _ => None,
    }
}

fn string_field(doc: &JsonValue, name: &str, index: usize) -> (r: Option<String>)
    ensures
        spec_string_field(doc@, name@, index as int) == (match r {
            Some(s) => Some(s@),
            None => None::<Seq<char>>,
        }),
{
    match field(doc, name, index) {
        Some(JsonValue::String(s)) => Some(s.clone()),
        _ => None,
    }
}

fn u16_field(doc: &JsonValue, name: &str, index: usize) -> (r: Option<u16>)
    ensures
        r == spec_u16_field(doc@, name@, index as int),
{
    match field(doc, name, index) {
        Some(JsonValue::Number(JsonNumber::PosInt(u))) => {
            if *u <= 65535 {
                Some(*u as u16)
            } else {
                None
            }
        },
        _ => None,
    }
}

/// The configuration of a JSON document: an object with the four members
/// (others are ignored) or an array of the four values in the order
/// `read_host`, `write_host`, `port`, `db_name`; all are required.
pub open spec fn spec_storage_config(doc: JsonView) -> Option<StorageConfigView> {
    match (
        spec_string_field(doc, "read_host"@, 0),
        spec_string_field(doc, "write_host"@, 1),
        spec_u16_field(doc, "port"@, 2),
        spec_string_field(doc, "db_name"@, 3),
    ) {
        (Some(r), Some(w), Some(p), Some(d)) => if spec_struct_shape(doc, 4) {
            Some(StorageConfigView { read_host: r, write_host: w, port: p, db_name: d })
        } else {
            None
        },
        _ => None,
    }
}

/// The credentials of a JSON document: an object with `user` and `pass`
/// (others are ignored) or an array of the two; both are required.
pub open spec fn spec_storage_credentials(doc: JsonView) -> Option<StorageCredentialsView> {
    match (spec_string_field(doc, "user"@, 0), spec_string_field(doc, "pass"@, 1)) {
        (Some(u), Some(p)) => if spec_struct_shape(doc, 2) {
            Some(StorageCredentialsView { user: u, pass: p })
        } else {
            None
        },
        _ => None,
    }
}

impl StorageConfig {
    /// Reads a configuration from a JSON document.
    pub fn from_value(doc: &JsonValue) -> (r: Result<StorageConfig, ErrorCode>)
        ensures
            match spec_storage_config(doc@) {
                Some(c) => r matches Ok(x) && x@ == c,
                None => r == Err::<StorageConfig, ErrorCode>(ErrorCode::InvalidStructure),
            },
    {
        let r = string_field(doc, "read_host", 0);
        let w = string_field(doc, "write_host", 1);
        let p = u16_field(doc, "port", 2);
        let d = string_field(doc, "db_name", 3);
        match (r, w, p, d) {
            (Some(r), Some(w), Some(p), Some(d)) => {
                if struct_shape(doc, 4) {
                    Ok(StorageConfig { read_host: r, write_host: w, port: p, db_name: d })
                } else {
                    Err(ErrorCode::InvalidStructure)
                }
            },
            _ => Err(ErrorCode::InvalidStructure),
        }
    }

    /// Reads a configuration from JSON text.
    pub fn from_json(config: &str) -> (r: Result<StorageConfig, ErrorCode>)
        ensures
            match from_text(config@, |d: JsonView| spec_storage_config(d)) {
                Some(c) => r matches Ok(x) && x@ == c,
                None => r == Err::<StorageConfig, ErrorCode>(ErrorCode::InvalidStructure),
            },
    {
        match parse_json(config) {
            Some(doc) => StorageConfig::from_value(&doc),
            None => Err(ErrorCode::InvalidStructure),
        }
    }
}

impl StorageCredentials {
    /// Reads credentials from a JSON document.
    pub fn from_value(doc: &JsonValue) -> (r: Result<StorageCredentials, ErrorCode>)
        ensures
            match spec_storage_credentials(doc@) {
                Some(c) => r matches Ok(x) && x@ == c,
                None => r == Err::<StorageCredentials, ErrorCode>(ErrorCode::InvalidStructure),
            },
    {
        let u = string_field(doc, "user", 0);
        let p = string_field(doc, "pass", 1);
        match (u, p) {
            (Some(u), Some(p)) => {
                if struct_shape(doc, 2) {
                    Ok(StorageCredentials { user: u, pass: p })
                } else {
                    Err(ErrorCode::InvalidStructure)
                }
            },
            _ => Err(ErrorCode::InvalidStructure),
        }
    }

    /// Reads credentials from JSON text.
    pub fn from_json(credentials: &str) -> (r: Result<StorageCredentials, ErrorCode>)
        ensures
            match from_text(credentials@, |d: JsonView| spec_storage_credentials(d)) {
                Some(c) => r matches Ok(x) && x@ == c,
                None => r == Err::<StorageCredentials, ErrorCode>(ErrorCode::InvalidStructure),
            },
    {
        match parse_json(credentials) {
            Some(doc) => StorageCredentials::from_value(&doc),
            None => Err(ErrorCode::InvalidStructure),
        }
    }
}

/// The text of one decimal digit.
pub open spec fn spec_digit(d: nat) -> Seq<char> {
    if d == 0 {
        "0"@
    } else if d == 1 {
        "1"@
    } else if d == 2 {
        "2"@
    } else if d == 3 {
        "3"@
    } else if d == 4 {
        "4"@
    } else if d == 5 {
        "5"@
    } else if d == 6 {
        "6"@
    } else if d == 7 {
        "7"@
    } else if d == 8 {
        "8"@
    } else {
        "9"@
    }
}

/// The decimal text of a number, without leading zeros.
pub open spec fn spec_decimal(n: nat) -> Seq<char>
    decreases n,
{
    if n < 10 {
        spec_digit(n)
    } else {
        spec_decimal(n / 10) + spec_digit(n % 10)
    }
}

fn digit(d: u16) -> (r: &'static str)
    requires
        d < 10,
    ensures
        r@ == spec_digit(d as nat),
{
    if d == 0 {
        "0"
    } else if d == 1 {
        "1"
    } else if d == 2 {
        "2"
    } else if d == 3 {
        "3"
    } else if d == 4 {
        "4"
    } else if d == 5 {
        "5"
    } else if d == 6 {
        "6"
    } else if d == 7 {
        "7"
    } else if d == 8 {
        "8"
    } else {
        "9"
    }
}

/// The decimal text of a port number.
pub fn decimal(n: u16) -> (r: String)
    ensures
        r@ == spec_decimal(n as nat),
    decreases n,
{
    if n < 10 {
        String::from_str(digit(n))
    } else {
        let mut s = decimal(n / 10);
        s.append(digit(n % 10));
        s
    }
}

/// The host a connection goes to: the read host for read-only
/// connections, else the write host.
pub open spec fn spec_host(read_only: bool, config: StorageConfigView) -> Seq<char> {
    if read_only {
        config.read_host
    } else {
        config.write_host
    }
}

/// The host a connection goes to (see `spec_host`).
pub fn host(read_only: bool, config: &StorageConfig) -> (r: &str)
    ensures
        r@ == spec_host(read_only, config@),
{
    if read_only {
        config.read_host.as_str()
    } else {
        config.write_host.as_str()
    }
}

/// The key of a connection pool: `user:pass@host:port/db_name`, with the
/// host of `spec_host`.
pub open spec fn spec_connection_string(
    read_only: bool,
    config: StorageConfigView,
    credentials: StorageCredentialsView,
) -> Seq<char> {
    credentials.user + ":"@ + credentials.pass + "@"@ + spec_host(read_only, config) + ":"@ + spec_decimal(config.port as nat) + "/"@ + config.db_name
}

/// The key under which the connection pool for these settings is shared.
pub fn connection_string(
    read_only: bool,
    config: &StorageConfig,
    credentials: &StorageCredentials,
) -> (r: String)
    ensures
        r@ == spec_connection_string(read_only, config@, credentials@),
{
    let mut s = credentials.user.clone();
    s.append(":");
    s.append(credentials.pass.as_str());
    s.append("@");
    s.append(host(read_only, config));
    s.append(":");
    s.append(decimal(config.port).as_str());
    s.append("/");
    s.append(config.db_name.as_str());
    s
}

/// Connection pools shared between the wallets that use the same
/// connection settings, by the key `connection_string` makes.
pub struct MultiPool<P> {
    entries: Vec<(String, Arc<P>)>,
}

impl<P> MultiPool<P> {
    /// Whether a pool is kept under `key`.
    pub closed spec fn has_pool(&self, key: Seq<char>) -> bool {
        exists|i: int| 0 <= i < self.entries@.len() && (#[trigger] self.entries@[i]).0@ == key
    }

    /// The pool kept under `key`.
    pub closed spec fn pool_for(&self, key: Seq<char>) -> P {
        let i = choose|i: int| 0 <= i < self.entries@.len() && (#[trigger] self.entries@[i]).0@ == key;
        *self.entries@[i].1
    }

    /// No key is kept twice.
    pub closed spec fn wf(&self) -> bool {
        forall|i: int, j: int|
            0 <= i < j < self.entries@.len() ==> (#[trigger] self.entries@[i]).0@ != (
            #[trigger] self.entries@[j]).0@
    }

    /// The entry at `j` is the one kept under its key.
    proof fn lemma_pool_at(&self, j: int)
        requires
            self.wf(),
            0 <= j < self.entries@.len(),
        ensures
            self.has_pool(self.entries@[j].0@),
            self.pool_for(self.entries@[j].0@) == *self.entries@[j].1,
    {
        let k = self.entries@[j].0@;
        assert(self.entries@[j].0@ == k);
        let c = choose|i: int| 0 <= i < self.entries@.len() && (#[trigger] self.entries@[i]).0@ == k;
        if c < j {
            assert(self.entries@[c].0@ != self.entries@[j].0@);
        } else if j < c {
            assert(self.entries@[j].0@ != self.entries@[c].0@);
        }
    }

    /// No pool.
    pub fn new() -> (r: Self)
        ensures
            r.wf(),
            forall|k: Seq<char>| !r.has_pool(k),
    {
        MultiPool { entries: Vec::new() }
    }

    fn find(&self, key: &String) -> (r: Option<usize>)
        requires
            self.wf(),
        ensures
            match r {
                Some(i) => i < self.entries@.len() && self.entries@[i as int].0@ == key@,
                None => !self.has_pool(key@),
            },
    {
        let mut i: usize = 0;
        while i < self.entries.len()
            invariant
                0 <= i <= self.entries@.len(),
                forall|j: int| 0 <= j < i ==> (#[trigger] self.entries@[j]).0@ != key@,
            decreases self.entries@.len() - i,
        {
            if self.entries[i].0.eq(key) {
                return Some(i);
            }
            i = i + 1;
        }
        None
    }

    /// The pool for these settings, if one is kept.
    pub fn get(&self, read_only: bool, config: &StorageConfig, credentials: &StorageCredentials) -> (r:
        Option<Arc<P>>)
        requires
            self.wf(),
        ensures
            match r {
                Some(a) => self.has_pool(spec_connection_string(read_only, config@, credentials@))
                    && *a == self.pool_for(spec_connection_string(read_only, config@, credentials@)),
                None => !self.has_pool(spec_connection_string(read_only, config@, credentials@)),
            },
    {
        let key = connection_string(read_only, config, credentials);
        match self.find(&key) {
            Some(i) => {
                proof {
                    self.lemma_pool_at(i as int);
                }
                Some(arc_clone(&self.entries[i].1))
            },
            None => None,
        }
    }

    /// Keeps `pool` for these settings, in place of any kept before, and
    /// returns it shared.
    pub fn insert(
        &mut self,
        read_only: bool,
        config: &StorageConfig,
        credentials: &StorageCredentials,
        pool: P,
    ) -> (r: Arc<P>)
        requires
            old(self).wf(),
        ensures
            final(self).wf(),
            *r == pool,
            final(self).has_pool(spec_connection_string(read_only, config@, credentials@)),
            final(self).pool_for(spec_connection_string(read_only, config@, credentials@)) == pool,
            forall|k: Seq<char>|
                k != spec_connection_string(read_only, config@, credentials@) ==> {
                    &&& (#[trigger] final(self).has_pool(k)) == old(self).has_pool(k)
                    &&& old(self).has_pool(k) ==> final(self).pool_for(k) == old(self).pool_for(k)
                },
    {
        let key = connection_string(read_only, config, credentials);
        let shared = Arc::new(pool);
        let ghost before = *self;
        let ghost k0 = key@;
        let entry = (key, arc_clone(&shared));
        match self.find(&entry.0) {
            Some(i) => {
                self.entries[i] = entry;
                proof {
                    assert(self.wf()) by {
                        assert forall|a: int, b: int|
                            0 <= a < b < self.entries@.len() implies (#[trigger] self.entries@[a]).0@
                            != (#[trigger] self.entries@[b]).0@ by {
                            if a != i && b != i {
                                assert(before.entries@[a] == self.entries@[a]);
                                assert(before.entries@[b] == self.entries@[b]);
                            } else if a == i {
                                assert(before.entries@[a].0@ == k0);
                                assert(before.entries@[b] == self.entries@[b]);
                            } else {
                                assert(before.entries@[b].0@ == k0);
                                assert(before.entries@[a] == self.entries@[a]);
                            }
                        }
                    }
                    self.lemma_pool_at(i as int);
                    assert forall|k: Seq<char>|
                        #![trigger self.has_pool(k)]
                        #![trigger self.pool_for(k)]
                        k != k0 implies {
                        &&& self.has_pool(k) == before.has_pool(k)
                        &&& before.has_pool(k) ==> self.pool_for(k) == before.pool_for(k)
                    } by {
                        if before.has_pool(k) {
                            let j = choose|j: int|
                                0 <= j < before.entries@.len() && (#[trigger] before.entries@[j]).0@
                                    == k;
                            before.lemma_pool_at(j);
                            assert(self.entries@[j] == before.entries@[j]);
                            self.lemma_pool_at(j);
                        }
                        if self.has_pool(k) {
                            let j = choose|j: int|
                                0 <= j < self.entries@.len() && (#[trigger] self.entries@[j]).0@ == k;
                            assert(self.entries@[j] == before.entries@[j]);
                            before.lemma_pool_at(j);
                        }
                    }
                }
            },
            None => {
                self.entries.push(entry);
                proof {
                    let n = before.entries@.len() as int;
                    assert(self.wf()) by {
                        assert forall|a: int, b: int|
                            0 <= a < b < self.entries@.len() implies (#[trigger] self.entries@[a]).0@
                            != (#[trigger] self.entries@[b]).0@ by {
                            assert(before.entries@[a] == self.entries@[a]);
                            if b < n {
                                assert(before.entries@[b] == self.entries@[b]);
                            } else {
                                if before.entries@[a].0@ == k0 {
                                    before.lemma_pool_at(a);
                                }
                            }
                        }
                    }
                    self.lemma_pool_at(n);
                    assert forall|k: Seq<char>|
                        #![trigger self.has_pool(k)]
                        #![trigger self.pool_for(k)]
                        k != k0 implies {
                        &&& self.has_pool(k) == before.has_pool(k)
                        &&& before.has_pool(k) ==> self.pool_for(k) == before.pool_for(k)
                    } by {
                        if before.has_pool(k) {
                            let j = choose|j: int|
                                0 <= j < before.entries@.len() && (#[trigger] before.entries@[j]).0@
                                    == k;
                            before.lemma_pool_at(j);
                            assert(self.entries@[j] == before.entries@[j]);
                            self.lemma_pool_at(j);
                        }
                        if self.has_pool(k) {
                            let j = choose|j: int|
                                0 <= j < self.entries@.len() && (#[trigger] self.entries@[j]).0@ == k;
                            assert(self.entries@[j] == before.entries@[j]);
                            before.lemma_pool_at(j);
                        }
                    }
                }
            },
        }
        shared
    }
}

} // verus!
