//! Settings for the service and its datastore: a layered loader that
//! merges a base source, an environment overlay and process overrides,
//! and the derivation of connection strings from the database settings.

use vstd::prelude::*;

use crate::text::{
    decimal_seq, decimal_value, decimal_value_from, is_ascii_char, is_ascii_seq,
    is_digit, lemma_decimal_value_from_monotone, percent_encode, percent_encoded, push_decimal,
};

verus! {

/// Connection parameters of the datastore.
#[derive(Debug)]
pub struct DatabaseSettings {
    pub username: String,
    pub password: String,
    pub host: String,
    pub port: u16,
    pub database_name: String,
}

/// Network parameters of the service itself.
#[derive(Debug)]
pub struct ApplicationSettings {
    pub host: String,
    pub port: u16,
}

/// The whole configuration of the service.
#[derive(Debug)]
pub struct Configuration {
    pub application: ApplicationSettings,
    pub database: DatabaseSettings,
}

/// True exactly when `c` may appear in a database identifier:
/// lowercase letters, digits, hyphen and underscore.
pub open spec fn is_identifier_char(c: char) -> bool {
    ('a' <= c && c <= 'z') || is_digit(c) || c == '-' || c == '_'
}

/// True exactly when `s` is a valid database identifier: non-empty,
/// at most 63 characters, all of them identifier characters.
pub open spec fn is_valid_database_name(s: Seq<char>) -> bool {
    0 < s.len() <= 63 && (forall|i: int| 0 <= i < s.len() ==> is_identifier_char(#[trigger] s[i]))
}

/// True exactly when `c` may appear in a host name: letters, digits,
/// dot and hyphen.
pub open spec fn is_host_char(c: char) -> bool {
    ('a' <= c && c <= 'z') || ('A' <= c && c <= 'Z') || is_digit(c) || c == '.' || c == '-'
}

/// True exactly when `s` is a usable host name: non-empty host
/// characters only, so that it can stand verbatim in a connection
/// string and in a listen address.
pub open spec fn is_valid_host(s: Seq<char>) -> bool {
    0 < s.len() && (forall|i: int| 0 <= i < s.len() ==> is_host_char(#[trigger] s[i]))
}

impl DatabaseSettings {
    /// Well-formedness: credentials are ASCII (so they can be
    /// percent-encoded), the host is a usable host name, and the
    /// database name is a valid identifier.
    pub open spec fn wf(self) -> bool {
        is_ascii_seq(self.username@) && is_ascii_seq(self.password@) && is_valid_host(self.host@)
            && is_valid_database_name(self.database_name@)
    }
}

impl ApplicationSettings {
    /// Well-formedness: the host is a usable host name.
    pub open spec fn wf(self) -> bool {
        is_valid_host(self.host@)
    }
}

impl Configuration {
    /// Well-formedness of both parts.
    pub open spec fn wf(self) -> bool {
        self.application.wf() && self.database.wf()
    }
}

/// The connection string that omits the database name: it targets the
/// datastore server itself and is used to create databases that do not
/// exist yet. Credentials are percent-encoded.
pub open spec fn spec_connection_string_without_db(s: DatabaseSettings) -> Seq<char> {
    "postgres://"@ + percent_encoded(s.username@) + ":"@ + percent_encoded(s.password@) + "@"@
        + s.host@ + ":"@ + decimal_seq(s.port as int)
}

/// The connection string that names the database: the plain extension
/// of the one without it, so the two can never drift apart.
pub open spec fn spec_connection_string(s: DatabaseSettings) -> Seq<char> {
    spec_connection_string_without_db(s) + "/"@ + s.database_name@
}

impl DatabaseSettings {
    /// Renders the connection string that omits the database name.
    pub fn connection_string_without_db(&self) -> (r: String)
        requires
            is_ascii_seq(self.username@),
            is_ascii_seq(self.password@),
        ensures
            r@ == spec_connection_string_without_db(*self),
    {
        let mut s = String::from_str("postgres://");
        let user = percent_encode(self.username.as_str());
        let pass = percent_encode(self.password.as_str());
        s.append(user.as_str());
        s.append(":");
        s.append(pass.as_str());
        s.append("@");
        s.append(self.host.as_str());
        s.append(":");
        push_decimal(&mut s, self.port);
        proof {
            assert(s@ =~= spec_connection_string_without_db(*self));
        }
        s
    }

    /// Renders the full connection string by extending the one without
    /// a database name, the single source of truth for both variants.
    pub fn connection_string(&self) -> (r: String)
        requires
            is_ascii_seq(self.username@),
            is_ascii_seq(self.password@),
        ensures
            r@ == spec_connection_string(*self),
    {
        let mut s = self.connection_string_without_db();
        s.append("/");
        s.append(self.database_name.as_str());
        proof {
            assert(s@ =~= spec_connection_string(*self));
        }
        s
    }
}

/// The listen address of the service, `host:port`.
pub open spec fn spec_address(a: ApplicationSettings) -> Seq<char> {
    a.host@ + ":"@ + decimal_seq(a.port as int)
}

impl ApplicationSettings {
    /// Renders the address the service should bind, `host:port`.
    pub fn address(&self) -> (r: String)
        ensures
            r@ == spec_address(*self),
    {
        let mut s = String::new();
        s.append(self.host.as_str());
        s.append(":");
        push_decimal(&mut s, self.port);
        proof {
            assert(s@ =~= spec_address(*self));
        }
        s
    }
}

/// Decides whether every character of `s` is ASCII.
pub fn check_ascii(s: &str) -> (r: bool)
    ensures
        r == is_ascii_seq(s@),
{
    let n = s.unicode_len();
    let mut i: usize = 0;
    while i < n
        invariant
            0 <= i <= n,
            n == s@.len(),
            forall|j: int| 0 <= j < i ==> is_ascii_char(#[trigger] s@[j]),
        decreases n - i,
    {
        let c = s.get_char(i);
        if (c as u32) >= 128 {
            return false;
        }
        i = i + 1;
    }
    true
}

/// Decides whether `s` is a valid database identifier.
pub fn check_database_name(s: &str) -> (r: bool)
    ensures
        r == is_valid_database_name(s@),
{
    let n = s.unicode_len();
    if n == 0 || n > 63 {
        return false;
    }
    let mut i: usize = 0;
    while i < n
        invariant
            0 < n <= 63,
            0 <= i <= n,
            n == s@.len(),
            forall|j: int| 0 <= j < i ==> is_identifier_char(#[trigger] s@[j]),
        decreases n - i,
    {
        let c = s.get_char(i);
        if !(('a' <= c && c <= 'z') || ('0' <= c && c <= '9') || c == '-' || c == '_') {
            return false;
        }
        i = i + 1;
    }
    true
}

/// Decides whether `s` is a usable host name.
pub fn check_host(s: &str) -> (r: bool)
    ensures
        r == is_valid_host(s@),
{
    let n = s.unicode_len();
    if n == 0 {
        return false;
    }
    let mut i: usize = 0;
    while i < n
        invariant
            0 < n,
            0 <= i <= n,
            n == s@.len(),
            forall|j: int| 0 <= j < i ==> is_host_char(#[trigger] s@[j]),
        decreases n - i,
    {
        let c = s.get_char(i);
        if !(('a' <= c && c <= 'z') || ('A' <= c && c <= 'Z') || ('0' <= c && c <= '9') || c == '.'
            || c == '-') {
            return false;
        }
        i = i + 1;
    }
    true
}

/// True exactly when `s` is the decimal text of a port: non-empty,
/// digits only, value at most 65535.
pub open spec fn is_port_text(s: Seq<char>) -> bool {
    s.len() > 0 && (forall|i: int| 0 <= i < s.len() ==> is_digit(#[trigger] s[i])) && decimal_value(
        s,
    ) <= 65535
}

/// Parses the decimal text of a port number: `None` exactly when the
/// text is empty, has a non-digit, or exceeds 65535.
pub fn parse_port(s: &str) -> (r: Option<u16>)
    ensures
        r.is_some() == is_port_text(s@),
        r matches Some(p) ==> p as int == decimal_value(s@),
{
    let n = s.unicode_len();
    if n == 0 {
        return None;
    }
    let mut acc: u32 = 0;
    let mut i: usize = 0;
    while i < n
        invariant
            0 < n,
            0 <= i <= n,
            n == s@.len(),
            acc <= 65535,
            forall|j: int| 0 <= j < i ==> is_digit(#[trigger] s@[j]),
            decimal_value(s@) == decimal_value_from(s@, i as int, acc as int),
        decreases n - i,
    {
        let c = s.get_char(i);
        if !('0' <= c && c <= '9') {
            return None;
        }
        let d: u32 = (c as u32) - ('0' as u32);
        let next: u32 = acc * 10 + d;
        if next > 65535 {
            proof {
                if forall|j: int| 0 <= j < s@.len() ==> is_digit(#[trigger] s@[j]) {
                    lemma_decimal_value_from_monotone(s@, i as int + 1, next as int);
                }
            }
            return None;
        }
        acc = next;
        i = i + 1;
    }
    Some(acc as u16)
}

/// One layer of configuration: any field may be absent. Port values
/// stay textual until the merge coerces them.
pub struct PartialSettings {
    pub application_host: Option<String>,
    pub application_port: Option<String>,
    pub database_username: Option<String>,
    pub database_password: Option<String>,
    pub database_host: Option<String>,
    pub database_port: Option<String>,
    pub database_name: Option<String>,
}

/// A configuration key, named in loader errors.
#[derive(Clone, Copy, Debug, PartialEq, Eq, Structural)]
pub enum ConfigField {
    ApplicationHost,
    ApplicationPort,
    DatabaseUsername,
    DatabasePassword,
    DatabaseHost,
    DatabasePort,
    DatabaseName,
}

/// Why loading failed: a key absent from every layer, a port that is
/// not a number in range, or a value the datastore cannot take.
#[derive(Clone, Copy, Debug, PartialEq, Eq, Structural)]
pub enum ConfigError {
    Missing(ConfigField),
    InvalidPort(ConfigField),
    InvalidValue(ConfigField),
}

/// The text of one merged field: the override layer wins, then the
/// overlay, then the base.
pub open spec fn spec_pick(
    env: Option<Seq<char>>,
    overlay: Option<Seq<char>>,
    base: Option<Seq<char>>,
) -> Option<Seq<char>> {
    if env is Some {
        env
    } else if overlay is Some {
        overlay
    } else {
        base
    }
}

/// The view of an optional string.
pub open spec fn view_opt(o: Option<String>) -> Option<Seq<char>> {
    match o {
        Option::Some(s) => Option::Some(s@),
        Option::None => Option::None,
    }
}

/// The merged text of every field, before coercion and validation.
pub ghost struct MergedSettings {
    pub application_host: Option<Seq<char>>,
    pub application_port: Option<Seq<char>>,
    pub database_username: Option<Seq<char>>,
    pub database_password: Option<Seq<char>>,
    pub database_host: Option<Seq<char>>,
    pub database_port: Option<Seq<char>>,
    pub database_name: Option<Seq<char>>,
}

/// Merges the three layers field by field, overrides first.
pub open spec fn spec_merged(
    base: PartialSettings,
    overlay: PartialSettings,
    env: PartialSettings,
) -> MergedSettings {
    MergedSettings {
        application_host: spec_pick(
            view_opt(env.application_host),
            view_opt(overlay.application_host),
            view_opt(base.application_host),
        ),
        application_port: spec_pick(
            view_opt(env.application_port),
            view_opt(overlay.application_port),
            view_opt(base.application_port),
        ),
        database_username: spec_pick(
            view_opt(env.database_username),
            view_opt(overlay.database_username),
            view_opt(base.database_username),
        ),
        database_password: spec_pick(
            view_opt(env.database_password),
            view_opt(overlay.database_password),
            view_opt(base.database_password),
        ),
        database_host: spec_pick(
            view_opt(env.database_host),
            view_opt(overlay.database_host),
            view_opt(base.database_host),
        ),
        database_port: spec_pick(
            view_opt(env.database_port),
            view_opt(overlay.database_port),
            view_opt(base.database_port),
        ),
        database_name: spec_pick(
            view_opt(env.database_name),
            view_opt(overlay.database_name),
            view_opt(base.database_name),
        ),
    }
}

/// The error that loading the merged fields must report, `None` when
/// they load cleanly: first the absent key, in a fixed field order,
/// then an unparseable port, then a value the datastore cannot take.
pub open spec fn spec_load_error(m: MergedSettings) -> Option<ConfigError> {
    if m.application_host is None {
        Option::Some(ConfigError::Missing(ConfigField::ApplicationHost))
    } else if m.application_port is None {
        Option::Some(ConfigError::Missing(ConfigField::ApplicationPort))
    } else if m.database_username is None {
        Option::Some(ConfigError::Missing(ConfigField::DatabaseUsername))
    } else if m.database_password is None {
        Option::Some(ConfigError::Missing(ConfigField::DatabasePassword))
    } else if m.database_host is None {
        Option::Some(ConfigError::Missing(ConfigField::DatabaseHost))
    } else if m.database_port is None {
        Option::Some(ConfigError::Missing(ConfigField::DatabasePort))
    } else if m.database_name is None {
        Option::Some(ConfigError::Missing(ConfigField::DatabaseName))
    } else if !is_port_text(m.application_port->Some_0) {
        Option::Some(ConfigError::InvalidPort(ConfigField::ApplicationPort))
    } else if !is_port_text(m.database_port->Some_0) {
        Option::Some(ConfigError::InvalidPort(ConfigField::DatabasePort))
    } else if !is_valid_host(m.application_host->Some_0) {
        Option::Some(ConfigError::InvalidValue(ConfigField::ApplicationHost))
    } else if !is_ascii_seq(m.database_username->Some_0) {
        Option::Some(ConfigError::InvalidValue(ConfigField::DatabaseUsername))
    } else if !is_ascii_seq(m.database_password->Some_0) {
        Option::Some(ConfigError::InvalidValue(ConfigField::DatabasePassword))
    } else if !is_valid_host(m.database_host->Some_0) {
        Option::Some(ConfigError::InvalidValue(ConfigField::DatabaseHost))
    } else if !is_valid_database_name(m.database_name->Some_0) {
        Option::Some(ConfigError::InvalidValue(ConfigField::DatabaseName))
    } else {
        Option::None
    }
}

/// Picks the text of one field, overrides first.
fn pick(env: &Option<String>, overlay: &Option<String>, base: &Option<String>) -> (r: Option<
    String,
>)
    ensures
        view_opt(r) == spec_pick(view_opt(*env), view_opt(*overlay), view_opt(*base)),
{
    match env {
        Option::Some(s) => Option::Some(s.clone()),
        Option::None => match overlay {
            Option::Some(s) => Option::Some(s.clone()),
            Option::None => match base {
                Option::Some(s) => Option::Some(s.clone()),
                Option::None => Option::None,
            },
        },
    }
}

/// Loads the configuration from three layers: a base, an
/// environment-specific overlay, and process overrides, the overrides
/// taking the highest precedence. Fails exactly as `spec_load_error`
/// says; a successful load is well-formed and carries the merged
/// values, ports coerced to numbers.
pub fn load(base: &PartialSettings, overlay: &PartialSettings, env: &PartialSettings) -> (r: Result<
    Configuration,
    ConfigError,
>)
    ensures
        ({
            let m = spec_merged(*base, *overlay, *env);
            &&& r.is_ok() == (spec_load_error(m) is None)
            &&& (r matches Err(e) ==> Option::Some(e) == spec_load_error(m))
            &&& (r matches Ok(c) ==> {
                &&& c.application.host@ == m.application_host->Some_0
                &&& c.application.port as int == decimal_value(m.application_port->Some_0)
                &&& c.database.username@ == m.database_username->Some_0
                &&& c.database.password@ == m.database_password->Some_0
                &&& c.database.host@ == m.database_host->Some_0
                &&& c.database.port as int == decimal_value(m.database_port->Some_0)
                &&& c.database.database_name@ == m.database_name->Some_0
                &&& c.wf()
            })
        }),
{
    let application_host = match pick(&env.application_host, &overlay.application_host, &base.application_host) {
        Option::Some(s) => s,
        Option::None => {
            return Result::Err(ConfigError::Missing(ConfigField::ApplicationHost));
        },
    };
    let application_port_text = match pick(&env.application_port, &overlay.application_port, &base.application_port) {
        Option::Some(s) => s,
        Option::None => {
            return Result::Err(ConfigError::Missing(ConfigField::ApplicationPort));
        },
    };
    let database_username = match pick(&env.database_username, &overlay.database_username, &base.database_username) {
        Option::Some(s) => s,
        Option::None => {
            return Result::Err(ConfigError::Missing(ConfigField::DatabaseUsername));
        },
    };
    let database_password = match pick(&env.database_password, &overlay.database_password, &base.database_password) {
        Option::Some(s) => s,
        Option::None => {
            return Result::Err(ConfigError::Missing(ConfigField::DatabasePassword));
        },
    };
    let database_host = match pick(&env.database_host, &overlay.database_host, &base.database_host) {
        Option::Some(s) => s,
        Option::None => {
            return Result::Err(ConfigError::Missing(ConfigField::DatabaseHost));
        },
    };
    let database_port_text = match pick(&env.database_port, &overlay.database_port, &base.database_port) {
        Option::Some(s) => s,
        Option::None => {
            return Result::Err(ConfigError::Missing(ConfigField::DatabasePort));
        },
    };
    let database_name = match pick(&env.database_name, &overlay.database_name, &base.database_name) {
        Option::Some(s) => s,
        Option::None => {
            return Result::Err(ConfigError::Missing(ConfigField::DatabaseName));
        },
    };
    let application_port = match parse_port(application_port_text.as_str()) {
        Option::Some(p) => p,
        Option::None => {
            return Result::Err(ConfigError::InvalidPort(ConfigField::ApplicationPort));
        },
    };
    let database_port = match parse_port(database_port_text.as_str()) {
        Option::Some(p) => p,
        Option::None => {
            return Result::Err(ConfigError::InvalidPort(ConfigField::DatabasePort));
        },
    };
    if !check_host(application_host.as_str()) {
        return Result::Err(ConfigError::InvalidValue(ConfigField::ApplicationHost));
    }
    if !check_ascii(database_username.as_str()) {
        return Result::Err(ConfigError::InvalidValue(ConfigField::DatabaseUsername));
    }
    if !check_ascii(database_password.as_str()) {
        return Result::Err(ConfigError::InvalidValue(ConfigField::DatabasePassword));
    }
    if !check_host(database_host.as_str()) {
        return Result::Err(ConfigError::InvalidValue(ConfigField::DatabaseHost));
    }
    if !check_database_name(database_name.as_str()) {
        return Result::Err(ConfigError::InvalidValue(ConfigField::DatabaseName));
    }
    Result::Ok(
        Configuration {
            application: ApplicationSettings { host: application_host, port: application_port },
            database: DatabaseSettings {
                username: database_username,
                password: database_password,
                host: database_host,
                port: database_port,
                database_name,
            },
        },
    )
}

} // verus!
