//! Layered launcher configuration.
//!
//! Layers, highest priority first: command-line arguments, environment
//! variables, the local config file next to the binary, the global config
//! file in the home directory. `merge` fills gaps only, so an earlier layer
//! never loses a key it already set to a later layer's value.
use crate::strmap::{has_key, lookup, StrMap};
use crate::text::{chars_of, owned, parse_u64, parse_u64_spec, str_eq};
use vstd::prelude::*;

verus! {

/// Database connection settings.
#[derive(Debug, Clone)]
pub struct DatabaseConfig {
    pub url: Option<String>,
    pub host: Option<String>,
    pub port: Option<u16>,
    pub name: Option<String>,
    pub user: Option<String>,
    pub password: Option<String>,
}

impl Default for DatabaseConfig {
    fn default() -> (r: Self)
        ensures
            r.url is None,
            r.host is None,
            r.port is None,
            r.name is None,
            r.user is None,
            r.password is None,
    {
        DatabaseConfig { url: None, host: None, port: None, name: None, user: None, password: None }
    }
}

/// The launcher configuration.
#[derive(Debug, Clone)]
pub struct AppConfig {
    pub database: Option<DatabaseConfig>,
    pub secrets: Option<StrMap<String>>,
    /// Other top-level string settings.
    pub extra: StrMap<String>,
}

impl Default for AppConfig {
    fn default() -> (r: Self)
        ensures
            r.database is None,
            r.secrets is None,
            r.extra@.len() == 0,
    {
        AppConfig { database: None, secrets: None, extra: StrMap::new() }
    }
}

/// The values of the environment variables that override the configuration.
#[derive(Debug, Clone)]
pub struct EnvOverrides {
    /// `DATABASE_URL`.
    pub database_url: Option<String>,
    /// `DB_HOST`.
    pub db_host: Option<String>,
    /// `DB_PORT`.
    pub db_port: Option<String>,
    /// `DB_NAME`.
    pub db_name: Option<String>,
    /// `DB_USER`.
    pub db_user: Option<String>,
    /// `DB_PASSWORD`.
    pub db_password: Option<String>,
}

/// `a` when it is set, else `b`.
pub open spec fn fill<T>(a: Option<T>, b: Option<T>) -> Option<T> {
    if a is Some {
        a
    } else {
        b
    }
}

/// `cur` with its unset fields taken from `o`.
pub open spec fn fill_database(cur: DatabaseConfig, o: DatabaseConfig) -> DatabaseConfig {
    DatabaseConfig {
        url: fill(cur.url, o.url),
        host: fill(cur.host, o.host),
        port: fill(cur.port, o.port),
        name: fill(cur.name, o.name),
        user: fill(cur.user, o.user),
        password: fill(cur.password, o.password),
    }
}

/// The database settings after a merge.
pub open spec fn merged_database(a: Option<DatabaseConfig>, b: Option<DatabaseConfig>) -> Option<
    DatabaseConfig,
> {
    match (a, b) {
        (Some(cur), Some(o)) => Some(fill_database(cur, o)),
        (None, Some(o)) => Some(o),
        (_, None) => a,
    }
}

/// Merging two sets of database settings fills gaps: every field (URL,
/// host, port, name, user, password) keeps the first side's value when it is
/// set and takes the second side's otherwise.
pub proof fn lemma_merged_database_fills_gaps(cur: DatabaseConfig, o: DatabaseConfig)
    ensures
        merged_database(Some(cur), Some(o)) == Some(
            (DatabaseConfig {
                url: if cur.url is Some { cur.url } else { o.url },
                host: if cur.host is Some { cur.host } else { o.host },
                port: if cur.port is Some { cur.port } else { o.port },
                name: if cur.name is Some { cur.name } else { o.name },
                user: if cur.user is Some { cur.user } else { o.user },
                password: if cur.password is Some { cur.password } else { o.password },
            }),
        ),
{
}

/// With database settings on one side only, those are the merge's result;
/// with none on either side, there are none.
pub proof fn lemma_merged_database_one_side(a: Option<DatabaseConfig>, b: Option<DatabaseConfig>)
    ensures
        merged_database(a, b) is None <==> (a is None && b is None),
        a is None ==> merged_database(a, b) == b,
        b is None ==> merged_database(a, b) == a,
{
}

/// What a merge keeps under `k`: the value of `a` if it has one, else that of `b`.
pub open spec fn merged_value(a: Seq<(String, String)>, b: Seq<(String, String)>, k: Seq<char>) -> Option<String> {
    if has_key(a, k) {
        lookup(a, k)
    } else {
        lookup(b, k)
    }
}

/// The value of `DB_PORT` as a port, if it is one.
pub open spec fn port_value(s: Seq<char>) -> Option<u16> {
    match parse_u64_spec(s) {
        Some(v) => if v <= 65535 {
            Some(v as u16)
        } else {
            None
        },
        None => None,
    }
}

/// The database settings after the environment overrides.
pub open spec fn overridden_database(db: Option<DatabaseConfig>, env: EnvOverrides) -> Option<DatabaseConfig> {
    let d1 = match env.database_url {
        Some(u) => match db {
            Some(d) => Some(DatabaseConfig { url: Some(u), ..d }),
            None => Some(
                DatabaseConfig {
                    url: Some(u),
                    host: None,
                    port: None,
                    name: None,
                    user: None,
                    password: None,
                },
            ),
        },
        None => db,
    };
    match d1 {
        Some(d) => Some(
            DatabaseConfig {
                url: d.url,
                host: fill(env.db_host, d.host),
                port: match env.db_port {
                    Some(p) => fill(port_value(p@), d.port),
                    None => d.port,
                },
                name: fill(env.db_name, d.name),
                user: fill(env.db_user, d.user),
                password: fill(env.db_password, d.password),
            },
        ),
        None => None,
    }
}

/// Why a config file is unsafe to trust, given its file name and its Unix
/// permission bits (when they could be read).
pub open spec fn perilous_reason(file_name: Option<Seq<char>>, mode: Option<u32>) -> Option<Seq<char>> {
    if file_name == Some("config.toml"@) {
        Some("generic `config.toml` name may pick up unrelated files; prefer `daedalus.toml`"@)
    } else if mode is Some && mode->0 & 0o022 != 0 {
        Some(
            "file is group/other-writable — any co-resident user could modify the secrets it injects"@,
        )
    } else {
        None
    }
}

/// Fills the unset fields of `cur` from `o`.
fn fill_field<T>(cur: &mut Option<T>, o: Option<T>)
    ensures
        *final(cur) == fill(*old(cur), o),
{
    if cur.is_none() {
        *cur = o;
    }
}

/// The secrets of a configuration layer; none where the layer or its
/// secrets table is missing.
pub open spec fn layer_secrets(c: Option<AppConfig>) -> Seq<(String, String)> {
    match c {
        Some(a) => match a.secrets {
            Some(m) => m@,
            None => Seq::empty(),
        },
        None => Seq::empty(),
    }
}

/// Whether a configuration layer has a secrets table.
pub open spec fn layer_has_secrets(c: Option<AppConfig>) -> bool {
    c matches Some(a) && a.secrets is Some
}

impl AppConfig {
    /// Fills the gaps of `self` from `other`: settings `self` already has win.
    pub fn merge(&mut self, other: Self)
        ensures
            final(self).database == merged_database(old(self).database, other.database),
            other.secrets is None ==> final(self).secrets == old(self).secrets,
            other.secrets is Some ==> final(self).secrets is Some,
            other.secrets is Some ==> forall|k: Seq<char>|
                #[trigger] lookup(final(self).secrets->0@, k) == merged_value(
                    match old(self).secrets {
                        Some(m) => m@,
                        None => Seq::empty(),
                    },
                    other.secrets->0@,
                    k,
                ),
            forall|k: Seq<char>|
                #[trigger] lookup(final(self).extra@, k) == merged_value(
                    old(self).extra@,
                    other.extra@,
                    k,
                ),
    {
        let AppConfig { database, secrets, extra } = other;
        match database {
            Some(o) => {
                match &mut self.database {
                    Some(cur) => {
                        fill_field(&mut cur.url, o.url);
                        fill_field(&mut cur.host, o.host);
                        fill_field(&mut cur.port, o.port);
                        fill_field(&mut cur.name, o.name);
                        fill_field(&mut cur.user, o.user);
                        fill_field(&mut cur.password, o.password);
                    },
                    None => {
                        self.database = Some(o);
                    },
                }
            },
            None => {},
        }
        if let Some(o) = secrets {
            let mut map = match self.secrets.take() {
                Some(m) => m,
                None => StrMap::new(),
            };
            map.fill_from(o);
            self.secrets = Some(map);
        }
        self.extra.fill_from(extra);
    }

    /// Applies the environment overrides: `DATABASE_URL` sets the database URL
    /// (creating the database settings), and `DB_HOST`, `DB_PORT` (when it
    /// is a valid port), `DB_NAME`, `DB_USER`, `DB_PASSWORD` set their field
    /// of existing database settings.
    pub fn apply_env_overrides(&mut self, env: &EnvOverrides)
        ensures
            final(self).database == overridden_database(old(self).database, *env),
            final(self).secrets == old(self).secrets,
            final(self).extra == old(self).extra,
    {
        if let Some(url) = &env.database_url {
            match &mut self.database {
                Some(db) => {
                    db.url = Some(url.clone());
                },
                None => {
                    self.database = Some(
                        DatabaseConfig {
                            url: Some(url.clone()),
                            host: None,
                            port: None,
                            name: None,
                            user: None,
                            password: None,
                        },
                    );
                },
            }
        }
        if let Some(db) = &mut self.database {
            if let Some(v) = &env.db_host {
                db.host = Some(v.clone());
            }
            if let Some(v) = &env.db_port {
                let c = chars_of(v.as_str());
                match parse_u64(c.as_slice()) {
                    Some(p) => {
                        if p <= 65535 {
                            db.port = Some(p as u16);
                        }
                    },
                    None => {},
                }
            }
            if let Some(v) = &env.db_name {
                db.name = Some(v.clone());
            }
            if let Some(v) = &env.db_user {
                db.user = Some(v.clone());
            }
            if let Some(v) = &env.db_password {
                db.password = Some(v.clone());
            }
        }
    }

    /// The configuration of the layers: the local file's settings, filled
    /// from the global file's, then overridden by the environment.
    pub fn load(local: Option<AppConfig>, global: Option<AppConfig>, env: &EnvOverrides) -> (r: Self)
        ensures
            ({
                let d0: Option<DatabaseConfig> = None;
                let d1 = match local {
                    Some(l) => merged_database(d0, l.database),
                    None => d0,
                };
                let d2 = match global {
                    Some(g) => merged_database(d1, g.database),
                    None => d1,
                };
                r.database == overridden_database(d2, *env)
            }),
            forall|k: Seq<char>|
                #[trigger] lookup(r.extra@, k) == match local {
                    Some(l) => match global {
                        Some(g) => merged_value(l.extra@, g.extra@, k),
                        None => lookup(l.extra@, k),
                    },
                    None => match global {
                        Some(g) => lookup(g.extra@, k),
                        None => None,
                    },
                },
            r.secrets is Some <==> (layer_has_secrets(local) || layer_has_secrets(global)),
            r.secrets is Some ==> forall|k: Seq<char>|
                #[trigger] lookup(r.secrets->0@, k) == merged_value(
                    layer_secrets(local),
                    layer_secrets(global),
                    k,
                ),
    {
        let mut config = AppConfig::default();
        if let Some(l) = local {
            config.merge(l);
        }
        if let Some(g) = global {
            let ghost before = config.extra@;
            config.merge(g);
        }
        config.apply_env_overrides(env);
        config
    }

    /// The secret stored under `key`.
    pub fn get_secret(&self, key: &str) -> (r: Option<&String>)
        ensures
            self.secrets is None ==> r is None,
            self.secrets matches Some(m) ==> (r is None <==> !has_key(m@, key@)),
            self.secrets matches Some(m) ==> forall|i: int|
                0 <= i < m@.len() && #[trigger] m@[i].0@ == key@ ==> r == Some(&m@[i].1),
    {
        match &self.secrets {
            Some(m) => m.get(key),
            None => None,
        }
    }

    /// Stores a secret, creating the secrets table if there is none.
    pub fn set_secret(&mut self, key: &str, value: String)
        ensures
            final(self).secrets is Some,
            lookup(final(self).secrets->0@, key@) == Some(value),
            forall|k: Seq<char>|
                k != key@ ==> #[trigger] lookup(final(self).secrets->0@, k) == match old(self).secrets {
                    Some(m) => lookup(m@, k),
                    None => None,
                },
            final(self).database == old(self).database,
            final(self).extra == old(self).extra,
    {
        let mut map = match self.secrets.take() {
            Some(m) => m,
            None => StrMap::new(),
        };
        map.insert(owned(key), value);
        self.secrets = Some(map);
    }

    /// The database URL, if configured.
    pub fn get_database_url(&self) -> (r: Option<String>)
        ensures
            r == match self.database {
                Some(d) => d.url,
                None => None,
            },
    {
        match &self.database {
            Some(d) => d.url.clone(),
            None => None,
        }
    }

    /// Why a config file should not be trusted, given its file name and, on
    /// Unix, its permission bits; `None` when it is fine.
    pub fn config_file_perilous(file_name: Option<&str>, mode: Option<u32>) -> (r: Option<&'static str>)
        ensures
            perilous_reason(
                match file_name {
                    Some(n) => Some(n@),
                    None => None,
                },
                mode,
            ) matches Some(m) ==> r matches Some(x) && x@ == m,
            perilous_reason(
                match file_name {
                    Some(n) => Some(n@),
                    None => None,
                },
                mode,
            ) is None ==> r is None,
    {
        if let Some(n) = file_name {
            if str_eq(n, "config.toml") {
                return Some(
                    "generic `config.toml` name may pick up unrelated files; prefer `daedalus.toml`",
                );
            }
        }
        if let Some(m) = mode {
            if m & 0o022 != 0 {
                return Some(
                    "file is group/other-writable — any co-resident user could modify the secrets it injects",
                );
            }
        }
        None
    }
}

} // verus!
