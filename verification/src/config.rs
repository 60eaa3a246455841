//! The configuration of the service, read from a list of variables.

use crate::text::{parse_u16, parsed_u16, same_text};
use vstd::prelude::*;

verus! {

/// How the store is reached.
#[derive(Clone, Debug)]
pub struct PgConfig {
    pub user: Option<String>,
    pub password: Option<String>,
    pub host: Option<String>,
    pub port: Option<u16>,
    pub dbname: Option<String>,
}

/// What every request needs to know of the service.
#[derive(Clone, Debug)]
pub struct Config {
    /// The credential of the membership service.
    pub discord_token: String,
    /// The secret under which identity tokens are derived.
    pub userdata_auth: String,
    /// Where the service listens.
    pub server_addr: String,
    pub pg: PgConfig,
}

/// The position of the first variable at or after `from` that is named
/// `key`, or the length of the list where there is none.
pub open spec fn key_position(variables: Seq<(String, String)>, key: Seq<char>, from: int) -> int
    decreases variables.len() - from,
{
    if from >= variables.len() {
        variables.len() as int
    } else if from >= 0 && variables[from].0@ == key {
        from
    } else {
        key_position(variables, key, from + 1)
    }
}

/// A variable is named `key`.
pub open spec fn has_key(variables: Seq<(String, String)>, key: Seq<char>) -> bool {
    key_position(variables, key, 0) < variables.len()
}

/// The value of the first variable named `key`.
pub open spec fn value_of(variables: Seq<(String, String)>, key: Seq<char>) -> Seq<char> {
    variables[key_position(variables, key, 0)].1@
}

/// The variables hold all that a configuration is made of.
pub open spec fn configures(variables: Seq<(String, String)>) -> bool {
    &&& has_key(variables, "USER"@)
    &&& has_key(variables, "PASSWORD"@)
    &&& has_key(variables, "HOST"@)
    &&& has_key(variables, "PORT"@)
    &&& parsed_u16(value_of(variables, "PORT"@)) is Some
    &&& has_key(variables, "DBNAME"@)
    &&& has_key(variables, "DISCORD_TOKEN"@)
    &&& has_key(variables, "USERDATA_AUTH"@)
    &&& has_key(variables, "SERVER_ADDR"@)
}

impl PgConfig {
    /// The settings are those that the variables name.
    pub open spec fn reads(self, variables: Seq<(String, String)>) -> bool {
        &&& self.user is Some && self.user->0@ == value_of(variables, "USER"@)
        &&& self.password is Some && self.password->0@ == value_of(variables, "PASSWORD"@)
        &&& self.host is Some && self.host->0@ == value_of(variables, "HOST"@)
        &&& self.port == parsed_u16(value_of(variables, "PORT"@))
        &&& self.dbname is Some && self.dbname->0@ == value_of(variables, "DBNAME"@)
    }
}

impl Config {
    /// The configuration is the one that the variables name.
    pub open spec fn reads(self, variables: Seq<(String, String)>) -> bool {
        &&& self.discord_token@ == value_of(variables, "DISCORD_TOKEN"@)
        &&& self.userdata_auth@ == value_of(variables, "USERDATA_AUTH"@)
        &&& self.server_addr@ == value_of(variables, "SERVER_ADDR"@)
        &&& self.pg.reads(variables)
    }

    /// Reads the configuration from variables that hold all of it.
    pub fn new(environment_vars: &Vec<(String, String)>) -> (config: Config)
        requires
            configures(environment_vars@),
        ensures
            config.reads(environment_vars@),
    {
        let pg: PgConfig = Config::setup_pg_config(environment_vars);
        Config {
            discord_token: find_key(environment_vars, "DISCORD_TOKEN"),
            userdata_auth: find_key(environment_vars, "USERDATA_AUTH"),
            server_addr: find_key(environment_vars, "SERVER_ADDR"),
            pg,
        }
    }

    /// Reads the configuration, or nothing where variables are missing or
    /// the port is no number.
    pub fn load(environment_vars: &Vec<(String, String)>) -> (loaded: Option<Config>)
        ensures
            loaded is Some <==> configures(environment_vars@),
            loaded is Some ==> loaded->0.reads(environment_vars@),
    {
        let complete: bool = contains_key(environment_vars, "USER")
            && contains_key(environment_vars, "PASSWORD")
            && contains_key(environment_vars, "HOST")
            && contains_key(environment_vars, "PORT")
            && contains_key(environment_vars, "DBNAME")
            && contains_key(environment_vars, "DISCORD_TOKEN")
            && contains_key(environment_vars, "USERDATA_AUTH")
            && contains_key(environment_vars, "SERVER_ADDR");
        if !complete {
            return None;
        }
        let port: String = find_key(environment_vars, "PORT");
        if parse_u16(port.as_str()).is_none() {
            return None;
        }
        Some(Config::new(environment_vars))
    }

    fn setup_pg_config(env_vars: &Vec<(String, String)>) -> (pg: PgConfig)
        requires
            has_key(env_vars@, "USER"@),
            has_key(env_vars@, "PASSWORD"@),
            has_key(env_vars@, "HOST"@),
            has_key(env_vars@, "PORT"@),
            has_key(env_vars@, "DBNAME"@),
        ensures
            pg.reads(env_vars@),
    {
        let port: String = find_key(env_vars, "PORT");
        PgConfig {
            user: Some(find_key(env_vars, "USER")),
            password: Some(find_key(env_vars, "PASSWORD")),
            host: Some(find_key(env_vars, "HOST")),
            port: parse_u16(port.as_str()),
            dbname: Some(find_key(env_vars, "DBNAME")),
        }
    }
}

/// The position of the first variable named `key`, or the length of the
/// list.
fn find_position(variables: &Vec<(String, String)>, key: &str) -> (at: usize)
    ensures
        at == key_position(variables@, key@, 0),
        at <= variables.len(),
{
    let mut next: usize = 0;
    while next < variables.len()
        invariant
            next <= variables.len(),
            key_position(variables@, key@, 0) == key_position(variables@, key@, next as int),
        decreases variables.len() - next,
    {
        if same_text(variables[next].0.as_str(), key) {
            return next;
        }
        next = next + 1;
    }
    next
}

/// Whether a variable is named `key`.
pub fn contains_key(variables: &Vec<(String, String)>, key: &str) -> (found: bool)
    ensures
        found == has_key(variables@, key@),
{
    find_position(variables, key) < variables.len()
}

/// The value of the first variable named `key_search`, which must be there.
pub fn find_key(iteration: &Vec<(String, String)>, key_search: &'static str) -> (value: String)
    requires
        has_key(iteration@, key_search@),
    ensures
        value@ == value_of(iteration@, key_search@),
{
    let at: usize = find_position(iteration, key_search);
    iteration[at].1.clone()
}

/// The value of the first variable named `key`, or nothing where no
/// variable has the name.
pub fn lookup_key(variables: &Vec<(String, String)>, key: &str) -> (value: Option<String>)
    ensures
        value is Some <==> has_key(variables@, key@),
        value is Some ==> value->0@ == value_of(variables@, key@),
{
    let at: usize = find_position(variables, key);
    if at < variables.len() {
        Some(variables[at].1.clone())
    } else {
        None
    }
}

/// The variable that `find_key` reads is named as asked, and no variable
/// before it is.
pub proof fn lemma_first_variable_wins(variables: Seq<(String, String)>, key: Seq<char>, from: int)
    requires
        0 <= from <= variables.len(),
    ensures
        from <= key_position(variables, key, from) <= variables.len(),
        key_position(variables, key, from) < variables.len() ==> variables[key_position(
            variables,
            key,
            from,
        )].0@ == key,
        forall|at: int|
            from <= at < key_position(variables, key, from) ==> (#[trigger] variables[at]).0@
                != key,
    decreases variables.len() - from,
{
    if from < variables.len() && variables[from].0@ != key {
        lemma_first_variable_wins(variables, key, from + 1);
    }
}

} // verus!
