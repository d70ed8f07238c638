//! The indexer's settings, read from the values of environment variables.
use vstd::prelude::*;
use crate::pairs::{lookup, resolve, string_views};

verus! {

/// The indexer's settings.
pub struct Env {
    /// Resume from the stored checkpoint rather than from `start_block_height`.
    pub start_block_height_from_cache: bool,
    /// The height to start from when no checkpoint is used.
    pub start_block_height: u64,
    pub redis_url: String,
    /// The list that relevant blocks are pushed to.
    pub pub_list: String,
    /// The watched accounts.
    pub accounts: Vec<String>,
    pub parse_tx_hash: bool,
    /// Stream from the test network rather than the main network.
    pub test: bool,
    pub log_file: String,
    pub log_level: String,
}

/// Why the settings could not be read.
#[derive(Clone, Debug, PartialEq, Eq)]
pub enum ConfigError {
    /// A required variable is not set.
    Missing(String),
    /// A variable does not hold a value of its type.
    Invalid(String),
}

/// What `str::parse::<bool>` reads.
pub open spec fn bool_of(s: Seq<char>) -> Option<bool> {
    if s == "true"@ {
        Some(true)
    } else if s == "false"@ {
        Some(false)
    } else {
        None
    }
}

pub open spec fn is_digit(c: char) -> bool {
    '0' <= c && c <= '9'
}

/// The number that decimal digits denote.
pub open spec fn digits_value(s: Seq<char>) -> int
    decreases s.len(),
{
    if s.len() == 0 {
        0
    } else {
        digits_value(s.drop_last()) * 10 + (s.last() as u32 - '0' as u32)
    }
}

/// What `str::parse::<u64>` reads: an optional `+`, then one or more
/// decimal digits whose value fits.
pub open spec fn u64_of(s: Seq<char>) -> Option<u64> {
    let d = if s.len() > 0 && s[0] == '+' {
        s.drop_first()
    } else {
        s
    };
    if d.len() > 0 && (forall|i: int| 0 <= i < d.len() ==> is_digit(#[trigger] d[i])) && digits_value(d)
        <= u64::MAX {
        Some(digits_value(d) as u64)
    } else {
        None
    }
}

/// The pieces joined with commas.
pub open spec fn join_commas(pieces: Seq<Seq<char>>) -> Seq<char>
    decreases pieces.len(),
{
    if pieces.len() == 0 {
        Seq::empty()
    } else if pieces.len() == 1 {
        pieces[0]
    } else {
        join_commas(pieces.drop_last()) + seq![','] + pieces.last()
    }
}

/// The text without the whitespace at its two ends.
pub uninterp spec fn trimmed(s: Seq<char>) -> Seq<char>;

/// Relies on `str::parse::<u64>`, which reads an optional `+` and then
/// decimal digits, and fails on anything else or on a value that does not fit.
#[verifier::external_body]
fn parse_u64(s: &str) -> (r: Option<u64>)
    ensures
        r == u64_of(s@),
{
    s.parse::<u64>().ok()
}

/// Relies on `str::split` with a `char` pattern: the pieces between the
/// commas, in order, empty ones included.
#[verifier::external_body]
fn split_commas(s: &str) -> (r: Vec<String>)
    ensures
        r@.len() >= 1,
        join_commas(string_views(r@)) == s@,
        forall|i: int| 0 <= i < r@.len() ==> !(#[trigger] r@[i])@.contains(','),
{
    s.split(',').map(String::from).collect()
}

/// Relies on `str::trim`: the result depends on the text alone.
#[verifier::external_body]
fn trim(s: &str) -> (r: String)
    ensures
        r@ == trimmed(s@),
{
    s.trim().to_string()
}

/// What `str::parse::<bool>` reads: `true` or `false`, nothing else.
pub fn parse_bool(s: &String) -> (r: Option<bool>)
    ensures
        r == bool_of(s@),
{
    if *s == "true".to_owned() {
        Some(true)
    } else if *s == "false".to_owned() {
        Some(false)
    } else {
        None
    }
}

/// `accounts` are the pieces of `s` between its commas, each trimmed.
pub open spec fn accounts_of(accounts: Seq<String>, s: Seq<char>) -> bool {
    exists|pieces: Seq<Seq<char>>|
        pieces.len() >= 1 && join_commas(pieces) == s && (forall|i: int|
            0 <= i < pieces.len() ==> !(#[trigger] pieces[i]).contains(','))
            && string_views(accounts) == pieces.map_values(|p: Seq<char>| trimmed(p))
}

/// The watched accounts of a comma-separated list, each trimmed.
pub fn parse_accounts(s: &str) -> (r: Vec<String>)
    ensures
        accounts_of(r@, s@),
{
    let pieces = split_commas(s);
    let mut r: Vec<String> = Vec::new();
    let mut i: usize = 0;
    while i < pieces.len()
        invariant
            i <= pieces@.len(),
            r@.len() == i,
            forall|k: int| 0 <= k < i ==> (#[trigger] r@[k])@ == trimmed(pieces@[k]@),
        decreases pieces@.len() - i,
    {
        r.push(trim(pieces[i].as_str()));
        i = i + 1;
    }
    assert(string_views(r@) =~= string_views(pieces@).map_values(|p: Seq<char>| trimmed(p)));
    r
}

/// The value of the variable `name`.
pub open spec fn var(vars: Seq<(String, String)>, name: &str) -> Option<Seq<char>> {
    lookup(vars, name@)
}

/// A boolean variable that has a default when it is not set.
pub open spec fn bool_or(v: Option<Seq<char>>, default: bool) -> Option<bool> {
    match v {
        None => Some(default),
        Some(s) => bool_of(s),
    }
}

/// Every required variable is set and every variable reads as its type.
pub open spec fn settings_ok(vars: Seq<(String, String)>) -> bool {
    &&& var(vars, "START_BLOCK_HEIGHT_FROM_CACHE") matches Some(v) && bool_of(v) is Some
    &&& var(vars, "START_BLOCK_HEIGHT") matches Some(v) && u64_of(v) is Some
    &&& var(vars, "REDIS_URL") is Some
    &&& var(vars, "PUB_LIST") is Some
    &&& var(vars, "ACCOUNTS") is Some
    &&& bool_or(var(vars, "PARSE_TX_HASH"), false) is Some
    &&& bool_or(var(vars, "TEST"), true) is Some
    &&& var(vars, "LOG_FILE") is Some
}

fn get_var(vars: &Vec<(String, String)>, name: &str) -> (r: Option<String>)
    ensures
        match r {
            Some(v) => var(vars@, name) == Some(v@),
            None => var(vars@, name) is None,
        },
{
    resolve(vars, &name.to_owned())
}

fn required(vars: &Vec<(String, String)>, name: &str) -> (r: Result<String, ConfigError>)
    ensures
        match r {
            Ok(v) => var(vars@, name) == Some(v@),
            Err(e) => var(vars@, name) is None && (e matches ConfigError::Missing(n) && n@ == name@),
        },
{
    match get_var(vars, name) {
        Some(v) => Ok(v),
        None => Err(ConfigError::Missing(name.to_owned())),
    }
}

fn bool_var(vars: &Vec<(String, String)>, name: &str, default: bool) -> (r: Result<bool, ConfigError>)
    ensures
        match r {
            Ok(b) => bool_or(var(vars@, name), default) == Some(b),
            Err(e) => bool_or(var(vars@, name), default) is None && (e matches ConfigError::Invalid(n) && n@ == name@),
        },
{
    match get_var(vars, name) {
        None => Ok(default),
        Some(v) => match parse_bool(&v) {
            Some(b) => Ok(b),
            None => Err(ConfigError::Invalid(name.to_owned())),
        },
    }
}

/// The settings that the environment's variables give, `vars` holding each
/// variable's name and value. `PARSE_TX_HASH` is false, `TEST` true and
/// `LOG_LEVEL` `info` when not set; the other variables are required.
pub fn init_env_config(vars: &Vec<(String, String)>) -> (r: Result<Env, ConfigError>)
    ensures
        r is Ok <==> settings_ok(vars@),
        match r {
            Ok(e) => {
                &&& Some(e.start_block_height_from_cache) == bool_of(var(vars@, "START_BLOCK_HEIGHT_FROM_CACHE")->0)
                &&& Some(e.start_block_height) == u64_of(var(vars@, "START_BLOCK_HEIGHT")->0)
                &&& Some(e.redis_url@) == var(vars@, "REDIS_URL")
                &&& Some(e.pub_list@) == var(vars@, "PUB_LIST")
                &&& accounts_of(e.accounts@, var(vars@, "ACCOUNTS")->0)
                &&& Some(e.parse_tx_hash) == bool_or(var(vars@, "PARSE_TX_HASH"), false)
                &&& Some(e.test) == bool_or(var(vars@, "TEST"), true)
                &&& Some(e.log_file@) == var(vars@, "LOG_FILE")
                &&& e.log_level@ == match var(vars@, "LOG_LEVEL") {
                    Some(v) => v,
                    None => "info"@,
                }
            },
            Err(ConfigError::Missing(n)) => lookup(vars@, n@) is None,
            Err(ConfigError::Invalid(n)) => lookup(vars@, n@) is Some,
        },
{
    let from_cache_text = required(vars, "START_BLOCK_HEIGHT_FROM_CACHE")?;
    let start_block_height_from_cache = match parse_bool(&from_cache_text) {
        Some(b) => b,
        None => return Err(ConfigError::Invalid("START_BLOCK_HEIGHT_FROM_CACHE".to_owned())),
    };
    let height_text = required(vars, "START_BLOCK_HEIGHT")?;
    let start_block_height = match parse_u64(height_text.as_str()) {
        Some(h) => h,
        None => return Err(ConfigError::Invalid("START_BLOCK_HEIGHT".to_owned())),
    };
    let redis_url = required(vars, "REDIS_URL")?;
    let pub_list = required(vars, "PUB_LIST")?;
    let accounts_text = required(vars, "ACCOUNTS")?;
    let accounts = parse_accounts(accounts_text.as_str());
    let parse_tx_hash = bool_var(vars, "PARSE_TX_HASH", false)?;
    let test = bool_var(vars, "TEST", true)?;
    let log_file = required(vars, "LOG_FILE")?;
    let log_level = match get_var(vars, "LOG_LEVEL") {
        Some(v) => v,
        None => "info".to_owned(),
    };
    Ok(
        Env {
            start_block_height_from_cache,
            start_block_height,
            redis_url,
            pub_list,
            accounts,
            parse_tx_hash,
            test,
            log_file,
            log_level,
        },
    )
}

} // verus!
