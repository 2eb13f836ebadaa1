use vstd::prelude::*;

use crate::assign::RunConfig;
use crate::parse::{parse_port, parse_unsigned};
use vstd::string::{StrSliceExecFns, StringExecFns, StringSliceAdditionalSpecFns};

verus! {

/// Command-line surface, as plain data.
///
/// The binary's argument parser fills these in; the types here carry the
/// values and own the defaulting rules, so the decision of what a bare
/// invocation means is made (and checked) in one place.

/// Arguments of a bare invocation. Absent values fall back to the defaults
/// `plan_from_cli` and `default_key` state; `env_file` always carries a
/// path, the parser's default being `.portly.env`.
#[derive(Clone, Debug)]
pub struct Cli {
    pub min: Option<u16>,
    pub max: Option<u16>,
    pub key: Option<String>,
    pub app_name: Option<String>,
    pub forced: bool,
    pub env_file: String,
    pub expand_max: bool,
    pub command: Option<Commands>,
}

/// The explicit subcommand form: every run parameter spelled out.
#[derive(Clone, Debug)]
pub enum Commands {
    Port {
        min: u16,
        max: u16,
        key: String,
        app_name: Option<String>,
        forced: bool,
        env_file: String,
        expand_max: bool,
    },
}

/// Validates one port argument: accepted exactly when the text reads as an
/// unsigned 16-bit number (an optional `+`, then digits, value at most
/// 65535), judged over the argument's UTF-8 bytes.
pub fn validate_port_range(val: &str) -> (r: Result<u16, String>)
    ensures
        parse_port(val.spec_bytes()) matches Some(p) ==> r == Ok::<u16, String>(p),
        parse_port(val.spec_bytes()) is None ==> r is Err,
{
    let bytes = val.as_bytes_vec();
    let n = bytes.len();
    proof {
        assert(bytes@.subrange(0, n as int) =~= val.spec_bytes());
    }
    let v = parse_unsigned(&bytes, 0, n, 65535);
    match v {
        Some(x) => Ok(x as u16),
        None => Err(String::from_str("not a valid port number")),
    }
}

/// The engine configuration a bare invocation means: the range defaults to
/// `[3000, 8000]`, and reuse is attempted only when an application name was
/// supplied.
pub fn plan_from_cli(cli: &Cli) -> (c: RunConfig)
    ensures
        c.min == (match cli.min {
            Some(m) => m,
            None => 3000u16,
        }),
        c.max == (match cli.max {
            Some(m) => m,
            None => 8000u16,
        }),
        c.forced == cli.forced,
        c.expand_max == cli.expand_max,
        c.has_app_name == (cli.app_name is Some),
{
    let min = match cli.min {
        Some(m) => m,
        None => 3000,
    };
    let max = match cli.max {
        Some(m) => m,
        None => 8000,
    };
    RunConfig {
        min,
        max,
        forced: cli.forced,
        expand_max: cli.expand_max,
        has_app_name: cli.app_name.is_some(),
    }
}

/// The store key a bare invocation means: `PORT` unless one was given.
pub fn default_key(cli: &Cli) -> (k: String)
    ensures
        k@ == (match cli.key {
            Some(s) => s@,
            None => "PORT"@,
        }),
{
    match &cli.key {
        Some(s) => s.clone(),
        None => String::from_str("PORT"),
    }
}

} // verus!
