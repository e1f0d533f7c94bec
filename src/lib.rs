//! A parallel HTTPS file downloader.
//!
//! A HEAD probe gives the file's size and ETag; the file is then cut into
//! contiguous segments, fetched by ranged GET requests of which at most
//! `parallelism` are in flight, each written at its own offset; last, the
//! file may be checked against the ETag as a hex MD5 digest. This library
//! holds the decisions of that pipeline, each with its contract; the network
//! and file work is left to its caller.
use crate::text::{is_u64_text, parse_u64, u64_of_text};
use http::Uri;
use vstd::prelude::*;

pub mod checksum;
pub mod error;
pub mod file;
pub mod metadata;
pub mod pieces;
pub mod pipeline;
pub mod plan;
pub mod scatter;
pub mod scheduler;
pub mod text;

verus! {

/// `http::Uri`, carried through as it is.
#[verifier::external_type_specification]
#[verifier::external_body]
pub struct ExUri(Uri);

/// Whether `http` parses the text as a URI.
pub uninterp spec fn uri_parses(s: Seq<char>) -> bool;

/// Relies on `http::Uri`'s `FromStr`: whether a text parses depends on the
/// text alone.
#[verifier::external_body]
fn parse_uri(s: &str) -> (r: Option<Uri>)
    ensures
        r.is_some() == uri_parses(s@),
{
    s.parse::<Uri>().ok()
}

/// Relies on `num_cpus::get`: the number of logical CPUs, at least 1.
#[verifier::external_body]
fn cpu_count() -> (r: usize)
    ensures
        r >= 1,
{
    num_cpus::get()
}

pub const INSUFFICIENT_ARGS: &'static str = "> Error: please provide at least 2 arguments\n> Correct usage: dl <valid_url> <output_path> <optional int>)";

pub const INVALID_URI: &'static str = "> Error: invalid uri\n> Correct usage: dl <valid_url> <output_path> <optional int>)";

pub const INVALID_PARALLELISM: &'static str = "> Error: invalid parallelism\n> Correct usage: dl <valid_url> <output_path> <optional int>)";

/// The text starts with the scheme `https` (in either case) and `://`.
pub open spec fn is_https_text(s: Seq<char>) -> bool {
    &&& s.len() >= 8
    &&& s[0] == 'h' || s[0] == 'H'
    &&& s[1] == 't' || s[1] == 'T'
    &&& s[2] == 't' || s[2] == 'T'
    &&& s[3] == 'p' || s[3] == 'P'
    &&& s[4] == 's' || s[4] == 'S'
    &&& s[5] == ':' && s[6] == '/' && s[7] == '/'
}

fn has_https_scheme(s: &str) -> (r: bool)
    ensures
        r == is_https_text(s@),
{
    if s.unicode_len() < 8 {
        return false;
    }
    let c0 = s.get_char(0);
    let c1 = s.get_char(1);
    let c2 = s.get_char(2);
    let c3 = s.get_char(3);
    let c4 = s.get_char(4);
    (c0 == 'h' || c0 == 'H') && (c1 == 't' || c1 == 'T') && (c2 == 't' || c2 == 'T') && (c3 == 'p'
        || c3 == 'P') && (c4 == 's' || c4 == 'S') && s.get_char(5) == ':' && s.get_char(6) == '/'
        && s.get_char(7) == '/'
}

/// The URL is usable: an absolute HTTPS URI.
pub open spec fn uri_usable(s: Seq<char>) -> bool {
    is_https_text(s) && uri_parses(s)
}

/// The parallelism text is a whole number from 1 to `usize::MAX`.
pub open spec fn parallelism_usable(s: Seq<char>) -> bool {
    is_u64_text(s) && 1 <= u64_of_text(s).unwrap() <= usize::MAX
}

/// The command line settings: where to fetch from, where to write to, and
/// how many pieces may be in flight at once.
#[derive(Debug, PartialEq)]
pub struct Config {
    pub uri: Uri,
    pub path: String,
    pub parallelism: usize,
}

impl Config {
    /// Reads `dl <url> <output-path> [<parallelism>]`, with
    /// `default_parallelism` when the third argument is not given.
    pub fn from_args(args: Vec<String>, default_parallelism: usize) -> (r: Result<Config, &'static str>)
        requires
            default_parallelism >= 1,
        ensures
            args@.len() < 3 ==> r == Err::<Config, &'static str>(INSUFFICIENT_ARGS),
            args@.len() >= 3 && !uri_usable(args@[1]@) ==> r == Err::<Config, &'static str>(
                INVALID_URI,
            ),
            args@.len() == 4 && uri_usable(args@[1]@) && !parallelism_usable(args@[3]@) ==> r
                == Err::<Config, &'static str>(INVALID_PARALLELISM),
            r is Ok <==> args@.len() >= 3 && uri_usable(args@[1]@) && (args@.len() == 4
                ==> parallelism_usable(args@[3]@)),
            r is Ok ==> r.unwrap().path@ == args@[2]@ && r.unwrap().parallelism == (if args@.len()
                == 4 {
                u64_of_text(args@[3]@).unwrap() as usize
            } else {
                default_parallelism
            }),
    {
        if args.len() < 3 {
            return Err(INSUFFICIENT_ARGS);
        }
        if !has_https_scheme(args[1].as_str()) {
            return Err(INVALID_URI);
        }
        let uri = match parse_uri(args[1].as_str()) {
            Some(u) => u,
            None => return Err(INVALID_URI),
        };
        let path = args[2].clone();
        let parallelism = if args.len() == 4 {
            match parse_u64(args[3].as_str()) {
                Some(n) => {
                    if n == 0 || n > usize::MAX as u64 {
                        return Err(INVALID_PARALLELISM);
                    }
                    n as usize
                },
                None => return Err(INVALID_PARALLELISM),
            }
        } else {
            default_parallelism
        };
        Ok(Config { uri, path, parallelism })
    }

    /// Reads the command line; without a third argument the parallelism is
    /// the number of logical CPUs.
    pub fn new(args: Vec<String>) -> (r: Result<Config, &'static str>)
        ensures
            args@.len() < 3 ==> r == Err::<Config, &'static str>(INSUFFICIENT_ARGS),
            args@.len() >= 3 && !uri_usable(args@[1]@) ==> r == Err::<Config, &'static str>(
                INVALID_URI,
            ),
            args@.len() == 4 && uri_usable(args@[1]@) && !parallelism_usable(args@[3]@) ==> r
                == Err::<Config, &'static str>(INVALID_PARALLELISM),
            r is Ok <==> args@.len() >= 3 && uri_usable(args@[1]@) && (args@.len() == 4
                ==> parallelism_usable(args@[3]@)),
            r is Ok ==> r.unwrap().path@ == args@[2]@ && r.unwrap().parallelism >= 1,
            r is Ok && args@.len() == 4 ==> r.unwrap().parallelism == u64_of_text(
                args@[3]@,
            ).unwrap() as usize,
    {
        Config::from_args(args, cpu_count())
    }
}

} // verus!
