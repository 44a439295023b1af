//! Process configuration as plain values, with the parsing of the address
//! allow-list. Reading the environment is a collaborator concern: the
//! collaborator hands in what it found and this module applies defaults,
//! validation and parsing.

use vstd::prelude::*;
use vstd::string::{StrSliceExecFns, StringExecFns};

use crate::text::{lower_of, spec_trim, to_lowercase_str, trim_str};

verus! {

/// The settings the observer runs with.
#[derive(Debug)]
pub struct Config {
    pub eth_rpc_url: String,
    pub eth_ws_url: Option<String>,
    pub database_url: String,
    pub http_bind_addr: String,
    pub filter_addresses: Option<Vec<String>>,
}

/// Why configuration could not be assembled.
#[derive(Debug)]
pub enum ConfigError {
    MissingEthRpcUrl,
}

impl ConfigError {
    /// A human-readable description of the error.
    pub fn message(&self) -> (r: String)
        ensures
            r@ == "missing ETH_RPC_URL env var"@,
    {
        String::from_str("missing ETH_RPC_URL env var")
    }
}

/// The comma-separated segments of `s` from position `i` on, with `cur` the
/// segment read so far and `acc` the segments already complete.
pub open spec fn scan_segments(
    s: Seq<char>,
    i: int,
    cur: Seq<char>,
    acc: Seq<Seq<char>>,
) -> Seq<Seq<char>>
    decreases s.len() - i,
{
    if i < 0 || i >= s.len() {
        acc.push(cur)
    } else if s[i] == ',' {
        scan_segments(s, i + 1, Seq::empty(), acc.push(cur))
    } else {
        scan_segments(s, i + 1, cur.push(s[i]), acc)
    }
}

/// The comma-separated segments of `s`; an input without commas is one
/// segment, possibly empty.
pub open spec fn split_commas(s: Seq<char>) -> Seq<Seq<char>> {
    scan_segments(s, 0, Seq::empty(), Seq::empty())
}

/// Each segment trimmed and lowercased, empty results dropped.
pub open spec fn spec_filter_tokens(segs: Seq<Seq<char>>) -> Seq<Seq<char>> {
    segs.map_values(|seg: Seq<char>| lower_of(spec_trim(seg))).filter(
        |t: Seq<char>| t.len() > 0,
    )
}

/// What parsing an allow-list string yields: its comma-separated entries,
/// trimmed and lowercased, empty entries dropped.
pub open spec fn spec_parse_filter(s: Seq<char>) -> Seq<Seq<char>> {
    spec_filter_tokens(split_commas(s))
}

/// The character sequences of a vector of strings.
pub open spec fn views_of(v: Seq<String>) -> Seq<Seq<char>> {
    v.map_values(|t: String| t@)
}

proof fn lemma_filter_push<A>(s: Seq<A>, pred: spec_fn(A) -> bool, x: A)
    ensures
        s.push(x).filter(pred) == (if pred(x) {
            s.filter(pred).push(x)
        } else {
            s.filter(pred)
        }),
{
    reveal_with_fuel(Seq::filter, 1);
    assert(s.push(x).drop_last() =~= s);
    assert(s.push(x).last() == x);
    if pred(x) {
        assert(s.push(x).filter(pred) =~= s.filter(pred).push(x));
    } else {
        assert(s.push(x).filter(pred) =~= s.filter(pred));
    }
}

proof fn lemma_filter_tokens_push(segs: Seq<Seq<char>>, seg: Seq<char>)
    ensures
        spec_filter_tokens(segs.push(seg)) == (if lower_of(spec_trim(seg)).len() > 0 {
            spec_filter_tokens(segs).push(lower_of(spec_trim(seg)))
        } else {
            spec_filter_tokens(segs)
        }),
{
    let f = |sg: Seq<char>| lower_of(spec_trim(sg));
    let pred = |t: Seq<char>| t.len() > 0;
    assert(segs.push(seg).map_values(f) =~= segs.map_values(f).push(f(seg)));
    lemma_filter_push(segs.map_values(f), pred, f(seg));
}

/// Parses a comma-separated address allow-list: entries are trimmed and
/// lowercased, empty entries are dropped. The result lists exactly
/// `spec_parse_filter` of the input, in order.
pub fn parse_filter_addresses(raw: &str) -> (r: Vec<String>)
    ensures
        views_of(r@) == spec_parse_filter(raw@),
{
    let n: usize = raw.unicode_len();
    let mut out: Vec<String> = Vec::new();
    let mut start: usize = 0;
    let mut i: usize = 0;
    let ghost mut segs_done: Seq<Seq<char>> = Seq::empty();
    proof {
        assert(raw@.subrange(0, 0) =~= Seq::<char>::empty());
        assert(views_of(out@) =~= spec_filter_tokens(segs_done)) by {
            assert(segs_done.map_values(|sg: Seq<char>| lower_of(spec_trim(sg)))
                =~= Seq::<Seq<char>>::empty());
            reveal_with_fuel(Seq::filter, 1);
            assert(views_of(out@) =~= Seq::<Seq<char>>::empty());
        }
    }
    while i < n
        invariant
            0 <= start <= i <= n,
            n == raw@.len(),
            scan_segments(raw@, i as int, raw@.subrange(start as int, i as int), segs_done)
                == split_commas(raw@),
            views_of(out@) == spec_filter_tokens(segs_done),
        decreases n - i,
    {
        let c = raw.get_char(i);
        if c == ',' {
            let ghost seg = raw@.subrange(start as int, i as int);
            let seg_str = raw.substring_char(start, i);
            let trimmed = trim_str(seg_str);
            let lower = to_lowercase_str(trimmed);
            proof {
                lemma_filter_tokens_push(segs_done, seg);
            }
            if lower.as_str().unicode_len() > 0 {
                out.push(lower);
                proof {
                    assert(views_of(out@) =~= spec_filter_tokens(segs_done.push(seg)));
                }
            } else {
                proof {
                    assert(views_of(out@) == spec_filter_tokens(segs_done.push(seg)));
                }
            }
            proof {
                segs_done = segs_done.push(seg);
                assert(raw@.subrange(i + 1, i + 1) =~= Seq::<char>::empty());
            }
            start = i + 1;
        } else {
            proof {
                assert(raw@.subrange(start as int, i as int).push(raw@[i as int]) =~= raw@.subrange(
                    start as int,
                    i + 1,
                ));
            }
        }
        i = i + 1;
    }
    let ghost seg = raw@.subrange(start as int, n as int);
    let seg_str = raw.substring_char(start, n);
    let trimmed = trim_str(seg_str);
    let lower = to_lowercase_str(trimmed);
    proof {
        assert(split_commas(raw@) == segs_done.push(seg));
        lemma_filter_tokens_push(segs_done, seg);
    }
    if lower.as_str().unicode_len() > 0 {
        out.push(lower);
        proof {
            assert(views_of(out@) =~= spec_filter_tokens(segs_done.push(seg)));
        }
    }
    out
}

impl Config {
    /// Assembles the configuration from externally read settings: the RPC
    /// endpoint is required, the database location and HTTP bind address get
    /// defaults, and the allow-list string is parsed — an empty or absent
    /// list means no filtering.
    pub fn from_values(
        eth_rpc_url: Option<String>,
        eth_ws_url: Option<String>,
        database_url: Option<String>,
        http_bind_addr: Option<String>,
        filter_raw: Option<String>,
    ) -> (r: Result<Config, ConfigError>)
        ensures
            r is Ok <==> eth_rpc_url is Some,
            r matches Ok(c) ==> {
                &&& Some(c.eth_rpc_url) == eth_rpc_url
                &&& c.eth_ws_url == eth_ws_url
                &&& c.database_url@ == (match database_url {
                    Some(d) => d@,
                    None => "sqlite://data/mempool.db"@,
                })
                &&& c.http_bind_addr@ == (match http_bind_addr {
                    Some(h) => h@,
                    None => "127.0.0.1:8080"@,
                })
                &&& (match (filter_raw, c.filter_addresses) {
                    (None, None) => true,
                    (Some(raw), None) => spec_parse_filter(raw@).len() == 0,
                    (Some(raw), Some(fs)) => spec_parse_filter(raw@).len() > 0 && views_of(fs@)
                        == spec_parse_filter(raw@),
                    (None, Some(_)) => false,
                })
            },
            r matches Err(e) ==> eth_rpc_url is None && e is MissingEthRpcUrl,
    {
        let rpc = match eth_rpc_url {
            Some(u) => u,
            None => {
                return Err(ConfigError::MissingEthRpcUrl);
            },
        };
        let database_url = match database_url {
            Some(d) => d,
            None => String::from_str("sqlite://data/mempool.db"),
        };
        let http_bind_addr = match http_bind_addr {
            Some(h) => h,
            None => String::from_str("127.0.0.1:8080"),
        };
        let filter_addresses = match filter_raw {
            None => None,
            Some(raw) => {
                let v = parse_filter_addresses(raw.as_str());
                if v.len() == 0 {
                    proof {
                        assert(views_of(v@).len() == 0);
                    }
                    None
                } else {
                    proof {
                        assert(views_of(v@).len() > 0);
                    }
                    Some(v)
                }
            },
        };
        Ok(
            Config {
                eth_rpc_url: rpc,
                eth_ws_url,
                database_url,
                http_bind_addr,
                filter_addresses,
            },
        )
    }
}

} // verus!
