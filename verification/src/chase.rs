//! The referral chaser: the per-hop processing of a server response and
//! the state machine that follows referrals from server to server.
//!
//! The chaser holds no socket. The caller connects to the chaser's current
//! target, sends [`Chaser::wire_query`], reads the response line by line
//! (each line keeping its terminator), and hands the lines to
//! [`Chaser::on_response`]; a connection failure is reported through
//! [`Chaser::on_connect_failed`]. The chaser decides whether the lookup is
//! finished and what the next target is.

use vstd::prelude::*;

use crate::data::{default_port, WHOIS_RECURSE, WHOIS_SPAM_ME, MAX_HOPS};
use crate::error::Error;
use crate::filter;
use crate::filter::{hide_rules, hide_step, HideState};
use crate::format::{prepare_query, prepare_query_spec};
use crate::router;
use crate::router::choose_server_spec;
use crate::scan;
use crate::scan::find_referral_spec;
use crate::strutil;
use crate::utils;
use crate::utils::normalize_spec;

verus! {

/// One server interaction: the (possibly filtered) response text, and the
/// referral the response announced, if any. The referral host and port
/// are present together or not at all.
#[derive(Debug, Clone)]
pub struct Whois {
    pub referral: Option<String>,
    pub referral_port: Option<String>,
    pub raw: String,
}

/// A finished lookup: the original query and the ordered chain of hops.
#[derive(Debug, Clone)]
pub struct WhoisResult {
    pub query: String,
    pub chain: Vec<Whois>,
}

/// A hop's referral host and port stand together.
pub open spec fn hop_wf(w: Whois) -> bool {
    w.referral is Some <==> w.referral_port is Some
}

/// The referral a hop carries, as a pair of views.
pub open spec fn hop_referral(w: Whois) -> Option<(Seq<char>, Seq<char>)> {
    match (w.referral, w.referral_port) {
        (Some(h), Some(p)) => Some((h@, p@)),
        _ => None,
    }
}

/// The views of the lines of a response.
pub open spec fn lines_views(ls: Seq<String>) -> Seq<Seq<char>> {
    ls.map_values(|s: String| s@)
}

/// The filter state a hop starts in: disabled entirely under the
/// disclaimer-bypass flag, idle otherwise.
pub open spec fn init_hide_state(flags: u8) -> HideState {
    if flags & WHOIS_SPAM_ME != 0 {
        HideState::Disabled
    } else {
        HideState::NotStarted
    }
}

/// The text a hop keeps: the concatenation of the lines from `i` on that
/// the disclaimer filter, started in state `st`, does not hide.
pub open spec fn filtered_text(
    rules: Seq<(Seq<char>, Option<Seq<char>>)>,
    st: HideState,
    lines: Seq<Seq<char>>,
    i: int,
) -> Seq<char>
    decreases lines.len() - i,
{
    if !(0 <= i < lines.len()) {
        Seq::empty()
    } else {
        let step = hide_step(rules, st, lines[i]);
        let rest = filtered_text(rules, step.0, lines, i + 1);
        if step.1 {
            rest
        } else {
            lines[i] + rest
        }
    }
}

/// The text a response yields under `flags`: the built-in rules, starting
/// idle, or everything when filtering is bypassed.
pub open spec fn response_raw(lines: Seq<Seq<char>>, flags: u8) -> Seq<char> {
    filtered_text(hide_rules(), init_hide_state(flags), lines, 0)
}

/// The referral of the first line at or after `i` that announces one.
pub open spec fn scan_lines_referral(lines: Seq<Seq<char>>, i: int) -> Option<
    (Seq<char>, Seq<char>),
>
    decreases lines.len() - i,
{
    if !(0 <= i < lines.len()) {
        None
    } else {
        match find_referral_spec(lines[i]) {
            Some(r) => Some(r),
            None => scan_lines_referral(lines, i + 1),
        }
    }
}

/// The referral a response announces: the first line's, in reading order.
pub open spec fn response_referral(lines: Seq<Seq<char>>) -> Option<(Seq<char>, Seq<char>)> {
    scan_lines_referral(lines, 0)
}

/// Digests one server response: collects the lines the disclaimer filter
/// shows (all of them under the bypass flag) and extracts the first
/// referral any line announces.
pub fn process_response(lines: &Vec<String>, flags: u8) -> (w: Whois)
    ensures
        w.raw@ == response_raw(lines_views(lines@), flags),
        hop_referral(w) == response_referral(lines_views(lines@)),
        hop_wf(w),
{
    let ghost lv = lines_views(lines@);
    let rules = filter::default_hide_rules();
    let mut st: HideState = if flags & WHOIS_SPAM_ME != 0 {
        HideState::Disabled
    } else {
        HideState::NotStarted
    };
    let mut raw = String::new();
    let mut referral: Option<(String, String)> = None;
    let n = lines.len();
    let mut i: usize = 0;
    while i < n
        invariant
            i <= n,
            n == lines@.len(),
            lv == lines_views(lines@),
            lv.len() == n,
            filter::rules_view(rules@) == hide_rules(),
            response_raw(lv, flags) == raw@ + filtered_text(hide_rules(), st, lv, i as int),
            (match referral {
                Some(hp) => response_referral(lv) == Some((hp.0@, hp.1@)),
                None => response_referral(lv) == scan_lines_referral(lv, i as int),
            }),
        decreases n - i,
    {
        assert(lv[i as int] == lines@[i as int]@);
        let ghost st_before = st;
        let ghost raw_before = raw@;
        let line = &lines[i];
        let hid = filter::filter_line(&rules, &mut st, line.as_str());
        proof {
            assert(hide_step(hide_rules(), st_before, lv[i as int]) == (st, hid));
        }
        if !hid {
            raw.append(line.as_str());
            proof {
                assert(filtered_text(hide_rules(), st_before, lv, i as int) == lv[i as int]
                    + filtered_text(hide_rules(), st, lv, i as int + 1));
                assert(raw_before + (lv[i as int] + filtered_text(hide_rules(), st, lv, i as int
                    + 1)) =~= raw@ + filtered_text(hide_rules(), st, lv, i as int + 1));
            }
        } else {
            proof {
                assert(filtered_text(hide_rules(), st_before, lv, i as int) == filtered_text(
                    hide_rules(),
                    st,
                    lv,
                    i as int + 1,
                ));
            }
        }
        if referral.is_none() {
            referral = scan::find_referral(line.as_str());
            proof {
                match &referral {
                    Some(hp) => {
                        assert(find_referral_spec(lv[i as int]) == Some((hp.0@, hp.1@)));
                        assert(scan_lines_referral(lv, i as int) == Some((hp.0@, hp.1@)));
                    },
                    None => {
                        assert(scan_lines_referral(lv, i as int) == scan_lines_referral(
                            lv,
                            i as int + 1,
                        ));
                    },
                }
            }
        }
        i = i + 1;
    }
    proof {
        assert(filtered_text(hide_rules(), st, lv, n as int) =~= Seq::<char>::empty());
        assert(raw@ + Seq::<char>::empty() =~= raw@);
        assert(scan_lines_referral(lv, n as int) is None);
    }
    match referral {
        Some((h, p)) => Whois { referral: Some(h), referral_port: Some(p), raw },
        None => Whois { referral: None, referral_port: None, raw },
    }
}

/// An in-flight lookup: the query as given and as sent, the flags, the
/// current target, and the hops collected so far.
#[derive(Debug)]
pub struct Chaser {
    pub query: String,
    pub domain: String,
    pub flags: u8,
    pub host: String,
    pub port: String,
    pub chain: Vec<Whois>,
}

/// What one response makes of a lookup: another hop to perform, or the
/// finished chain.
#[derive(Debug)]
pub enum ChaseStep {
    Next(Chaser),
    Done(WhoisResult),
}

impl Chaser {
    /// A chaser that can still hop has room left under the hop ceiling,
    /// so a chain never grows beyond `MAX_HOPS` entries and referral
    /// cycles cannot loop forever.
    pub open spec fn wf(self) -> bool {
        self.chain@.len() < MAX_HOPS
    }

    /// Begins a lookup: normalizes the query, keeps the original query
    /// text for the result, and selects the initial server on the
    /// conventional port through the routing table.
    pub fn start(query: &str, flags: u8, free_form: bool) -> (r: Result<Chaser, Error>)
        ensures
            (match r {
                Ok(c) => {
                    &&& normalize_spec(query@, free_form) == Some(c.domain@)
                    &&& c.query@ == query@
                    &&& c.flags == flags
                    &&& c.host@ == choose_server_spec(c.domain@)
                    &&& c.port@ == default_port()
                    &&& c.chain@ == Seq::<Whois>::empty()
                    &&& c.wf()
                },
                Err(e) => e == Error::InvalidDomain && normalize_spec(query@, free_form) is None,
            }),
    {
        let domain = match utils::normalize_query(query, free_form) {
            Ok(d) => d,
            Err(e) => {
                return Err(e);
            },
        };
        let host = router::choose_server(domain.as_str());
        let c = Chaser {
            query: String::from_str(query),
            domain,
            flags,
            host: String::from_str(host),
            port: String::from_str("43"),
            chain: Vec::new(),
        };
        assert(c.chain@ =~= Seq::<Whois>::empty());
        Ok(c)
    }

    /// The query line to send to the current target, rewritten for that
    /// destination's quirks.
    pub fn wire_query(&self) -> (r: String)
        ensures
            r@ == prepare_query_spec(self.domain@, self.flags, self.host@),
    {
        prepare_query(self.domain.as_str(), self.flags, self.host.as_str())
    }

    /// Ends the lookup after the current target could not be reached: a
    /// failure before any hop succeeded is an error, while a failure
    /// after at least one hop degrades gracefully to the partial chain.
    pub fn on_connect_failed(self) -> (r: Result<WhoisResult, Error>)
        ensures
            (match r {
                Ok(res) => self.chain@.len() > 0 && res.query@ == self.query@ && res.chain@
                    == self.chain@,
                Err(e) => e == Error::NoConnection && self.chain@.len() == 0,
            }),
    {
        if self.chain.len() == 0 {
            Err(Error::NoConnection)
        } else {
            Ok(WhoisResult { query: self.query, chain: self.chain })
        }
    }

    /// Ends the lookup after the current target's response could not be
    /// decoded as text. Unlike a connection failure, this is fatal even
    /// when earlier hops succeeded: the chain is discarded.
    pub fn on_invalid_response(self) -> (r: Result<WhoisResult, Error>)
        ensures
            r matches Err(e) && e == Error::InternalError,
    {
        Err(Error::InternalError)
    }

    /// Ends the lookup after an I/O failure on the already-open stream.
    /// Unlike a connection failure, this is fatal even when earlier hops
    /// succeeded: the chain is discarded.
    pub fn on_stream_error(self) -> (r: Result<WhoisResult, Error>)
        ensures
            r matches Err(e) && e == Error::TcpStreamError,
    {
        Err(Error::TcpStreamError)
    }

    /// Digests the current target's response and decides how to go on.
    /// The hop is appended to the chain. The lookup ends, returning the
    /// chain, when the response names no referral, when referrals are not
    /// to be followed, when the referral points back at the same host, or
    /// when the hop ceiling is reached; otherwise the referral becomes
    /// the next target.
    pub fn on_response(self, lines: &Vec<String>) -> (r: ChaseStep)
        requires
            self.wf(),
        ensures
            (match r {
                ChaseStep::Next(c) => {
                    &&& response_referral(lines_views(lines@)) matches Some(hp)
                        && c.host@ == hp.0 && c.port@ == hp.1 && hp.0 != self.host@
                    &&& self.flags & WHOIS_RECURSE != 0
                    &&& self.chain@.len() + 1 < MAX_HOPS
                    &&& c.query@ == self.query@
                    &&& c.domain@ == self.domain@
                    &&& c.flags == self.flags
                    &&& c.chain@.len() == self.chain@.len() + 1
                    &&& c.chain@.subrange(0, self.chain@.len() as int) == self.chain@
                    &&& c.chain@.last().raw@ == response_raw(lines_views(lines@), self.flags)
                    &&& hop_referral(c.chain@.last()) == response_referral(lines_views(lines@))
                    &&& hop_wf(c.chain@.last())
                    &&& c.wf()
                },
                ChaseStep::Done(res) => {
                    &&& res.query@ == self.query@
                    &&& res.chain@.len() == self.chain@.len() + 1
                    &&& res.chain@.len() <= MAX_HOPS
                    &&& res.chain@.subrange(0, self.chain@.len() as int) == self.chain@
                    &&& res.chain@.last().raw@ == response_raw(lines_views(lines@), self.flags)
                    &&& hop_referral(res.chain@.last()) == response_referral(lines_views(lines@))
                    &&& hop_wf(res.chain@.last())
                    &&& {
                        ||| response_referral(lines_views(lines@)) is None
                        ||| self.flags & WHOIS_RECURSE == 0
                        ||| (response_referral(lines_views(lines@)) matches Some(hp) && hp.0
                            == self.host@)
                        ||| self.chain@.len() + 1 >= MAX_HOPS
                    }
                },
            }),
    {
        let w = process_response(lines, self.flags);
        let next: Option<(String, String)> = match (&w.referral, &w.referral_port) {
            (Some(h), Some(p)) => Some((h.clone(), p.clone())),
            _ => None,
        };
        let mut chain = self.chain;
        chain.push(w);
        assert(chain@.subrange(0, chain@.len() - 1) =~= self.chain@);
        let should_recurse = self.flags & WHOIS_RECURSE != 0;
        match next {
            Some((h, p)) => {
                if should_recurse && !strutil::str_eq(h.as_str(), self.host.as_str())
                    && chain.len() < MAX_HOPS {
                    ChaseStep::Next(
                        Chaser {
                            query: self.query,
                            domain: self.domain,
                            flags: self.flags,
                            host: h,
                            port: p,
                            chain,
                        },
                    )
                } else {
                    ChaseStep::Done(WhoisResult { query: self.query, chain })
                }
            },
            None => ChaseStep::Done(WhoisResult { query: self.query, chain }),
        }
    }
}

/// Begins a lookup for `q` against an explicitly chosen server and port
/// instead of the routed one. The caller drives the returned chaser over
/// its transport.
pub fn query(q: &str, host: &str, port: &str, flags: u8) -> (r: Result<Chaser, Error>)
    ensures
        (match r {
            Ok(c) => {
                &&& normalize_spec(q@, false) == Some(c.domain@)
                &&& c.query@ == q@
                &&& c.flags == flags
                &&& c.host@ == host@
                &&& c.port@ == port@
                &&& c.chain@ == Seq::<Whois>::empty()
                &&& c.wf()
            },
            Err(e) => e == Error::InvalidDomain && normalize_spec(q@, false) is None,
        }),
{
    let mut c = Chaser::start(q, flags, false)?;
    c.host = String::from_str(host);
    c.port = String::from_str(port);
    Ok(c)
}

/// Begins a lookup for `q` with the default flags: referrals are
/// followed, and disclaimer filtering is bypassed. The caller drives the
/// returned chaser over its transport.
pub fn whois(q: &str) -> (r: Result<Chaser, Error>)
    ensures
        (match r {
            Ok(c) => {
                &&& normalize_spec(q@, false) == Some(c.domain@)
                &&& c.query@ == q@
                &&& c.flags == WHOIS_RECURSE | WHOIS_SPAM_ME
                &&& c.host@ == choose_server_spec(c.domain@)
                &&& c.port@ == default_port()
                &&& c.chain@ == Seq::<Whois>::empty()
                &&& c.wf()
            },
            Err(e) => e == Error::InvalidDomain && normalize_spec(q@, false) is None,
        }),
{
    Chaser::start(q, WHOIS_RECURSE | WHOIS_SPAM_ME, false)
}

} // verus!
