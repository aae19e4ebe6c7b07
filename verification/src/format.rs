//! Per-destination query formatting: some registries want the query line
//! rewritten before it goes over the wire.

use vstd::prelude::*;

use crate::data::WHOIS_SPAM_ME;
use crate::strutil;
use crate::strutil::{digit_run_end, eq_ci_seq, is_prefix};
use vstd::utf8::is_ascii_chars;

verus! {

/// The query line for `q` sent to `host` under `flags`, without the
/// terminating newline. Destinations are compared ignoring ASCII case.
/// In filtered mode the German and Danish registries get their flag
/// tokens; a query with spaces (or bypass mode) passes through; the ARIN
/// server gets a handle marker, with `AS` numbers rewritten; the Verisign
/// registry gets the `domain` keyword; the Japanese registry gets an
/// English-output suffix; every other destination passes the query
/// through.
pub open spec fn query_body_spec(q: Seq<char>, flags: u8, host: Seq<char>) -> Seq<char> {
    let spam = flags & WHOIS_SPAM_ME != 0;
    if !spam && (eq_ci_seq(host, "whois.denic.de"@) || eq_ci_seq(host, "de.whois-servers.net"@)) {
        if !is_ascii_chars(q) {
            "-T dn "@ + q
        } else {
            "-T dn,ace "@ + q
        }
    } else if !spam && (eq_ci_seq(host, "whois.dk-hostmaster.dk"@) || eq_ci_seq(
        host,
        "dk.whois-servers.net"@,
    )) {
        "--show-handles "@ + q
    } else if spam || q.contains(' ') {
        q
    } else if eq_ci_seq(host, "whois.arin.net"@) {
        if is_prefix("AS"@, q) && digit_run_end(q, 2) == q.len() {
            "+ a "@ + q.subrange(2, q.len() as int)
        } else {
            "+ "@ + q
        }
    } else if eq_ci_seq(host, "whois.verisign-grs.com"@) {
        "domain "@ + q
    } else if eq_ci_seq(host, "whois.nic.ad.jp"@) {
        q + "/e"@
    } else {
        q
    }
}

/// The full wire query: the formatted body plus the line terminator.
pub open spec fn prepare_query_spec(q: Seq<char>, flags: u8, host: Seq<char>) -> Seq<char> {
    query_body_spec(q, flags, host) + "\n"@
}

/// Rewrites the outgoing query line for the destination server. Total:
/// unknown destinations get the query unchanged; the result always ends
/// with the line terminator.
pub fn prepare_query(query: &str, flags: u8, hostname: &str) -> (r: String)
    ensures
        r@ == prepare_query_spec(query@, flags, hostname@),
{
    let should_spam_me = flags & WHOIS_SPAM_ME != 0;
    let body: String = if !should_spam_me && (strutil::eq_ignore_case(hostname, "whois.denic.de")
        || strutil::eq_ignore_case(hostname, "de.whois-servers.net")) {
        if !query.is_ascii() {
            String::from_str("-T dn ").concat(query)
        } else {
            String::from_str("-T dn,ace ").concat(query)
        }
    } else if !should_spam_me && (strutil::eq_ignore_case(hostname, "whois.dk-hostmaster.dk")
        || strutil::eq_ignore_case(hostname, "dk.whois-servers.net")) {
        String::from_str("--show-handles ").concat(query)
    } else if should_spam_me || strutil::contains_char(query, ' ') {
        String::from_str(query)
    } else if strutil::eq_ignore_case(hostname, "whois.arin.net") {
        let n = query.unicode_len();
        if strutil::starts_with(query, "AS") && {
            proof {
                reveal_strlit("AS");
            }
            strutil::scan_digits(query, 2) == n
        } {
            String::from_str("+ a ").concat(query.substring_char(2, n))
        } else {
            String::from_str("+ ").concat(query)
        }
    } else if strutil::eq_ignore_case(hostname, "whois.verisign-grs.com") {
        String::from_str("domain ").concat(query)
    } else if strutil::eq_ignore_case(hostname, "whois.nic.ad.jp") {
        String::from_str(query).concat("/e")
    } else {
        String::from_str(query)
    };
    body.concat("\n")
}

} // verus!
