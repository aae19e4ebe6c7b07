//! Referral extraction: recognizing the line of a server response that
//! points at the next server to query.

use vstd::prelude::*;

use crate::data::{arin_host, default_port};
use crate::strutil;
use crate::strutil::{digit_run_end, first_occurrence, host_run_end, space_run_end};

verus! {

/// One referral rule: a line containing `prefix` announces a referral,
/// and `len` leading characters are skipped from the match before the
/// host token begins.
#[derive(Debug, Clone, Copy)]
pub struct WhoisReferral {
    pub prefix: &'static str,
    pub len: usize,
}

/// The ordered referral rule table.
pub open spec fn referral_table() -> Seq<(Seq<char>, int)> {
    seq![
        ("whois:"@, 6),
        ("Whois Server:"@, 14),
        ("Registrar WHOIS Server:"@, 24),
        ("ReferralServer:  whois://"@, 23),
        ("ReferralServer:  rwhois://"@, 24),
        ("descr:          region. Please query"@, 32),
    ]
}

/// What one rule extracts from a line: after the first occurrence of the
/// prefix, `skip` characters are passed over, then leading whitespace,
/// then the host token is the run of host characters that follows. An
/// empty token yields nothing. A `:` directly after the token followed by
/// at least one digit gives the referral port; otherwise the port is the
/// conventional one.
pub open spec fn rule_referral(line: Seq<char>, prefix: Seq<char>, skip: int) -> Option<
    (Seq<char>, Seq<char>),
> {
    match first_occurrence(line, prefix) {
        Some(pos) => {
            if pos + skip <= line.len() {
                let j = space_run_end(line, pos + skip);
                let k = host_run_end(line, j);
                if k > j {
                    let host = line.subrange(j, k);
                    if k < line.len() && line[k] == ':' && digit_run_end(line, k + 1) > k + 1 {
                        Some((host, line.subrange(k + 1, digit_run_end(line, k + 1))))
                    } else {
                        Some((host, default_port()))
                    }
                } else {
                    None
                }
            } else {
                None
            }
        },
        None => None,
    }
}

/// The extraction of the first rule at or after `i` that yields a host.
pub open spec fn scan_referral_rules(line: Seq<char>, i: int) -> Option<(Seq<char>, Seq<char>)>
    decreases referral_table().len() - i,
{
    if !(0 <= i < referral_table().len()) {
        None
    } else {
        match rule_referral(line, referral_table()[i].0, referral_table()[i].1) {
            Some(r) => Some(r),
            None => scan_referral_rules(line, i + 1),
        }
    }
}

/// The referral a line announces, if any. The two shared-netblock marker
/// lines force a referral to the IP registry's server on the conventional
/// port, whatever the rules would say; otherwise the rule table decides.
pub open spec fn find_referral_spec(line: Seq<char>) -> Option<(Seq<char>, Seq<char>)> {
    if line == "netname:        ERX-NETBLOCK\n"@ || line
        == "netname:        NON-RIPE-NCC-MANAGED-ADDRESS-BLOCK\n"@ {
        Some((arin_host(), default_port()))
    } else {
        scan_referral_rules(line, 0)
    }
}

/// The referral rule at position `i` of the table.
pub fn referral_entry(i: usize) -> (r: WhoisReferral)
    requires
        i < referral_table().len(),
    ensures
        r.prefix@ == referral_table()[i as int].0,
        r.len as int == referral_table()[i as int].1,
{
    match i {
        0 => WhoisReferral { prefix: "whois:", len: 6 },
        1 => WhoisReferral { prefix: "Whois Server:", len: 14 },
        2 => WhoisReferral { prefix: "Registrar WHOIS Server:", len: 24 },
        3 => WhoisReferral { prefix: "ReferralServer:  whois://", len: 23 },
        4 => WhoisReferral { prefix: "ReferralServer:  rwhois://", len: 24 },
        _ => WhoisReferral { prefix: "descr:          region. Please query", len: 32 },
    }
}

/// Extracts the referral a response line announces: the host to query
/// next and the port to use, which defaults to the conventional port when
/// the line names none.
pub fn find_referral(line: &str) -> (r: Option<(String, String)>)
    ensures
        (match r {
            Some(hp) => find_referral_spec(line@) == Some((hp.0@, hp.1@)),
            None => find_referral_spec(line@) is None,
        }),
{
    let n = line.unicode_len();
    if strutil::str_eq(line, "netname:        ERX-NETBLOCK\n") || strutil::str_eq(
        line,
        "netname:        NON-RIPE-NCC-MANAGED-ADDRESS-BLOCK\n",
    ) {
        return Some((String::from_str("whois.arin.net"), String::from_str("43")));
    }
    let mut i: usize = 0;
    while i < 6
        invariant
            i <= 6,
            n == line@.len(),
            referral_table().len() == 6,
            line@ != "netname:        ERX-NETBLOCK\n"@,
            line@ != "netname:        NON-RIPE-NCC-MANAGED-ADDRESS-BLOCK\n"@,
            scan_referral_rules(line@, 0) == scan_referral_rules(line@, i as int),
        decreases 6 - i,
    {
        let entry = referral_entry(i);
        let ghost prefix = referral_table()[i as int].0;
        let ghost skip = referral_table()[i as int].1;
        match strutil::find_sub(line, entry.prefix) {
            Some(pos) => {
                if entry.len <= n && pos <= n - entry.len {
                    let j = strutil::skip_spaces(line, pos + entry.len);
                    let k = strutil::scan_host_chars(line, j);
                    if k > j {
                        assert(rule_referral(line@, prefix, skip) matches Some(hp) && hp.0
                            == line@.subrange(j as int, k as int));
                        let host = String::from_str(line.substring_char(j, k));
                        if k < n && line.get_char(k) == ':' {
                            let m = strutil::scan_digits(line, k + 1);
                            if m > k + 1 {
                                let port = String::from_str(line.substring_char(k + 1, m));
                                assert(rule_referral(line@, prefix, skip) == Some(
                                    (host@, port@),
                                ));
                                return Some((host, port));
                            }
                        }
                        assert(rule_referral(line@, prefix, skip) == Some(
                            (host@, default_port()),
                        ));
                        return Some((host, String::from_str("43")));
                    }
                    assert(rule_referral(line@, prefix, skip) is None);
                } else {
                    assert(rule_referral(line@, prefix, skip) is None);
                }
            },
            None => {
                assert(rule_referral(line@, prefix, skip) is None);
            },
        }
        assert(scan_referral_rules(line@, i as int) == scan_referral_rules(line@, i as int + 1));
        i = i + 1;
    }
    assert(scan_referral_rules(line@, 6) is None);
    None
}

} // verus!
