//! The disclaimer filter: a small state machine that decides, line by
//! line, which parts of a server response are boilerplate legal text to
//! suppress.

use vstd::prelude::*;

use crate::strutil;
use crate::strutil::is_prefix;

verus! {

/// The filter's state between lines.
#[derive(Debug, Clone, Copy, PartialEq, Eq, Structural)]
pub enum HideState {
    /// No disclaimer block is open; lines are shown.
    NotStarted,
    /// Filtering is switched off entirely; every line is shown.
    Disabled,
    /// A block with no end marker was entered; every further line is
    /// hidden.
    ToEnd,
    /// Inside the block opened by the rule at this table index.
    InBlock(usize),
}

/// One disclaimer rule: a block begins at a line starting with `start`.
/// `end` of `None` hides everything to the end of the stream; an empty
/// end marker hides until a blank line, and that blank line is hidden
/// with the block; any other end marker ends the block at the first line
/// starting with that text, and that closing line is shown. Either way
/// the machine returns to `NotStarted`.
#[derive(Debug)]
pub struct DisclaimerRule {
    pub start: String,
    pub end: Option<String>,
}

/// The rule as a pair of its start marker and optional end marker.
pub open spec fn rule_view(r: DisclaimerRule) -> (Seq<char>, Option<Seq<char>>) {
    (
        r.start@,
        match r.end {
            Some(e) => Some(e@),
            None => None,
        },
    )
}

/// The views of a whole rule table.
pub open spec fn rules_view(rs: Seq<DisclaimerRule>) -> Seq<(Seq<char>, Option<Seq<char>>)> {
    rs.map_values(|r: DisclaimerRule| rule_view(r))
}

/// A line with nothing visible on it: empty, or carriage returns and
/// newlines only.
pub open spec fn is_blank_line(s: Seq<char>) -> bool {
    forall|i: int| 0 <= i < s.len() ==> s[i] == '\r' || s[i] == '\n'
}

/// Scans the rule table from position `i` for the first rule whose start
/// marker is a prefix of `line`; entering a block hides the line.
pub open spec fn scan_start(
    rules: Seq<(Seq<char>, Option<Seq<char>>)>,
    line: Seq<char>,
    i: int,
) -> (HideState, bool)
    decreases rules.len() - i,
{
    if !(0 <= i < rules.len()) {
        (HideState::NotStarted, false)
    } else if is_prefix(rules[i].0, line) {
        match rules[i].1 {
            None => (HideState::ToEnd, true),
            Some(_) => (HideState::InBlock(i as usize), true),
        }
    } else {
        scan_start(rules, line, i + 1)
    }
}

/// One step of the filter: from the state before a line to the state
/// after it, with `true` when the line is hidden. Inside a block a line
/// is hidden unless it starts with the block's text end-marker: that
/// closing line is shown. A blank line closing an empty-marker block is
/// hidden with the block.
pub open spec fn hide_step(
    rules: Seq<(Seq<char>, Option<Seq<char>>)>,
    st: HideState,
    line: Seq<char>,
) -> (HideState, bool) {
    match st {
        HideState::Disabled => (HideState::Disabled, false),
        HideState::ToEnd => (HideState::ToEnd, true),
        HideState::NotStarted => scan_start(rules, line, 0),
        HideState::InBlock(i) => {
            if i < rules.len() && rules[i as int].1 is Some {
                let e = rules[i as int].1->0;
                if e.len() == 0 {
                    if is_blank_line(line) {
                        (HideState::NotStarted, true)
                    } else {
                        (HideState::InBlock(i), true)
                    }
                } else {
                    if is_prefix(e, line) {
                        (HideState::NotStarted, false)
                    } else {
                        (HideState::InBlock(i), true)
                    }
                }
            } else {
                (HideState::InBlock(i), true)
            }
        },
    }
}

/// A filter state fits a rule table when a block index points at a rule
/// of the table that has an end marker.
pub open spec fn state_fits(rules: Seq<(Seq<char>, Option<Seq<char>>)>, st: HideState) -> bool {
    match st {
        HideState::InBlock(i) => i < rules.len() && rules[i as int].1 is Some,
        _ => true,
    }
}

/// Stepping a state that fits the table yields a state that fits the
/// table: the filter cannot reach a dangling block index.
pub proof fn lemma_hide_step_fits(
    rules: Seq<(Seq<char>, Option<Seq<char>>)>,
    st: HideState,
    line: Seq<char>,
)
    requires
        rules.len() <= usize::MAX,
        state_fits(rules, st),
    ensures
        state_fits(rules, hide_step(rules, st, line).0),
{
    if st is NotStarted {
        lemma_scan_start_fits(rules, line, 0);
    }
}

proof fn lemma_scan_start_fits(
    rules: Seq<(Seq<char>, Option<Seq<char>>)>,
    line: Seq<char>,
    i: int,
)
    requires
        0 <= i,
        rules.len() <= usize::MAX,
    ensures
        state_fits(rules, scan_start(rules, line, i).0),
    decreases rules.len() - i,
{
    if 0 <= i < rules.len() && !is_prefix(rules[i].0, line) {
        lemma_scan_start_fits(rules, line, i + 1);
    }
}

/// Decides whether a line is blank: empty, or carriage returns and
/// newlines only.
pub fn blank_line(s: &str) -> (r: bool)
    ensures
        r == is_blank_line(s@),
{
    let n = s.unicode_len();
    let mut i: usize = 0;
    while i < n
        invariant
            i <= n,
            n == s@.len(),
            forall|j: int| 0 <= j < i ==> s@[j] == '\r' || s@[j] == '\n',
        decreases n - i,
    {
        let c = s.get_char(i);
        if c != '\r' && c != '\n' {
            return false;
        }
        i = i + 1;
    }
    true
}

/// Runs one line through the filter under the given rule table: updates
/// the state in place and returns whether the line is hidden.
pub fn filter_line(rules: &Vec<DisclaimerRule>, hide: &mut HideState, line: &str) -> (r: bool)
    ensures
        *final(hide) == hide_step(rules_view(rules@), *old(hide), line@).0,
        r == hide_step(rules_view(rules@), *old(hide), line@).1,
{
    let ghost rv = rules_view(rules@);
    match *hide {
        HideState::Disabled => false,
        HideState::ToEnd => true,
        HideState::NotStarted => {
            assert(*old(hide) == HideState::NotStarted);
            assert(hide_step(rules_view(rules@), *old(hide), line@) == scan_start(
                rules_view(rules@),
                line@,
                0,
            ));
            let n = rules.len();
            let mut i: usize = 0;
            while i < n
                invariant
                    i <= n,
                    n == rules@.len(),
                    rv == rules_view(rules@),
                    rv.len() == n,
                    *hide == HideState::NotStarted,
                    *old(hide) == HideState::NotStarted,
                    scan_start(rv, line@, 0) == scan_start(rv, line@, i as int),
                decreases n - i,
            {
                assert(rv[i as int] == rule_view(rules@[i as int]));
                if strutil::starts_with(line, rules[i].start.as_str()) {
                    assert(is_prefix(rv[i as int].0, line@));
                    match &rules[i].end {
                        None => {
                            assert(rv[i as int].1 is None);
                            assert(scan_start(rv, line@, i as int) == (HideState::ToEnd, true));
                            *hide = HideState::ToEnd;
                        },
                        Some(_) => {
                            assert(rv[i as int].1 is Some);
                            assert(scan_start(rv, line@, i as int) == (
                                HideState::InBlock(i),
                                true,
                            ));
                            *hide = HideState::InBlock(i);
                        },
                    }
                    return true;
                }
                assert(scan_start(rv, line@, i as int) == scan_start(rv, line@, i as int + 1));
                i = i + 1;
            }
            false
        },
        HideState::InBlock(i) => {
            proof {
                assert(i < rules@.len() ==> rv[i as int] == rule_view(rules@[i as int]));
            }
            if i < rules.len() {
                match &rules[i].end {
                    Some(e) => {
                        if e.unicode_len() == 0 {
                            if blank_line(line) {
                                *hide = HideState::NotStarted;
                            }
                            true
                        } else {
                            if strutil::starts_with(line, e.as_str()) {
                                *hide = HideState::NotStarted;
                                false
                            } else {
                                true
                            }
                        }
                    },
                    None => true,
                }
            } else {
                true
            }
        },
    }
}

/// The built-in disclaimer table, in scan order.
pub open spec fn hide_rules() -> Seq<(Seq<char>, Option<Seq<char>>)> {
    seq![
        to_end("The data in Networksolutions.com's WHOIS database"@),
        to_end("TERMS OF USE: You are not authorized"@),
        to_end("The data in Register.com's WHOIS database"@),
        to_end("The Data in the Tucows Registrar WHOIS database"@),
        to_end("TERMS OF USE: The Data in Gabia' WHOIS"@),
        to_end("The data contained in GoDaddy.com"@),
        to_end("Personal data access and use are governed by French"@),
        to_end("The data in this whois database is provided to you"@),
        to_end("Please register your domains at; http://www."@),
        to_end("%% NOTICE: Access to this information is provided"@),
        to_end("NOTICE: Access to the domain name's information"@),
        to_end("NOTICE: The expiration date"@),
        to_end("The Data in MarkMonitor.com's"@),
        until("Corporation Service Company(c) (CSC)  The Trusted Partner"@, "Register your domain name at"@),
        to_end("The data in Networksolutions.com's"@),
        until("# Welcome to the OVH WHOIS Server"@, ""@),
        to_end("TERMS OF USE OF MELBOURNE IT WHOIS DATABASE"@),
        to_end("The data contained in this Registrar's Whois"@),
        to_end("The data in the FastDomain Inc. WHOIS database"@),
        to_end("Access to WHOIS information is provided"@),
        until("This Registry database contains ONLY .EDU"@, "domain names."@),
        to_end("Access to AFILIAS WHOIS information is provided"@),
        to_end("Access to Public Interest Registry WHOIS information"@),
        to_end("Telnames Limited, the Registry Operator for"@),
        to_end("Tralliance, Inc., the Registry Operator for .travel"@),
        to_end("The data in this record is provided by"@),
        to_end("Terms of Use: Donuts Inc. provides"@),
        to_end("Access to WHOIS information is provided"@),
        to_end("TERMS OF USE: You  are  not  authorized"@),
        until("The Whois and RDAP services are provided by CentralNic"@, ""@),
        to_end(".Club Domains, LLC, the Registry Operator"@),
        to_end("% Except for agreed Internet operational purposes"@),
        to_end("TERMS OF USE: The information in the Whois database"@),
        to_end("The WHOIS service offered by Neustar, Inc, on behalf"@),
        to_end("The WHOIS service offered by the Registry Operator"@),
        until("Access to CCTLD WHOIS information is provided"@, ""@),
        to_end("This WHOIS information is provided"@),
        until("% The WHOIS service offered by DNS Belgium"@, ""@),
        to_end(".CO Internet, S.A.S., the Administrator"@),
        until("%  *The information provided"@, "% https://www.nic.cr/iniciar-sesion/?next=/mi-cuenta/"@),
        until("% The WHOIS service offered by EURid"@, "% of the database"@),
        to_end("Access to .IN WHOIS information"@),
        to_end("access to .in whois information"@),
        to_end("% Use of CIRA's WHOIS service is governed by the Terms of Use in its Legal"@),
        until("The Service is provided so that you may look"@, "We may discontinue"@),
        to_end("NeuStar, Inc., the Registry Administrator for .US"@),
        to_end("Web-based WHOIS"@),
        to_end("If you wish"@),
        to_end("For more information on Whois"@),
        to_end("If you have"@),
        to_end("The data in"@),
    ]
}

/// A rule that hides to the end of the stream.
pub open spec fn to_end(s: Seq<char>) -> (Seq<char>, Option<Seq<char>>) {
    (s, None)
}

/// A rule that hides until its end marker; the empty marker means a blank
/// line.
pub open spec fn until(s: Seq<char>, e: Seq<char>) -> (Seq<char>, Option<Seq<char>>) {
    (s, Some(e))
}

/// Builds a rule that hides to the end of the stream.
fn rule_to_end(s: &str) -> (r: DisclaimerRule)
    ensures
        rule_view(r) == to_end(s@),
{
    DisclaimerRule { start: String::from_str(s), end: None }
}

/// Builds a rule that hides until its end marker.
fn rule_until(s: &str, e: &str) -> (r: DisclaimerRule)
    ensures
        rule_view(r) == until(s@, e@),
{
    DisclaimerRule { start: String::from_str(s), end: Some(String::from_str(e)) }
}

/// The built-in rule at position `i` of the table.
fn hide_rule(i: usize) -> (r: DisclaimerRule)
    requires
        i < hide_rules().len(),
    ensures
        rule_view(r) == hide_rules()[i as int],
{
    match i {
        0 => rule_to_end("The data in Networksolutions.com's WHOIS database"),
        1 => rule_to_end("TERMS OF USE: You are not authorized"),
        2 => rule_to_end("The data in Register.com's WHOIS database"),
        3 => rule_to_end("The Data in the Tucows Registrar WHOIS database"),
        4 => rule_to_end("TERMS OF USE: The Data in Gabia' WHOIS"),
        5 => rule_to_end("The data contained in GoDaddy.com"),
        6 => rule_to_end("Personal data access and use are governed by French"),
        7 => rule_to_end("The data in this whois database is provided to you"),
        8 => rule_to_end("Please register your domains at; http://www."),
        9 => rule_to_end("%% NOTICE: Access to this information is provided"),
        10 => rule_to_end("NOTICE: Access to the domain name's information"),
        11 => rule_to_end("NOTICE: The expiration date"),
        12 => rule_to_end("The Data in MarkMonitor.com's"),
        13 => rule_until("Corporation Service Company(c) (CSC)  The Trusted Partner", "Register your domain name at"),
        14 => rule_to_end("The data in Networksolutions.com's"),
        15 => rule_until("# Welcome to the OVH WHOIS Server", ""),
        16 => rule_to_end("TERMS OF USE OF MELBOURNE IT WHOIS DATABASE"),
        17 => rule_to_end("The data contained in this Registrar's Whois"),
        18 => rule_to_end("The data in the FastDomain Inc. WHOIS database"),
        19 => rule_to_end("Access to WHOIS information is provided"),
        20 => rule_until("This Registry database contains ONLY .EDU", "domain names."),
        21 => rule_to_end("Access to AFILIAS WHOIS information is provided"),
        22 => rule_to_end("Access to Public Interest Registry WHOIS information"),
        23 => rule_to_end("Telnames Limited, the Registry Operator for"),
        24 => rule_to_end("Tralliance, Inc., the Registry Operator for .travel"),
        25 => rule_to_end("The data in this record is provided by"),
        26 => rule_to_end("Terms of Use: Donuts Inc. provides"),
        27 => rule_to_end("Access to WHOIS information is provided"),
        28 => rule_to_end("TERMS OF USE: You  are  not  authorized"),
        29 => rule_until("The Whois and RDAP services are provided by CentralNic", ""),
        30 => rule_to_end(".Club Domains, LLC, the Registry Operator"),
        31 => rule_to_end("% Except for agreed Internet operational purposes"),
        32 => rule_to_end("TERMS OF USE: The information in the Whois database"),
        33 => rule_to_end("The WHOIS service offered by Neustar, Inc, on behalf"),
        34 => rule_to_end("The WHOIS service offered by the Registry Operator"),
        35 => rule_until("Access to CCTLD WHOIS information is provided", ""),
        36 => rule_to_end("This WHOIS information is provided"),
        37 => rule_until("% The WHOIS service offered by DNS Belgium", ""),
        38 => rule_to_end(".CO Internet, S.A.S., the Administrator"),
        39 => rule_until("%  *The information provided", "% https://www.nic.cr/iniciar-sesion/?next=/mi-cuenta/"),
        40 => rule_until("% The WHOIS service offered by EURid", "% of the database"),
        41 => rule_to_end("Access to .IN WHOIS information"),
        42 => rule_to_end("access to .in whois information"),
        43 => rule_to_end("% Use of CIRA's WHOIS service is governed by the Terms of Use in its Legal"),
        44 => rule_until("The Service is provided so that you may look", "We may discontinue"),
        45 => rule_to_end("NeuStar, Inc., the Registry Administrator for .US"),
        46 => rule_to_end("Web-based WHOIS"),
        47 => rule_to_end("If you wish"),
        48 => rule_to_end("For more information on Whois"),
        49 => rule_to_end("If you have"),
        _ => rule_to_end("The data in"),
    }
}

/// Builds the built-in disclaimer table.
pub fn default_hide_rules() -> (v: Vec<DisclaimerRule>)
    ensures
        rules_view(v@) == hide_rules(),
{
    let mut v: Vec<DisclaimerRule> = Vec::new();
    let mut i: usize = 0;
    while i < 51
        invariant
            i <= 51,
            hide_rules().len() == 51,
            v@.len() == i,
            rules_view(v@) =~= hide_rules().subrange(0, i as int),
        decreases 51 - i,
    {
        v.push(hide_rule(i));
        assert(rules_view(v@) =~= hide_rules().subrange(0, i as int + 1));
        i = i + 1;
    }
    assert(rules_view(v@) =~= hide_rules());
    v
}

/// Runs one line through the filter under the built-in rule table.
pub fn hide_line(hide: &mut HideState, line: &str) -> (r: bool)
    ensures
        *final(hide) == hide_step(hide_rules(), *old(hide), line@).0,
        r == hide_step(hide_rules(), *old(hide), line@).1,
{
    let rules = default_hide_rules();
    filter_line(&rules, hide, line)
}

} // verus!
