use huiz::chase::process_response;
use huiz::format::prepare_query;
use huiz::router::choose_server;
use huiz::scan::find_referral;
use huiz::{whois, ChaseStep, Chaser, Error, MAX_HOPS, WHOIS_RECURSE, WHOIS_SPAM_ME};

fn lines(v: &[&str]) -> Vec<String> {
    v.iter().map(|s| s.to_string()).collect()
}

#[test]
fn choose_server_arin_handle() {
    assert_eq!(choose_server("NET-192-0-2-0-1-ARIN"), "whois.arin.net");
}

#[test]
fn choose_server_suffix_must_be_proper() {
    // The whole query equal to the suffix is not routed by it.
    assert_eq!(choose_server("-ARIN"), "whois.iana.org");
}

#[test]
fn choose_server_default_is_iana() {
    assert_eq!(choose_server("example.com"), "whois.iana.org");
    assert_eq!(choose_server(""), "whois.iana.org");
}

#[test]
fn choose_server_uk_academic() {
    assert_eq!(choose_server("cam.ac.uk"), "ac.uk.whois-servers.net");
    assert_eq!(choose_server("hmrc.gov.uk"), "ac.uk.whois-servers.net");
}

#[test]
fn prepare_query_arin_as_number() {
    assert_eq!(prepare_query("AS1234", 0, "whois.arin.net"), "+ a 1234\n");
    assert_eq!(prepare_query("AS12x4", 0, "whois.arin.net"), "+ AS12x4\n");
    assert_eq!(prepare_query("example.com", 0, "whois.arin.net"), "+ example.com\n");
}

#[test]
fn prepare_query_registry_rewrites() {
    assert_eq!(prepare_query("example.com", 0, "whois.verisign-grs.com"), "domain example.com\n");
    assert_eq!(prepare_query("example.com", 0, "WHOIS.VERISIGN-GRS.COM"), "domain example.com\n");
    assert_eq!(prepare_query("example.de", 0, "whois.denic.de"), "-T dn,ace example.de\n");
    assert_eq!(prepare_query("müller.de", 0, "whois.denic.de"), "-T dn müller.de\n");
    assert_eq!(
        prepare_query("example.dk", 0, "whois.dk-hostmaster.dk"),
        "--show-handles example.dk\n"
    );
    assert_eq!(prepare_query("example.jp", 0, "whois.nic.ad.jp"), "example.jp/e\n");
}

#[test]
fn prepare_query_passthrough() {
    assert_eq!(prepare_query("example.com", 0, "whois.example.org"), "example.com\n");
    assert_eq!(prepare_query("two words", 0, "whois.verisign-grs.com"), "two words\n");
    assert_eq!(
        prepare_query("example.com", WHOIS_SPAM_ME, "whois.verisign-grs.com"),
        "example.com\n"
    );
}

#[test]
fn referral_with_port() {
    let r = find_referral("whois: rwhois.example.net:4321\n").unwrap();
    assert_eq!(r.0, "rwhois.example.net");
    assert_eq!(r.1, "4321");
}

#[test]
fn referral_colon_without_digits_keeps_default_port() {
    let r = find_referral("whois: host.example.com:\n").unwrap();
    assert_eq!(r.0, "host.example.com");
    assert_eq!(r.1, "43");
}

#[test]
fn referral_registry_server_line() {
    let r = find_referral("Whois Server: whois.verisign-grs.com\n").unwrap();
    assert_eq!(r.0, "whois.verisign-grs.com");
    assert_eq!(r.1, "43");
}

#[test]
fn referral_netblock_marker_forces_arin() {
    let r = find_referral("netname:        ERX-NETBLOCK\n").unwrap();
    assert_eq!(r.0, "whois.arin.net");
    assert_eq!(r.1, "43");
}

#[test]
fn referral_absent() {
    assert_eq!(find_referral("Domain Name: EXAMPLE.COM\n"), None);
}

#[test]
fn referral_scheme_line_extracts_nothing() {
    // The skip length of the scheme rules lands on the slashes, so these
    // lines yield no host token.
    assert_eq!(find_referral("ReferralServer:  whois://example.net\n"), None);
}

#[test]
fn process_response_filters_disclaimers() {
    let ls = lines(&[
        "Domain Name: EXAMPLE.COM\n",
        "TERMS OF USE: You are not authorized to access this database\n",
        "all of this is boilerplate\n",
    ]);
    let w = process_response(&ls, 0);
    assert_eq!(w.raw, "Domain Name: EXAMPLE.COM\n");
    assert_eq!(w.referral, None);
    assert_eq!(w.referral_port, None);
}

#[test]
fn process_response_bypass_keeps_everything() {
    let ls = lines(&[
        "Domain Name: EXAMPLE.COM\n",
        "TERMS OF USE: You are not authorized to access this database\n",
    ]);
    let w = process_response(&ls, WHOIS_SPAM_ME);
    assert_eq!(
        w.raw,
        "Domain Name: EXAMPLE.COM\nTERMS OF USE: You are not authorized to access this database\n"
    );
}

#[test]
fn process_response_first_referral_wins() {
    let ls = lines(&[
        "Whois Server: first.example\n",
        "Whois Server: second.example\n",
    ]);
    let w = process_response(&ls, WHOIS_SPAM_ME);
    assert_eq!(w.referral.unwrap(), "first.example");
    assert_eq!(w.referral_port.unwrap(), "43");
}

#[test]
fn end_to_end_referral_to_registry() {
    let chaser = whois("example.com").unwrap();
    assert_eq!(chaser.host, "whois.iana.org");
    assert_eq!(chaser.port, "43");
    assert_eq!(chaser.domain, "example.com");
    let resp = lines(&["Whois Server: whois.verisign-grs.com\n"]);
    match chaser.on_response(&resp) {
        ChaseStep::Next(c) => {
            assert_eq!(c.host, "whois.verisign-grs.com");
            assert_eq!(c.port, "43");
            assert_eq!(c.chain.len(), 1);
        }
        ChaseStep::Done(_) => panic!("expected a next hop"),
    }
}

#[test]
fn connect_failure_on_second_hop_returns_partial_chain() {
    let chaser = whois("example.com").unwrap();
    let resp = lines(&["Whois Server: whois.verisign-grs.com\n"]);
    let next = match chaser.on_response(&resp) {
        ChaseStep::Next(c) => c,
        ChaseStep::Done(_) => panic!("expected a next hop"),
    };
    let res = next.on_connect_failed().unwrap();
    assert_eq!(res.chain.len(), 1);
    assert_eq!(res.query, "example.com");
}

#[test]
fn connect_failure_on_first_hop_is_an_error() {
    let chaser = whois("example.com").unwrap();
    assert_eq!(chaser.on_connect_failed().unwrap_err(), Error::NoConnection);
}

#[test]
fn two_node_referral_cycle_terminates() {
    let mut chaser = Chaser::start("example.com", WHOIS_RECURSE, false).unwrap();
    let mut responses = 0;
    loop {
        let resp = if chaser.host == "host-a.example" {
            lines(&["Whois Server: host-b.example\n"])
        } else {
            lines(&["Whois Server: host-a.example\n"])
        };
        responses += 1;
        assert!(responses <= MAX_HOPS);
        match chaser.on_response(&resp) {
            ChaseStep::Next(c) => chaser = c,
            ChaseStep::Done(res) => {
                assert_eq!(res.chain.len(), MAX_HOPS);
                return;
            }
        }
    }
}

#[test]
fn self_referral_stops() {
    let chaser = whois("example.com").unwrap();
    let resp = lines(&["Whois Server: whois.iana.org\n"]);
    match chaser.on_response(&resp) {
        ChaseStep::Next(_) => panic!("a self-referral must end the lookup"),
        ChaseStep::Done(res) => {
            assert_eq!(res.chain.len(), 1);
            assert_eq!(res.chain[0].referral.as_deref(), Some("whois.iana.org"));
        }
    }
}

#[test]
fn without_recurse_only_first_hop() {
    let chaser = Chaser::start("example.com", 0, false).unwrap();
    let resp = lines(&["Whois Server: whois.verisign-grs.com\n"]);
    match chaser.on_response(&resp) {
        ChaseStep::Next(_) => panic!("referrals must not be followed without the recurse flag"),
        ChaseStep::Done(res) => assert_eq!(res.chain.len(), 1),
    }
}

#[test]
fn no_referral_stops() {
    let chaser = whois("example.com").unwrap();
    let resp = lines(&["Domain Name: EXAMPLE.COM\n"]);
    match chaser.on_response(&resp) {
        ChaseStep::Next(_) => panic!("no referral must end the lookup"),
        ChaseStep::Done(res) => {
            assert_eq!(res.chain.len(), 1);
            assert_eq!(res.chain[0].raw, "Domain Name: EXAMPLE.COM\n");
            assert_eq!(res.chain[0].referral, None);
        }
    }
}

#[test]
fn fatal_mid_stream_errors_discard_chain() {
    let chaser = whois("example.com").unwrap();
    assert_eq!(chaser.on_invalid_response().unwrap_err(), Error::InternalError);
    let chaser = whois("example.com").unwrap();
    assert_eq!(chaser.on_stream_error().unwrap_err(), Error::TcpStreamError);
}

#[test]
fn start_normalizes_but_keeps_query() {
    let chaser = Chaser::start("  ExAmple.Com. ", WHOIS_RECURSE, false).unwrap();
    assert_eq!(chaser.query, "  ExAmple.Com. ");
    assert_eq!(chaser.domain, "example.com");
    assert_eq!(Chaser::start("exa mple.com", 0, false).unwrap_err(), Error::InvalidDomain);
}

#[test]
fn wire_query_for_current_target() {
    let chaser = Chaser::start("example.com", WHOIS_RECURSE, false).unwrap();
    assert_eq!(chaser.wire_query(), "example.com\n");
    let resp = lines(&["Whois Server: whois.verisign-grs.com\n"]);
    match chaser.on_response(&resp) {
        ChaseStep::Next(c) => assert_eq!(c.wire_query(), "domain example.com\n"),
        ChaseStep::Done(_) => panic!("expected a next hop"),
    }
}

#[test]
fn error_messages() {
    assert_eq!(Error::InvalidDomain.message(), "Invalid domain");
    assert_eq!(Error::InternalError.message(), "InternalError");
    assert_eq!(Error::NoConnection.message(), "NoConnection");
    assert_eq!(Error::TcpStreamError.message(), "TcpStreamError");
}

#[test]
fn query_with_explicit_server() {
    let chaser = huiz::query("Example.com", "whois.example.net", "4343", WHOIS_RECURSE).unwrap();
    assert_eq!(chaser.host, "whois.example.net");
    assert_eq!(chaser.port, "4343");
    assert_eq!(chaser.domain, "example.com");
    assert_eq!(chaser.query, "Example.com");
}
