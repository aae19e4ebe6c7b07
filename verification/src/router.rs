//! Server routing: mapping a normalized query to the initial lookup server
//! through a static ordered suffix table.

use vstd::prelude::*;

use crate::strutil;
use crate::strutil::is_suffix;

verus! {

/// One route: queries ending in `suffix` start at `server`.
#[derive(Debug, Clone, Copy)]
pub struct WhoisServer {
    pub suffix: &'static str,
    pub server: &'static str,
}

/// The ordered routing table: handle suffixes first, then the United
/// Kingdom academic and government domains, which get no referrals from
/// their registry, and last the catch-all entry for the IANA root server.
pub open spec fn route_table() -> Seq<(Seq<char>, Seq<char>)> {
    seq![
        ("-ARIN"@, "whois.arin.net"@),
        ("-NICAT"@, "at.whois-servers.net"@),
        ("-NORID"@, "no.whois-servers.net"@),
        ("-RIPE"@, "whois.ripe.net"@),
        (".ac.uk"@, "ac.uk.whois-servers.net"@),
        (".gov.uk"@, "ac.uk.whois-servers.net"@),
        (""@, "whois.iana.org"@),
    ]
}

/// The server of the first route at or after `i` whose suffix is a proper
/// suffix of `d`, or the IANA root server when none matches.
pub open spec fn route_lookup(d: Seq<char>, i: int) -> Seq<char>
    decreases route_table().len() - i,
{
    if !(0 <= i < route_table().len()) {
        "whois.iana.org"@
    } else if d.len() > route_table()[i].0.len() && is_suffix(route_table()[i].0, d) {
        route_table()[i].1
    } else {
        route_lookup(d, i + 1)
    }
}

/// The initial server for a query: the first matching route's server, and
/// the IANA root server when no route matches.
pub open spec fn choose_server_spec(d: Seq<char>) -> Seq<char> {
    route_lookup(d, 0)
}

/// The route at position `i` of the table.
pub fn route_entry(i: usize) -> (r: WhoisServer)
    requires
        i < route_table().len(),
    ensures
        r.suffix@ == route_table()[i as int].0,
        r.server@ == route_table()[i as int].1,
{
    match i {
        0 => WhoisServer { suffix: "-ARIN", server: "whois.arin.net" },
        1 => WhoisServer { suffix: "-NICAT", server: "at.whois-servers.net" },
        2 => WhoisServer { suffix: "-NORID", server: "no.whois-servers.net" },
        3 => WhoisServer { suffix: "-RIPE", server: "whois.ripe.net" },
        4 => WhoisServer { suffix: ".ac.uk", server: "ac.uk.whois-servers.net" },
        5 => WhoisServer { suffix: ".gov.uk", server: "ac.uk.whois-servers.net" },
        _ => WhoisServer { suffix: "", server: "whois.iana.org" },
    }
}

/// Chooses the initial lookup server for a domain. Total: every domain is
/// mapped to a server, with the IANA root server as the default.
pub fn choose_server(domain: &str) -> (r: &'static str)
    ensures
        r@ == choose_server_spec(domain@),
{
    let n = domain.unicode_len();
    let mut i: usize = 0;
    while i < 7
        invariant
            i <= 7,
            n == domain@.len(),
            route_table().len() == 7,
            choose_server_spec(domain@) == route_lookup(domain@, i as int),
        decreases 7 - i,
    {
        let entry = route_entry(i);
        let m = entry.suffix.unicode_len();
        if n > m && strutil::ends_with(domain, entry.suffix) {
            assert(route_lookup(domain@, i as int) == entry.server@);
            return entry.server;
        }
        assert(route_lookup(domain@, i as int) == route_lookup(domain@, i as int + 1));
        i = i + 1;
    }
    "whois.iana.org"
}

/// A handle ending in `-ARIN` and longer than the suffix itself is routed
/// to the ARIN server: the suffix stands first in the table.
pub proof fn lemma_choose_server_arin(d: Seq<char>)
    requires
        d.len() > 5,
        is_suffix("-ARIN"@, d),
    ensures
        choose_server_spec(d) == "whois.arin.net"@,
{
    reveal_strlit("-ARIN");
}

/// A nonempty domain matched by no proper route is routed to the IANA
/// root server, through the catch-all entry.
pub proof fn lemma_choose_server_default(d: Seq<char>)
    requires
        forall|i: int|
            0 <= i < 6 ==> !(d.len() > route_table()[i].0.len() && is_suffix(
                #[trigger] route_table()[i].0,
                d,
            )),
    ensures
        choose_server_spec(d) == "whois.iana.org"@,
{
    reveal_strlit("");
    assert(route_lookup(d, 7) == "whois.iana.org"@);
    if d.len() > 0 {
        assert(is_suffix(""@, d)) by {
            assert(d.subrange(d.len() as int, d.len() as int) =~= ""@);
        }
        assert(route_lookup(d, 6) == route_table()[6].1);
    } else {
        assert(route_lookup(d, 6) == route_lookup(d, 7));
    }
    assert(route_lookup(d, 0) == route_lookup(d, 1));
    assert(route_lookup(d, 1) == route_lookup(d, 2));
    assert(route_lookup(d, 2) == route_lookup(d, 3));
    assert(route_lookup(d, 3) == route_lookup(d, 4));
    assert(route_lookup(d, 4) == route_lookup(d, 5));
    assert(route_lookup(d, 5) == route_lookup(d, 6));
}

/// The chosen server is always a server of the table: the router never
/// fails and never invents a host.
pub proof fn lemma_choose_server_total(d: Seq<char>)
    ensures
        exists|i: int|
            0 <= i < route_table().len() && choose_server_spec(d) == #[trigger] route_table()[i].1,
{
    lemma_route_lookup_in_table(d, 0);
}

proof fn lemma_route_lookup_in_table(d: Seq<char>, i: int)
    requires
        0 <= i <= route_table().len(),
    ensures
        exists|j: int|
            0 <= j < route_table().len() && route_lookup(d, i) == #[trigger] route_table()[j].1,
    decreases route_table().len() - i,
{
    if i < route_table().len() {
        if d.len() > route_table()[i].0.len() && is_suffix(route_table()[i].0, d) {
            assert(route_lookup(d, i) == route_table()[i].1);
        } else {
            lemma_route_lookup_in_table(d, i + 1);
        }
    } else {
        assert(route_lookup(d, i) == "whois.iana.org"@);
        assert(route_table()[6].1 == "whois.iana.org"@);
    }
}

} // verus!
