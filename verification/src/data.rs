//! Lookup flags and shared protocol constants.

use vstd::prelude::*;

verus! {

/// Follow referrals from hop to hop; without it only the first hop's
/// result is returned.
pub const WHOIS_RECURSE: u8 = 0x01;

/// Reserved for a quick mode; it has no behavioral effect.
pub const WHOIS_QUICK: u8 = 0x02;

/// Bypass the disclaimer filter, and skip the destination-specific query
/// rewrites that only apply in filtered mode.
pub const WHOIS_SPAM_ME: u8 = 0x04;

/// The ceiling on hops in one lookup: a chain never grows beyond this
/// many entries, so referral cycles cannot loop forever.
pub const MAX_HOPS: usize = 8;

/// The conventional lookup port.
pub open spec fn default_port() -> Seq<char> {
    "43"@
}

/// The IP registry host that shared-netblock markers force a referral to.
pub open spec fn arin_host() -> Seq<char> {
    "whois.arin.net"@
}

} // verus!
