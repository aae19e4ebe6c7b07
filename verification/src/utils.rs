//! Query normalization: trimming, the host-character check, and the
//! ASCII-compatible (punycode) encoding of internationalized labels.

use vstd::prelude::*;

use crate::error::Error;
use crate::strutil;
use crate::strutil::{
    is_host_char_spec, is_host_seq, is_trim_char, last_space, lemma_host_char_not_trim,
    lemma_last_space_props, lemma_last_space_unique, lemma_trim_fixed, lemma_trim_spec_ends,
    trim_spec,
};

verus! {

/// The `idna` crate's opaque error value.
#[verifier::external_type_specification]
#[verifier::external_body]
pub struct ExIdnaErrors(idna::Errors);

/// What `idna::domain_to_ascii` returns for a given character sequence:
/// `Some` of the encoded form when UTS 46 processing succeeds, `None` when
/// it fails. The result is a function of the input characters alone.
pub uninterp spec fn ascii_encoding(s: Seq<char>) -> Option<Seq<char>>;

/// Relies on `idna::domain_to_ascii` for the ASCII-compatible encoding.
/// The added clauses hold of inputs made of host characters, where the
/// crate's UTS 46 processing copies or lower-cases ASCII labels and
/// re-encodes `xn--` labels canonically: the output is again made of host
/// characters, encoding it once more returns it unchanged, the label
/// structure is preserved (so a dot-free end stays dot-free), and an empty
/// input passes through.
#[verifier::external_body]
fn to_ascii(s: &str) -> (r: Result<String, idna::Errors>)
    ensures
        (match r {
            Ok(p) => {
                &&& ascii_encoding(s@) == Some(p@)
                &&& (s@.len() == 0 ==> p@.len() == 0)
                &&& (is_host_seq(s@) ==> is_host_seq(p@) && ascii_encoding(p@) == Some(p@))
                &&& (is_host_seq(s@) && s@.len() > 0 && s@[0] != '.' ==> p@.len() > 0 && p@[0]
                    != '.')
                &&& (is_host_seq(s@) && s@.len() > 0 && s@[s@.len() - 1] != '.' ==> p@.len() > 0
                    && p@[p@.len() - 1] != '.')
            },
            Err(_) => ascii_encoding(s@) is None && s@.len() > 0,
        }),
{
    idna::domain_to_ascii(s)
}

/// Checks if a character is a valid host character: an ASCII alphanumeric,
/// a period, or a hyphen.
pub fn is_host_char(h: char) -> (r: bool)
    ensures
        r == is_host_char_spec(h),
{
    strutil::host_char(h)
}

/// What normalization yields for `q`: the trimmed query is encoded whole,
/// or, in free-form mode when it contains a space, only the final word is
/// checked and encoded while the earlier words pass through untouched.
/// `None` means the query is rejected.
pub open spec fn normalize_spec(q: Seq<char>, free_form: bool) -> Option<Seq<char>> {
    let t = trim_spec(q);
    if free_form && t.contains(' ') {
        let k = last_space(t);
        let word = t.subrange(k + 1, t.len() as int);
        if is_host_seq(word) {
            match ascii_encoding(word) {
                Some(p) => Some(t.subrange(0, k + 1) + p),
                None => None,
            }
        } else {
            None
        }
    } else {
        if is_host_seq(t) {
            ascii_encoding(t)
        } else {
            None
        }
    }
}

/// Normalizes a query string: trims dots and whitespace from both ends,
/// rejects characters that cannot appear in a host name, and converts
/// internationalized labels to their ASCII-compatible form. With
/// `free_form` set, a query containing spaces is treated as an advanced
/// multi-word query: only the final word is checked and encoded.
///
/// Normalization is idempotent: running the result through the same call
/// again returns it unchanged.
pub fn normalize_query(query: &str, free_form: bool) -> (r: Result<String, Error>)
    ensures
        (match r {
            Ok(s) => normalize_spec(query@, free_form) == Some(s@) && normalize_spec(
                s@,
                free_form,
            ) == Some(s@),
            Err(e) => e == Error::InvalidDomain && normalize_spec(query@, free_form) is None,
        }),
        !free_form ==> (match r {
            Ok(s) => is_host_seq(s@),
            Err(_) => true,
        }),
        (match r {
            Ok(s) => s@.len() > 0 ==> s@[0] != '.' && s@[s@.len() - 1] != '.',
            Err(_) => true,
        }),
{
    let t = strutil::trim_host(query);
    proof {
        lemma_trim_spec_ends(query@);
    }
    if free_form && strutil::contains_char(t, ' ') {
        proof {
            lemma_last_space_props(t@);
        }
        let k = strutil::find_last_space(t);
        let n = t.unicode_len();
        let word = t.substring_char(k + 1, n);
        if !strutil::all_host_chars(word) {
            return Err(Error::InvalidDomain);
        }
        match to_ascii(word) {
            Ok(p) => {
                let prefix = t.substring_char(0, k + 1);
                let out = String::from_str(prefix).concat(p.as_str());
                proof {
                    lemma_normalized_free_form(query@, t@, k as int, p@, out@);
                }
                Ok(out)
            },
            Err(_) => Err(Error::InvalidDomain),
        }
    } else {
        if !strutil::all_host_chars(t) {
            return Err(Error::InvalidDomain);
        }
        match to_ascii(t) {
            Ok(p) => {
                proof {
                    lemma_normalized_strict(query@, t@, p@, free_form);
                }
                Ok(p)
            },
            Err(_) => Err(Error::InvalidDomain),
        }
    }
}

/// The encoded form of a whole trimmed query normalizes to itself.
proof fn lemma_normalized_strict(q: Seq<char>, t: Seq<char>, p: Seq<char>, free_form: bool)
    requires
        t == trim_spec(q),
        t.len() > 0 ==> !is_trim_char(t[0]) && !is_trim_char(t[t.len() - 1]),
        is_host_seq(t),
        ascii_encoding(t) == Some(p),
        is_host_seq(p),
        ascii_encoding(p) == Some(p),
        t.len() == 0 ==> p.len() == 0,
        t.len() > 0 && t[0] != '.' ==> p.len() > 0 && p[0] != '.',
        t.len() > 0 && t[t.len() - 1] != '.' ==> p.len() > 0 && p[p.len() - 1] != '.',
    ensures
        normalize_spec(q, free_form) == Some(p),
        normalize_spec(p, free_form) == Some(p),
        p.len() > 0 ==> p[0] != '.' && p[p.len() - 1] != '.',
{
    assert(normalize_spec(q, free_form) == Some(p));
    if p.len() > 0 {
        lemma_host_char_not_trim(p[0]);
        lemma_host_char_not_trim(p[p.len() - 1]);
    }
    lemma_trim_fixed(p);
    assert(!p.contains(' ')) by {
        if p.contains(' ') {
            let i = choose|i: int| 0 <= i < p.len() && p[i] == ' ';
            assert(is_host_char_spec(p[i]));
            assert(false);
        }
    }
    assert(normalize_spec(p, free_form) == Some(p));
}

/// The combination of an untouched multi-word prefix and the encoded final
/// word normalizes to itself in free-form mode.
proof fn lemma_normalized_free_form(q: Seq<char>, t: Seq<char>, k: int, p: Seq<char>, out: Seq<
    char,
>)
    requires
        t == trim_spec(q),
        t.len() > 0 ==> !is_trim_char(t[0]) && !is_trim_char(t[t.len() - 1]),
        t.contains(' '),
        k == last_space(t),
        0 <= k < t.len(),
        t[k] == ' ',
        forall|m: int| k < m < t.len() ==> t[m] != ' ',
        is_host_seq(t.subrange(k + 1, t.len() as int)),
        ascii_encoding(t.subrange(k + 1, t.len() as int)) == Some(p),
        is_host_seq(p),
        ascii_encoding(p) == Some(p),
        t.subrange(k + 1, t.len() as int).len() > 0 && t[t.len() - 1] != '.' ==> p.len() > 0
            && p[p.len() - 1] != '.',
        out == t.subrange(0, k + 1) + p,
    ensures
        normalize_spec(q, true) == Some(out),
        normalize_spec(out, true) == Some(out),
        out.len() > 0 ==> out[0] != '.' && out[out.len() - 1] != '.',
{
    let word = t.subrange(k + 1, t.len() as int);
    assert(word.len() > 0);
    assert(word[word.len() - 1] == t[t.len() - 1]);
    assert(t[t.len() - 1] != '.');
    assert(p.len() > 0 && p[p.len() - 1] != '.');
    assert(normalize_spec(q, true) == Some(out));
    // The combined value is already trimmed: it starts with the first
    // character of the trimmed query and ends with a host character that
    // is not a dot.
    assert(out[0] == t[0]);
    assert(out[out.len() - 1] == p[p.len() - 1]);
    lemma_host_char_not_trim(p[p.len() - 1]);
    lemma_trim_fixed(out);
    // The last space of the combined value is still at `k`: the encoded
    // word contributes only host characters.
    assert(out[k] == t[k]);
    assert(forall|m: int| k < m < out.len() ==> out[m] != ' ') by {
        assert forall|m: int| k < m < out.len() implies out[m] != ' ' by {
            if m < k + 1 {
            } else {
                assert(out[m] == p[m - (k + 1)]);
                assert(is_host_char_spec(p[m - (k + 1)]));
            }
        }
    }
    assert(out.contains(' ')) by {
        assert(out[k] == ' ');
    }
    lemma_last_space_unique(out, k);
    assert(out.subrange(k + 1, out.len() as int) =~= p);
    assert(out.subrange(0, k + 1) =~= t.subrange(0, k + 1));
    assert(normalize_spec(out, true) == Some(out));
}

/// Normalizes a domain string: trims dots and whitespace from both ends,
/// rejects any character that is not valid in a host name, and converts
/// internationalized labels to their ASCII-compatible form.
pub fn normalize_domain(domain: &str) -> (r: Result<String, Error>)
    ensures
        (match r {
            Ok(s) => normalize_spec(domain@, false) == Some(s@) && normalize_spec(s@, false)
                == Some(s@),
            Err(e) => e == Error::InvalidDomain && normalize_spec(domain@, false) is None,
        }),
        (match r {
            Ok(s) => is_host_seq(s@),
            Err(_) => true,
        }),
        (match r {
            Ok(s) => s@.len() > 0 ==> s@[0] != '.' && s@[s@.len() - 1] != '.',
            Err(_) => true,
        }),
{
    normalize_query(domain, false)
}

} // verus!
