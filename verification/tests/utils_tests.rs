use huiz::utils::{is_host_char, normalize_domain, normalize_query};
use huiz::Error;

#[test]
fn test_valid_host_characters() {
    assert_eq!(is_host_char('a'), true);
    assert_eq!(is_host_char('A'), true);
    assert_eq!(is_host_char('1'), true);
    assert_eq!(is_host_char('.'), true);
    assert_eq!(is_host_char('-'), true);
}

#[test]
fn test_invalid_host_characters() {
    assert_eq!(is_host_char('@'), false);
    assert_eq!(is_host_char(' '), false);
    assert_eq!(is_host_char('_'), false);
}

#[test]
fn test_normalize_domain_trailing_characters() {
    let domain = "example.com.";
    let normalized = normalize_domain(domain).unwrap();
    assert_eq!(normalized, "example.com");
}

#[test]
fn test_normalize_domain_whitespace_characters() {
    let domain = "   example.com.  ";
    let normalized = normalize_domain(domain).unwrap();
    assert_eq!(normalized, "example.com");
}

#[test]
fn test_normalize_domain_spaces_in_domain() {
    let domain = "example domain";
    let result = normalize_domain(domain);
    assert!(result.is_err());
}

#[test]
fn test_normalize_domain_invalid_domain() {
    let domain = "example@domain.com";
    let result = normalize_domain(domain);
    assert!(result.is_err());
}

#[test]
fn normalize_trim_forms_agree() {
    let a = normalize_domain("example.com.").unwrap();
    let b = normalize_domain("  example.com.  ").unwrap();
    assert_eq!(a, "example.com");
    assert_eq!(b, "example.com");
    assert_eq!(a, b);
}

#[test]
fn normalize_spaces_rejected_unless_free_form() {
    assert_eq!(normalize_query("exa mple.com", false), Err(Error::InvalidDomain));
    assert_eq!(normalize_query("exa mple.com", true).unwrap(), "exa mple.com");
}

#[test]
fn normalize_is_idempotent_on_examples() {
    for q in ["example.com.", "  ExAmple.Com  ", "xn--bcher-kva.de", "a-b.c--d.net", "tikhop.com"]
    {
        let once = normalize_domain(q).unwrap();
        let twice = normalize_domain(&once).unwrap();
        assert_eq!(twice, once);
    }
    let once = normalize_query("-T dn example.com.", true).unwrap();
    let twice = normalize_query(&once, true).unwrap();
    assert_eq!(twice, once);
}

#[test]
fn normalize_lowercases_and_encodes_labels() {
    assert_eq!(normalize_domain("ExAmple.com").unwrap(), "example.com");
    assert_eq!(normalize_domain("xn--bcher-kva.de").unwrap(), "xn--bcher-kva.de");
    // Raw internationalized characters are not host characters: they are
    // rejected before encoding, as the character check demands.
    assert_eq!(normalize_domain("bücher.de"), Err(Error::InvalidDomain));
}

#[test]
fn normalize_rejects_unencodable_label() {
    // A label that claims to be ASCII-compatible but holds no valid
    // encoding fails.
    assert_eq!(normalize_domain("xn---.com"), Err(Error::InvalidDomain));
}
