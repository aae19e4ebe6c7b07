use huiz::whois;

#[test]
fn whois_test() {
    let domain = "tikhop.com";
    let r = whois(domain);
    println!("{:?}", r)
}
