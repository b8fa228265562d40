use helexa::hostinfo::domain_from_resolv_conf;

#[test]
fn domain_comes_from_the_first_search_or_domain_line() {
    let conf = "# generated\nnameserver 10.0.0.1\nsearch  lab.example.com corp.example.com\ndomain other.example\n";
    assert_eq!(domain_from_resolv_conf(conf).as_deref(), Some("lab.example.com"));
    assert_eq!(domain_from_resolv_conf("domain home.arpa\r\n").as_deref(), Some("home.arpa"));
}

#[test]
fn no_domain_without_a_matching_line_or_word() {
    assert_eq!(domain_from_resolv_conf(""), None);
    assert_eq!(domain_from_resolv_conf("nameserver 1.1.1.1\n"), None);
    assert_eq!(domain_from_resolv_conf("search   \ndomain late.example\n"), None);
    assert_eq!(domain_from_resolv_conf("searchlab.example\n"), None);
    assert_eq!(domain_from_resolv_conf(" search x\n"), None);
}

#[test]
fn unicode_whitespace_separates_words_as_split_whitespace_does() {
    let conf = "search\u{3000}\u{a0}lab.example\u{2003}other\n";
    assert_eq!(domain_from_resolv_conf("search \u{a0}lab.example\u{2003}other\n").as_deref(), Some("lab.example"));
    assert_eq!(domain_from_resolv_conf(conf), None);
}
