use rule_service::collection::RuleCollection;
use rule_service::grammar::{is_valid_domain, is_valid_port};
use rule_service::persist::RuleRecord;
use rule_service::rule::{Rule, RuleError};
use rule_service::rule_type::RuleType;

fn rule(t: RuleType, v: &str) -> Rule {
    Rule { rule_type: t, value: v.to_string() }
}

fn record(t: &str, v: &str) -> RuleRecord {
    RuleRecord { rule_type: t.to_string(), value: v.to_string() }
}

#[test]
fn every_token_reads_back() {
    let all = RuleType::all();
    assert_eq!(all.len(), 29);
    for t in all {
        assert_eq!(RuleType::from_token(t.token()), Some(t));
    }
}

#[test]
fn tokens_are_canonical() {
    assert_eq!(RuleType::IpCidr.to_string(), "IP-CIDR");
    assert_eq!(RuleType::DomainSuffix.token(), "DOMAIN-SUFFIX");
    assert_eq!(RuleType::ProcessNameRegex.token(), "PROCESS-NAME-REGEX");
    assert_eq!(RuleType::IpCidr6.token(), "IP-CIDR6");
    assert_eq!(RuleType::Match.token(), "MATCH");
}

#[test]
fn unknown_tokens_are_refused() {
    assert_eq!(RuleType::from_token("ip-cidr"), None);
    assert_eq!(RuleType::from_token("IPCIDR"), None);
    assert_eq!(RuleType::from_token(" DOMAIN"), None);
    assert_eq!(RuleType::from_token(""), None);
    assert_eq!(RuleType::from_token("DOMAINSUFFIX"), None);
}

#[test]
fn network_kinds_check_ip_networks() {
    for t in [RuleType::IpCidr, RuleType::IpCidr6, RuleType::SrcIpCidr] {
        assert!(rule(t, "10.0.0.0/8").validate().is_ok());
        assert!(rule(t, "::1/128").validate().is_ok());
        assert!(rule(t, "192.168.0.0/16").validate().is_ok());
        match rule(t, "not-an-ip").validate() {
            Err(RuleError::InvalidIpCidr(v)) => assert_eq!(v, "not-an-ip"),
            other => panic!("unexpected {:?}", other),
        }
        match rule(t, "10.0.0.0/99").validate() {
            Err(RuleError::InvalidIpCidr(v)) => assert_eq!(v, "10.0.0.0/99"),
            other => panic!("unexpected {:?}", other),
        }
    }
}

#[test]
fn validate_with_uses_the_given_network_answer() {
    assert!(rule(RuleType::IpCidr, "anything").validate_with(true).is_ok());
    assert!(matches!(
        rule(RuleType::IpCidr, "10.0.0.0/8").validate_with(false),
        Err(RuleError::InvalidIpCidr(_))
    ));
    assert!(matches!(
        rule(RuleType::Domain, "ab").validate_with(true),
        Err(RuleError::InvalidDomain(_))
    ));
    assert!(rule(RuleType::Geoip, "CN").validate_with(false).is_ok());
}

#[test]
fn domain_kinds_check_the_domain_grammar() {
    for t in [RuleType::Domain, RuleType::DomainSuffix, RuleType::DomainKeyword] {
        assert!(rule(t, "example.com").validate().is_ok());
        assert!(rule(t, "a.b").validate().is_ok());
        for bad in ["-bad-", "ab", "a..b!"] {
            match rule(t, bad).validate() {
                Err(RuleError::InvalidDomain(v)) => assert_eq!(v, bad),
                other => panic!("unexpected {:?}", other),
            }
        }
    }
}

#[test]
fn domain_grammar_edges() {
    assert!(is_valid_domain("a_b"));
    assert!(is_valid_domain("x-y.z9"));
    assert!(is_valid_domain("abc"));
    assert!(!is_valid_domain(""));
    assert!(!is_valid_domain("a."));
    assert!(!is_valid_domain(".ab"));
    assert!(!is_valid_domain("ab."));
    assert!(!is_valid_domain("a b"));
    assert!(!is_valid_domain("bücher.de"));
}

#[test]
fn port_kinds_check_the_port_grammar() {
    for t in [RuleType::DstPort, RuleType::SrcPort, RuleType::InPort] {
        for good in ["80", "80-443", "443-80"] {
            assert!(rule(t, good).validate().is_ok());
        }
        for bad in ["abc", "70000", "80-"] {
            match rule(t, bad).validate() {
                Err(RuleError::InvalidPort(v)) => assert_eq!(v, bad),
                other => panic!("unexpected {:?}", other),
            }
        }
    }
}

#[test]
fn port_grammar_edges() {
    assert!(is_valid_port("0"));
    assert!(is_valid_port("65535"));
    assert!(is_valid_port("0-65535"));
    assert!(is_valid_port("+80"));
    assert!(is_valid_port("0080"));
    assert!(!is_valid_port("65536"));
    assert!(!is_valid_port(""));
    assert!(!is_valid_port("-80"));
    assert!(!is_valid_port("-"));
    assert!(!is_valid_port("80-443-1000"));
    assert!(!is_valid_port("80 "));
    assert!(!is_valid_port("+"));
    assert!(!is_valid_port("1-99999"));
}

#[test]
fn other_kinds_take_any_value() {
    assert!(rule(RuleType::Geoip, "CN").validate().is_ok());
    assert!(rule(RuleType::ProcessName, "!! weird value").validate().is_ok());
    assert!(rule(RuleType::Match, "").validate().is_ok());
    assert!(rule(RuleType::Network, "udp").validate().is_ok());
}

#[test]
fn adding_twice_is_a_duplicate() {
    let mut c = RuleCollection::new();
    let r = rule(RuleType::Domain, "example.com");
    assert!(c.add(r.clone()).is_ok());
    assert_eq!(c.len(), 1);
    assert!(matches!(c.add(r.clone()), Err(RuleError::DuplicateRule)));
    assert_eq!(c.len(), 1);
    assert!(c.contains(&r));
}

#[test]
fn invalid_rule_is_not_added() {
    let mut c = RuleCollection::new();
    assert!(matches!(
        c.add(rule(RuleType::DstPort, "http")),
        Err(RuleError::InvalidPort(_))
    ));
    assert_eq!(c.len(), 0);
}

#[test]
fn insertion_order_is_kept() {
    let mut c = RuleCollection::new();
    c.add(rule(RuleType::Geoip, "CN")).unwrap();
    c.add(rule(RuleType::Domain, "example.com")).unwrap();
    c.add(rule(RuleType::DstPort, "443")).unwrap();
    let listed = c.list();
    assert_eq!(listed[0], rule(RuleType::Geoip, "CN"));
    assert_eq!(listed[1], rule(RuleType::Domain, "example.com"));
    assert_eq!(listed[2], rule(RuleType::DstPort, "443"));
    assert_eq!(c.render(), "GEOIP,CN\nDOMAIN,example.com\nDST-PORT,443\n");
}

#[test]
fn same_value_other_type_is_another_rule() {
    let mut c = RuleCollection::new();
    c.add(rule(RuleType::Domain, "example.com")).unwrap();
    assert!(c.add(rule(RuleType::DomainSuffix, "example.com")).is_ok());
    assert_eq!(c.len(), 2);
}

#[test]
fn removal_is_exact() {
    let mut c = RuleCollection::new();
    let a = rule(RuleType::Domain, "example.com");
    let b = rule(RuleType::IpCidr, "10.0.0.0/8");
    c.add(a.clone()).unwrap();
    c.add(b.clone()).unwrap();
    assert!(c.remove(&a).is_ok());
    assert_eq!(c.len(), 1);
    assert_eq!(c.list()[0], b);
    assert!(!c.contains(&a));
    assert!(matches!(c.remove(&a), Err(RuleError::RuleNotFound)));
    assert_eq!(c.len(), 1);
}

#[test]
fn removal_from_empty_is_not_found() {
    let mut c = RuleCollection::new();
    assert!(matches!(
        c.remove(&rule(RuleType::Match, "x")),
        Err(RuleError::RuleNotFound)
    ));
}

#[test]
fn save_then_load_gives_the_same_rules() {
    let mut c = RuleCollection::new();
    c.add(rule(RuleType::IpCidr6, "::1/128")).unwrap();
    c.add(rule(RuleType::DomainKeyword, "goo_gle")).unwrap();
    c.add(rule(RuleType::InPort, "443-80")).unwrap();
    c.add(rule(RuleType::ProcessPath, "/usr/bin/curl")).unwrap();
    let recs = c.to_records();
    assert_eq!(recs[0].rule_type, "IP-CIDR6");
    assert_eq!(recs[2].value, "443-80");
    let back = RuleCollection::from_records(&recs).unwrap();
    assert_eq!(back.list(), c.list());
}

#[test]
fn load_of_nothing_is_empty() {
    let back = RuleCollection::from_records(&Vec::new()).unwrap();
    assert_eq!(back.len(), 0);
}

#[test]
fn load_refuses_unknown_token() {
    let recs = vec![record("DOMAIN", "example.com"), record("DOMAINSUFFIX", "example.com")];
    match RuleCollection::from_records(&recs) {
        Err(RuleError::JsonError(m)) => assert_eq!(m, "unknown rule type: DOMAINSUFFIX"),
        other => panic!("unexpected {:?}", other),
    }
}

#[test]
fn load_refuses_duplicates_and_bad_values() {
    let dup = vec![record("GEOIP", "CN"), record("GEOIP", "CN")];
    assert!(matches!(RuleCollection::from_records(&dup), Err(RuleError::JsonError(_))));
    let bad = vec![record("IP-CIDR", "10.0.0.0/99")];
    match RuleCollection::from_records(&bad) {
        Err(RuleError::JsonError(m)) => assert_eq!(m, "Invalid IP CIDR format: 10.0.0.0/99"),
        other => panic!("unexpected {:?}", other),
    }
}

#[test]
fn add_list_remove_scenario() {
    let mut c = RuleCollection::new();
    let r = rule(RuleType::from_token("IP-CIDR").unwrap(), "192.168.0.0/16");
    assert!(c.add(r.clone()).is_ok());
    assert_eq!(c.render(), "IP-CIDR,192.168.0.0/16\n");
    assert!(c.remove(&r).is_ok());
    assert_eq!(c.render(), "");
}

#[test]
fn bad_domain_scenario() {
    let mut c = RuleCollection::new();
    let r = rule(RuleType::from_token("DOMAIN").unwrap(), "!!");
    let e = c.add(r).unwrap_err();
    assert_eq!(e.status_code(), 400);
    assert_eq!(e.to_string(), "Invalid domain format: !!");
    assert_eq!(c.len(), 0);
    assert_eq!(c.render(), "");
}

#[test]
fn error_texts_and_statuses() {
    let cases = [
        (RuleError::InvalidIpCidr("x".to_string()), 400, "Invalid IP CIDR format: x"),
        (RuleError::InvalidDomain("y".to_string()), 400, "Invalid domain format: y"),
        (RuleError::InvalidPort("z".to_string()), 400, "Invalid port number: z"),
        (RuleError::DuplicateRule, 409, "Rule already exists"),
        (RuleError::RuleNotFound, 404, "Rule not found"),
        (RuleError::IoError("disk full".to_string()), 500, "IO error: disk full"),
        (RuleError::JsonError("eof".to_string()), 500, "JSON error: eof"),
    ];
    for (e, status, text) in cases {
        assert_eq!(e.status_code(), status);
        assert_eq!(e.to_string(), text);
    }
}
