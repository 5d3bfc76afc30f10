use vstd::prelude::*;

use std::str::FromStr;

use crate::grammar::{domain_ok, is_valid_domain, is_valid_port, port_ok};
use crate::rule_type::{token_of, RuleType};

verus! {

/// Whether `s` is an IPv4 or IPv6 network literal: an address, `/`, and a
/// prefix length that fits the address family.
pub uninterp spec fn is_ip_net(s: Seq<char>) -> bool;

/// Relies on `ipnet::IpNet::from_str`: it succeeds exactly on the strings
/// that are an IPv4 or IPv6 address with a prefix length.
#[verifier::external_body]
fn parses_as_ip_net(s: &str) -> (r: bool)
    ensures
        r == is_ip_net(s@),
{
    ipnet::IpNet::from_str(s).is_ok()
}

/// One classification rule: a rule type and the value it matches.
#[derive(Debug)]
pub struct Rule {
    pub rule_type: RuleType,
    pub value: String,
}

impl View for Rule {
    type V = (RuleType, Seq<char>);

    open spec fn view(&self) -> (RuleType, Seq<char>) {
        (self.rule_type, self.value@)
    }
}

impl Clone for Rule {
    fn clone(&self) -> (r: Rule)
        ensures
            r@ == self@,
    {
        Rule { rule_type: self.rule_type, value: self.value.clone() }
    }
}

impl PartialEq for Rule {
    fn eq(&self, other: &Rule) -> (r: bool) {
        self.rule_type == other.rule_type && self.value == other.value
    }
}

impl vstd::std_specs::cmp::PartialEqSpecImpl for Rule {
    open spec fn obeys_eq_spec() -> bool {
        true
    }

    open spec fn eq_spec(&self, other: &Rule) -> bool {
        self@ == other@
    }
}

impl Eq for Rule {}

/// What can go wrong with a rule or with the rule collection.
#[derive(Debug)]
pub enum RuleError {
    InvalidIpCidr(String),
    InvalidDomain(String),
    InvalidPort(String),
    DuplicateRule,
    RuleNotFound,
    IoError(String),
    JsonError(String),
}

/// Rule types whose value is an IP network.
pub open spec fn is_net_kind(t: RuleType) -> bool {
    t == RuleType::IpCidr || t == RuleType::IpCidr6 || t == RuleType::SrcIpCidr
}

/// Rule types whose value is a domain, a domain suffix or a keyword.
pub open spec fn is_domain_kind(t: RuleType) -> bool {
    t == RuleType::Domain || t == RuleType::DomainSuffix || t == RuleType::DomainKeyword
}

/// Rule types whose value is a port or a port range.
pub open spec fn is_port_kind(t: RuleType) -> bool {
    t == RuleType::DstPort || t == RuleType::SrcPort || t == RuleType::InPort
}

/// Whether value `v` suits rule type `t`, given whether `v` is an IP network
/// literal. Kinds outside the three classes take any value.
pub open spec fn value_fits(t: RuleType, v: Seq<char>, net_ok: bool) -> bool {
    if is_net_kind(t) {
        net_ok
    } else if is_domain_kind(t) {
        domain_ok(v)
    } else if is_port_kind(t) {
        port_ok(v)
    } else {
        true
    }
}

/// A rule is well formed when its value suits its type.
pub open spec fn well_formed(r: (RuleType, Seq<char>)) -> bool {
    value_fits(r.0, r.1, is_ip_net(r.1))
}

/// `res` is what validating value `v` of type `t` gives: success when the
/// value fits, else the error of the type's class, carrying the value.
pub open spec fn validation_result(
    t: RuleType,
    v: Seq<char>,
    net_ok: bool,
    res: Result<(), RuleError>,
) -> bool {
    match res {
        Ok(()) => value_fits(t, v, net_ok),
        Err(RuleError::InvalidIpCidr(s)) => !value_fits(t, v, net_ok) && is_net_kind(t) && s@ == v,
        Err(RuleError::InvalidDomain(s)) => !value_fits(t, v, net_ok) && is_domain_kind(t) && s@
            == v,
        Err(RuleError::InvalidPort(s)) => !value_fits(t, v, net_ok) && is_port_kind(t) && s@ == v,
        Err(_) => false,
    }
}

impl Rule {
    /// Validates this rule's value against the grammar of its type, with
    /// `net_ok` telling whether the value is an IP network literal.
    pub fn validate_with(&self, net_ok: bool) -> (r: Result<(), RuleError>)
        ensures
            validation_result(self.rule_type, self.value@, net_ok, r),
    {
        match self.rule_type {
            RuleType::IpCidr | RuleType::IpCidr6 | RuleType::SrcIpCidr => {
                if !net_ok {
                    return Err(RuleError::InvalidIpCidr(self.value.clone()));
                }
            },
            RuleType::Domain | RuleType::DomainSuffix | RuleType::DomainKeyword => {
                if !is_valid_domain(self.value.as_str()) {
                    return Err(RuleError::InvalidDomain(self.value.clone()));
                }
            },
            RuleType::DstPort | RuleType::SrcPort | RuleType::InPort => {
                if !is_valid_port(self.value.as_str()) {
                    return Err(RuleError::InvalidPort(self.value.clone()));
                }
            },
            _ => {},
        }
        Ok(())
    }

    /// Validates this rule's value against the grammar of its type.
    pub fn validate(&self) -> (r: Result<(), RuleError>)
        ensures
            validation_result(self.rule_type, self.value@, is_ip_net(self.value@), r),
            r is Ok <==> well_formed(self@),
    {
        let net_ok = if is_net_kind_exec(self.rule_type) {
            parses_as_ip_net(self.value.as_str())
        } else {
            false
        };
        self.validate_with(net_ok)
    }
}

/// The text of an error, as reported to clients.
pub open spec fn message_of(e: RuleError) -> Seq<char> {
    match e {
        RuleError::InvalidIpCidr(v) => "Invalid IP CIDR format: "@ + v@,
        RuleError::InvalidDomain(v) => "Invalid domain format: "@ + v@,
        RuleError::InvalidPort(v) => "Invalid port number: "@ + v@,
        RuleError::DuplicateRule => "Rule already exists"@,
        RuleError::RuleNotFound => "Rule not found"@,
        RuleError::IoError(m) => "IO error: "@ + m@,
        RuleError::JsonError(m) => "JSON error: "@ + m@,
    }
}

/// The HTTP status that an error is reported with.
pub open spec fn status_of(e: RuleError) -> u16 {
    match e {
        RuleError::InvalidIpCidr(_) | RuleError::InvalidDomain(_) | RuleError::InvalidPort(_) => 400,
        RuleError::DuplicateRule => 409,
        RuleError::RuleNotFound => 404,
        RuleError::IoError(_) | RuleError::JsonError(_) => 500,
    }
}

impl RuleError {
    /// The HTTP status that this error is reported with.
    pub fn status_code(&self) -> (r: u16)
        ensures
            r == status_of(*self),
    {
        match self {
            RuleError::InvalidIpCidr(_) | RuleError::InvalidDomain(_) | RuleError::InvalidPort(_) => 400,
            RuleError::DuplicateRule => 409,
            RuleError::RuleNotFound => 404,
            RuleError::IoError(_) | RuleError::JsonError(_) => 500,
        }
    }

    /// The text of this error, as reported to clients.
    pub fn to_string(&self) -> (r: String)
        ensures
            r@ == message_of(*self),
    {
        match self {
            RuleError::InvalidIpCidr(v) => prefixed("Invalid IP CIDR format: ", v),
            RuleError::InvalidDomain(v) => prefixed("Invalid domain format: ", v),
            RuleError::InvalidPort(v) => prefixed("Invalid port number: ", v),
            RuleError::DuplicateRule => "Rule already exists".to_owned(),
            RuleError::RuleNotFound => "Rule not found".to_owned(),
            RuleError::IoError(m) => prefixed("IO error: ", m),
            RuleError::JsonError(m) => prefixed("JSON error: ", m),
        }
    }
}

fn prefixed(head: &str, tail: &String) -> (r: String)
    ensures
        r@ == head@ + tail@,
{
    let mut r = head.to_owned();
    r.append(tail.as_str());
    r
}

fn is_net_kind_exec(t: RuleType) -> (r: bool)
    ensures
        r == is_net_kind(t),
{
    match t {
        RuleType::IpCidr | RuleType::IpCidr6 | RuleType::SrcIpCidr => true,
        _ => false,
    }
}

} // verus!
