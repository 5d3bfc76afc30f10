use vstd::prelude::*;

use crate::text::{chars_of, same_chars};

verus! {

/// The kinds of rule that the service knows, in their order of declaration.
#[derive(Clone, Copy, Debug, PartialEq, Eq, Hash, Structural)]
pub enum RuleType {
    Domain,
    DomainSuffix,
    DomainKeyword,
    DomainWildcard,
    DomainRegex,
    Geosite,
    IpCidr,
    IpCidr6,
    IpSuffix,
    IpAsn,
    Geoip,
    SrcGeoip,
    SrcIpAsn,
    SrcIpCidr,
    SrcIpSuffix,
    DstPort,
    SrcPort,
    InPort,
    InType,
    InUser,
    InName,
    ProcessPath,
    ProcessPathRegex,
    ProcessName,
    ProcessNameRegex,
    Uid,
    Network,
    Dscp,
    Match,
}

/// The canonical token of a rule type: upper case, words joined by hyphens.
pub open spec fn token_of(t: RuleType) -> Seq<char> {
    match t {
        RuleType::Domain => "DOMAIN"@,
        RuleType::DomainSuffix => "DOMAIN-SUFFIX"@,
        RuleType::DomainKeyword => "DOMAIN-KEYWORD"@,
        RuleType::DomainWildcard => "DOMAIN-WILDCARD"@,
        RuleType::DomainRegex => "DOMAIN-REGEX"@,
        RuleType::Geosite => "GEOSITE"@,
        RuleType::IpCidr => "IP-CIDR"@,
        RuleType::IpCidr6 => "IP-CIDR6"@,
        RuleType::IpSuffix => "IP-SUFFIX"@,
        RuleType::IpAsn => "IP-ASN"@,
        RuleType::Geoip => "GEOIP"@,
        RuleType::SrcGeoip => "SRC-GEOIP"@,
        RuleType::SrcIpAsn => "SRC-IP-ASN"@,
        RuleType::SrcIpCidr => "SRC-IP-CIDR"@,
        RuleType::SrcIpSuffix => "SRC-IP-SUFFIX"@,
        RuleType::DstPort => "DST-PORT"@,
        RuleType::SrcPort => "SRC-PORT"@,
        RuleType::InPort => "IN-PORT"@,
        RuleType::InType => "IN-TYPE"@,
        RuleType::InUser => "IN-USER"@,
        RuleType::InName => "IN-NAME"@,
        RuleType::ProcessPath => "PROCESS-PATH"@,
        RuleType::ProcessPathRegex => "PROCESS-PATH-REGEX"@,
        RuleType::ProcessName => "PROCESS-NAME"@,
        RuleType::ProcessNameRegex => "PROCESS-NAME-REGEX"@,
        RuleType::Uid => "UID"@,
        RuleType::Network => "NETWORK"@,
        RuleType::Dscp => "DSCP"@,
        RuleType::Match => "MATCH"@,
    }
}

/// Every rule type, in order of declaration.
pub open spec fn all_types() -> Seq<RuleType> {
    seq![
        RuleType::Domain,
        RuleType::DomainSuffix,
        RuleType::DomainKeyword,
        RuleType::DomainWildcard,
        RuleType::DomainRegex,
        RuleType::Geosite,
        RuleType::IpCidr,
        RuleType::IpCidr6,
        RuleType::IpSuffix,
        RuleType::IpAsn,
        RuleType::Geoip,
        RuleType::SrcGeoip,
        RuleType::SrcIpAsn,
        RuleType::SrcIpCidr,
        RuleType::SrcIpSuffix,
        RuleType::DstPort,
        RuleType::SrcPort,
        RuleType::InPort,
        RuleType::InType,
        RuleType::InUser,
        RuleType::InName,
        RuleType::ProcessPath,
        RuleType::ProcessPathRegex,
        RuleType::ProcessName,
        RuleType::ProcessNameRegex,
        RuleType::Uid,
        RuleType::Network,
        RuleType::Dscp,
        RuleType::Match,
    ]
}

impl RuleType {
    /// The canonical token of this rule type.
    pub fn token(&self) -> (r: &'static str)
        ensures
            r@ == token_of(*self),
    {
        match self {
            RuleType::Domain => "DOMAIN",
            RuleType::DomainSuffix => "DOMAIN-SUFFIX",
            RuleType::DomainKeyword => "DOMAIN-KEYWORD",
            RuleType::DomainWildcard => "DOMAIN-WILDCARD",
            RuleType::DomainRegex => "DOMAIN-REGEX",
            RuleType::Geosite => "GEOSITE",
            RuleType::IpCidr => "IP-CIDR",
            RuleType::IpCidr6 => "IP-CIDR6",
            RuleType::IpSuffix => "IP-SUFFIX",
            RuleType::IpAsn => "IP-ASN",
            RuleType::Geoip => "GEOIP",
            RuleType::SrcGeoip => "SRC-GEOIP",
            RuleType::SrcIpAsn => "SRC-IP-ASN",
            RuleType::SrcIpCidr => "SRC-IP-CIDR",
            RuleType::SrcIpSuffix => "SRC-IP-SUFFIX",
            RuleType::DstPort => "DST-PORT",
            RuleType::SrcPort => "SRC-PORT",
            RuleType::InPort => "IN-PORT",
            RuleType::InType => "IN-TYPE",
            RuleType::InUser => "IN-USER",
            RuleType::InName => "IN-NAME",
            RuleType::ProcessPath => "PROCESS-PATH",
            RuleType::ProcessPathRegex => "PROCESS-PATH-REGEX",
            RuleType::ProcessName => "PROCESS-NAME",
            RuleType::ProcessNameRegex => "PROCESS-NAME-REGEX",
            RuleType::Uid => "UID",
            RuleType::Network => "NETWORK",
            RuleType::Dscp => "DSCP",
            RuleType::Match => "MATCH",
        }
    }

    /// The canonical token of this rule type, as an owned string.
    pub fn to_string(&self) -> (r: String)
        ensures
            r@ == token_of(*self),
    {
        self.token().to_owned()
    }

    /// Every rule type, in order of declaration: the table that token
    /// lookup runs over.
    pub fn all() -> (r: Vec<RuleType>)
        ensures
            r@ == all_types(),
    {
        let r = vec![
            RuleType::Domain,
            RuleType::DomainSuffix,
            RuleType::DomainKeyword,
            RuleType::DomainWildcard,
            RuleType::DomainRegex,
            RuleType::Geosite,
            RuleType::IpCidr,
            RuleType::IpCidr6,
            RuleType::IpSuffix,
            RuleType::IpAsn,
            RuleType::Geoip,
            RuleType::SrcGeoip,
            RuleType::SrcIpAsn,
            RuleType::SrcIpCidr,
            RuleType::SrcIpSuffix,
            RuleType::DstPort,
            RuleType::SrcPort,
            RuleType::InPort,
            RuleType::InType,
            RuleType::InUser,
            RuleType::InName,
            RuleType::ProcessPath,
            RuleType::ProcessPathRegex,
            RuleType::ProcessName,
            RuleType::ProcessNameRegex,
            RuleType::Uid,
            RuleType::Network,
            RuleType::Dscp,
            RuleType::Match,
        ];
        assert(r@ =~= all_types());
        r
    }

    /// The rule type whose canonical token is exactly `s`, if any. No case
    /// folding or trimming is done.
    pub fn from_token(s: &str) -> (r: Option<RuleType>)
        ensures
            r matches Some(t) ==> token_of(t) == s@,
            r is None ==> forall|t: RuleType| token_of(t) != s@,
            forall|t: RuleType| token_of(t) == s@ ==> r == Some(t),
    {
        let table = RuleType::all();
        let wanted = chars_of(s);
        let mut i: usize = 0;
        while i < table.len()
            invariant
                table@ == all_types(),
                wanted@ == s@,
                i <= table.len(),
                forall|j: int| 0 <= j < i ==> token_of(#[trigger] table@[j]) != s@,
            decreases table.len() - i,
        {
            let t = table[i];
            let candidate = chars_of(t.token());
            if same_chars(&candidate, &wanted) {
                proof {
                    assert forall|u: RuleType| token_of(u) == s@ implies u == t by {
                        lemma_token_injective(u, t);
                    }
                }
                return Some(t);
            }
            i = i + 1;
        }
        proof {
            assert forall|t: RuleType| token_of(t) != s@ by {
                lemma_type_listed(t);
                let j = choose|j: int| 0 <= j < all_types().len() && all_types()[j] == t;
                assert(token_of(table@[j]) != s@);
            }
        }
        None
    }
}

/// Every rule type stands in the table.
pub proof fn lemma_type_listed(t: RuleType)
    ensures
        exists|j: int| 0 <= j < all_types().len() && all_types()[j] == t,
{
    match t {
        RuleType::Domain => assert(all_types()[0] == t),
        RuleType::DomainSuffix => assert(all_types()[1] == t),
        RuleType::DomainKeyword => assert(all_types()[2] == t),
        RuleType::DomainWildcard => assert(all_types()[3] == t),
        RuleType::DomainRegex => assert(all_types()[4] == t),
        RuleType::Geosite => assert(all_types()[5] == t),
        RuleType::IpCidr => assert(all_types()[6] == t),
        RuleType::IpCidr6 => assert(all_types()[7] == t),
        RuleType::IpSuffix => assert(all_types()[8] == t),
        RuleType::IpAsn => assert(all_types()[9] == t),
        RuleType::Geoip => assert(all_types()[10] == t),
        RuleType::SrcGeoip => assert(all_types()[11] == t),
        RuleType::SrcIpAsn => assert(all_types()[12] == t),
        RuleType::SrcIpCidr => assert(all_types()[13] == t),
        RuleType::SrcIpSuffix => assert(all_types()[14] == t),
        RuleType::DstPort => assert(all_types()[15] == t),
        RuleType::SrcPort => assert(all_types()[16] == t),
        RuleType::InPort => assert(all_types()[17] == t),
        RuleType::InType => assert(all_types()[18] == t),
        RuleType::InUser => assert(all_types()[19] == t),
        RuleType::InName => assert(all_types()[20] == t),
        RuleType::ProcessPath => assert(all_types()[21] == t),
        RuleType::ProcessPathRegex => assert(all_types()[22] == t),
        RuleType::ProcessName => assert(all_types()[23] == t),
        RuleType::ProcessNameRegex => assert(all_types()[24] == t),
        RuleType::Uid => assert(all_types()[25] == t),
        RuleType::Network => assert(all_types()[26] == t),
        RuleType::Dscp => assert(all_types()[27] == t),
        RuleType::Match => assert(all_types()[28] == t),
    }
}

/// Tells the rule types apart by the length and a few characters of their
/// tokens; the inverse of `token_of` on tokens.
pub open spec fn type_by_shape(s: Seq<char>) -> Option<RuleType> {
    if s.len() == 3 {
        Some(RuleType::Uid)
    } else if s.len() == 4 {
        Some(RuleType::Dscp)
    } else if s.len() == 5 {
        if s[0] == 'G' {
            Some(RuleType::Geoip)
        } else if s[0] == 'M' {
            Some(RuleType::Match)
        } else {
            None
        }
    } else if s.len() == 6 {
        if s[0] == 'D' {
            Some(RuleType::Domain)
        } else if s[0] == 'I' {
            Some(RuleType::IpAsn)
        } else {
            None
        }
    } else if s.len() == 7 {
        if s[3] == 'C' {
            Some(RuleType::IpCidr)
        } else if s[3] == 'N' {
            Some(RuleType::InName)
        } else if s[3] == 'P' {
            Some(RuleType::InPort)
        } else if s[3] == 'S' {
            Some(RuleType::Geosite)
        } else if s[3] == 'T' {
            Some(RuleType::InType)
        } else if s[3] == 'U' {
            Some(RuleType::InUser)
        } else if s[3] == 'W' {
            Some(RuleType::Network)
        } else {
            None
        }
    } else if s.len() == 8 {
        if s[0] == 'D' {
            Some(RuleType::DstPort)
        } else if s[0] == 'I' {
            Some(RuleType::IpCidr6)
        } else if s[0] == 'S' {
            Some(RuleType::SrcPort)
        } else {
            None
        }
    } else if s.len() == 9 {
        if s[0] == 'I' {
            Some(RuleType::IpSuffix)
        } else if s[0] == 'S' {
            Some(RuleType::SrcGeoip)
        } else {
            None
        }
    } else if s.len() == 10 {
        Some(RuleType::SrcIpAsn)
    } else if s.len() == 11 {
        Some(RuleType::SrcIpCidr)
    } else if s.len() == 12 {
        if s[8] == 'E' {
            Some(RuleType::DomainRegex)
        } else if s[8] == 'N' {
            Some(RuleType::ProcessName)
        } else if s[8] == 'P' {
            Some(RuleType::ProcessPath)
        } else {
            None
        }
    } else if s.len() == 13 {
        if s[0] == 'D' {
            Some(RuleType::DomainSuffix)
        } else if s[0] == 'S' {
            Some(RuleType::SrcIpSuffix)
        } else {
            None
        }
    } else if s.len() == 14 {
        Some(RuleType::DomainKeyword)
    } else if s.len() == 15 {
        Some(RuleType::DomainWildcard)
    } else if s.len() == 18 {
        if s[8] == 'N' {
            Some(RuleType::ProcessNameRegex)
        } else if s[8] == 'P' {
            Some(RuleType::ProcessPathRegex)
        } else {
            None
        }
    } else {
        None
    }
}

/// A token tells its rule type apart from every other one.
pub proof fn lemma_token_shape(t: RuleType)
    ensures
        type_by_shape(token_of(t)) == Some(t),
{
    match t {
        RuleType::Domain => reveal_strlit("DOMAIN"),
        RuleType::DomainSuffix => reveal_strlit("DOMAIN-SUFFIX"),
        RuleType::DomainKeyword => reveal_strlit("DOMAIN-KEYWORD"),
        RuleType::DomainWildcard => reveal_strlit("DOMAIN-WILDCARD"),
        RuleType::DomainRegex => reveal_strlit("DOMAIN-REGEX"),
        RuleType::Geosite => reveal_strlit("GEOSITE"),
        RuleType::IpCidr => reveal_strlit("IP-CIDR"),
        RuleType::IpCidr6 => reveal_strlit("IP-CIDR6"),
        RuleType::IpSuffix => reveal_strlit("IP-SUFFIX"),
        RuleType::IpAsn => reveal_strlit("IP-ASN"),
        RuleType::Geoip => reveal_strlit("GEOIP"),
        RuleType::SrcGeoip => reveal_strlit("SRC-GEOIP"),
        RuleType::SrcIpAsn => reveal_strlit("SRC-IP-ASN"),
        RuleType::SrcIpCidr => reveal_strlit("SRC-IP-CIDR"),
        RuleType::SrcIpSuffix => reveal_strlit("SRC-IP-SUFFIX"),
        RuleType::DstPort => reveal_strlit("DST-PORT"),
        RuleType::SrcPort => reveal_strlit("SRC-PORT"),
        RuleType::InPort => reveal_strlit("IN-PORT"),
        RuleType::InType => reveal_strlit("IN-TYPE"),
        RuleType::InUser => reveal_strlit("IN-USER"),
        RuleType::InName => reveal_strlit("IN-NAME"),
        RuleType::ProcessPath => reveal_strlit("PROCESS-PATH"),
        RuleType::ProcessPathRegex => reveal_strlit("PROCESS-PATH-REGEX"),
        RuleType::ProcessName => reveal_strlit("PROCESS-NAME"),
        RuleType::ProcessNameRegex => reveal_strlit("PROCESS-NAME-REGEX"),
        RuleType::Uid => reveal_strlit("UID"),
        RuleType::Network => reveal_strlit("NETWORK"),
        RuleType::Dscp => reveal_strlit("DSCP"),
        RuleType::Match => reveal_strlit("MATCH"),
    }
}

/// Distinct rule types have distinct tokens.
pub proof fn lemma_token_injective(a: RuleType, b: RuleType)
    ensures
        token_of(a) == token_of(b) ==> a == b,
{
    lemma_token_shape(a);
    lemma_token_shape(b);
}

} // verus!
