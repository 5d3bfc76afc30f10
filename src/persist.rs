use vstd::prelude::*;

use crate::collection::{collection_ok, RuleCollection, RuleView};
use crate::rule::{Rule, RuleError};
use crate::rule_type::{token_of, RuleType};

verus! {

/// One entry of the rule file: the rule type's token and the value, both
/// as text.
#[derive(Debug)]
pub struct RuleRecord {
    pub rule_type: String,
    pub value: String,
}

impl View for RuleRecord {
    type V = (Seq<char>, Seq<char>);

    open spec fn view(&self) -> (Seq<char>, Seq<char>) {
        (self.rule_type@, self.value@)
    }
}

/// The record that stores a rule.
pub open spec fn record_of(r: RuleView) -> (Seq<char>, Seq<char>) {
    (token_of(r.0), r.1)
}

/// The records that store a sequence of rules, in order.
pub open spec fn encode(s: Seq<RuleView>) -> Seq<(Seq<char>, Seq<char>)> {
    s.map_values(|r: RuleView| record_of(r))
}

/// Whether `tok` is the token of some rule type.
pub open spec fn known_token(tok: Seq<char>) -> bool {
    exists|t: RuleType| token_of(t) == tok
}

/// The rule type whose token is `tok`.
pub open spec fn type_of_token(tok: Seq<char>) -> RuleType {
    choose|t: RuleType| token_of(t) == tok
}

/// The rules that a sequence of records stands for.
pub open spec fn decode(recs: Seq<(Seq<char>, Seq<char>)>) -> Seq<RuleView> {
    recs.map_values(|r: (Seq<char>, Seq<char>)| (type_of_token(r.0), r.1))
}

/// Whether records can be loaded: every token is known, and the rules they
/// stand for form a valid collection.
pub open spec fn loadable(recs: Seq<(Seq<char>, Seq<char>)>) -> bool {
    &&& forall|i: int| 0 <= i < recs.len() ==> known_token(#[trigger] recs[i].0)
    &&& collection_ok(decode(recs))
}

/// The views of a sequence of records.
pub open spec fn record_views(v: Seq<RuleRecord>) -> Seq<(Seq<char>, Seq<char>)> {
    v.map_values(|r: RuleRecord| r@)
}

impl RuleCollection {
    /// The records that store this collection, in order.
    pub fn to_records(&self) -> (r: Vec<RuleRecord>)
        ensures
            record_views(r@) == encode(self@),
    {
        let rules = self.list();
        let mut out: Vec<RuleRecord> = Vec::new();
        let mut i: usize = 0;
        while i < rules.len()
            invariant
                i <= rules.len(),
                crate::collection::views_of(rules@) == self@,
                out.len() == i,
                record_views(out@) == encode(self@.take(i as int)),
            decreases rules.len() - i,
        {
            let rule = &rules[i];
            assert(rule@ == self@[i as int]);
            let rec = RuleRecord { rule_type: rule.rule_type.to_string(), value: rule.value.clone() };
            let ghost prev = out@;
            out.push(rec);
            assert forall|k: int| 0 <= k < i implies record_views(out@)[k] == encode(
                self@.take(i + 1),
            )[k] by {
                assert(out@[k] == prev[k]);
                assert(record_views(prev)[k] == encode(self@.take(i as int))[k]);
            }
            assert(record_views(out@) =~= encode(self@.take(i + 1)));
            i = i + 1;
        }
        assert(self@.take(i as int) =~= self@);
        out
    }

    /// The collection that `records` store. Fails with `JsonError` where a
    /// token is unknown, a rule is ill formed, or a rule occurs twice.
    pub fn from_records(records: &Vec<RuleRecord>) -> (r: Result<RuleCollection, RuleError>)
        ensures
            r is Ok <==> loadable(record_views(records@)),
            r matches Ok(c) ==> c@ == decode(record_views(records@)) && c.wf(),
            r is Err ==> r matches Err(RuleError::JsonError(_)),
    {
        let ghost recs = record_views(records@);
        let mut c = RuleCollection::new();
        let mut i: usize = 0;
        while i < records.len()
            invariant
                i <= records.len(),
                recs == record_views(records@),
                c.wf(),
                c@ == decode(recs.take(i as int)),
                forall|j: int| 0 <= j < i ==> known_token(#[trigger] recs[j].0),
            decreases records.len() - i,
        {
            let rec = &records[i];
            assert(rec@ == recs[i as int]);
            let t = match RuleType::from_token(rec.rule_type.as_str()) {
                Some(t) => t,
                None => {
                    let mut msg = "unknown rule type: ".to_owned();
                    msg.append(rec.rule_type.as_str());
                    return Err(RuleError::JsonError(msg));
                },
            };
            assert(known_token(recs[i as int].0));
            assert(t == type_of_token(recs[i as int].0)) by {
                crate::rule_type::lemma_token_injective(t, type_of_token(recs[i as int].0));
            }
            let rule = Rule { rule_type: t, value: rec.value.clone() };
            let ghost before = c@;
            assert(decode(recs.take(i + 1)) =~= before.push(rule@));
            match c.add(rule) {
                Ok(()) => {},
                Err(e) => {
                    proof {
                        let d = decode(recs);
                        assert(d[i as int] == rule@);
                        if crate::rule::well_formed(rule@) {
                            let j = choose|j: int| 0 <= j < before.len() && before[j] == rule@;
                            assert(d[j] == before[j]);
                        }
                    }
                    return Err(RuleError::JsonError(e.to_string()));
                },
            }
            i = i + 1;
        }
        assert(recs.take(i as int) =~= recs);
        Ok(c)
    }
}

} // verus!
