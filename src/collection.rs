use vstd::prelude::*;

use crate::rule::{is_ip_net, validation_result, well_formed, Rule, RuleError};
use crate::rule_type::{token_of, RuleType};

verus! {

/// A rule as a value: its type and the characters of its value.
pub type RuleView = (RuleType, Seq<char>);

/// No rule occurs twice.
pub open spec fn unique(s: Seq<RuleView>) -> bool {
    forall|i: int, j: int| 0 <= i < j < s.len() ==> s[i] != s[j]
}

/// What a rule collection may hold: well-formed rules, none twice.
pub open spec fn collection_ok(s: Seq<RuleView>) -> bool {
    &&& unique(s)
    &&& forall|i: int| 0 <= i < s.len() ==> well_formed(#[trigger] s[i])
}

/// `s` with every occurrence of `a` taken out, the rest in order.
pub open spec fn without(s: Seq<RuleView>, a: RuleView) -> Seq<RuleView>
    decreases s.len(),
{
    if s.len() == 0 {
        s
    } else {
        let rest = without(s.drop_last(), a);
        if s.last() == a {
            rest
        } else {
            rest.push(s.last())
        }
    }
}

/// Whether adding `r` to `s` succeeds: `r` is well formed and not yet there.
pub open spec fn admits(s: Seq<RuleView>, r: RuleView) -> bool {
    well_formed(r) && !s.contains(r)
}

pub proof fn lemma_without(s: Seq<RuleView>, a: RuleView)
    ensures
        forall|x: RuleView| #[trigger] without(s, a).contains(x) <==> (s.contains(x) && x != a),
        without(s, a).len() <= s.len(),
        !s.contains(a) ==> without(s, a) == s,
        unique(s) ==> unique(without(s, a)),
        unique(s) && s.contains(a) ==> without(s, a).len() == s.len() - 1,
    decreases s.len(),
{
    if s.len() > 0 {
        let p = s.drop_last();
        lemma_without(p, a);
        assert(s =~= p.push(s.last()));
        let w = without(p, a);
        let l = s.last();
        assert forall|x: RuleView| #[trigger] without(s, a).contains(x) <==> (s.contains(x) && x
            != a) by {
            if w.contains(x) {
                let j = choose|j: int| 0 <= j < p.len() && p[j] == x;
                assert(s[j] == x);
            }
            if s.contains(x) && x != l {
                let i = choose|i: int| 0 <= i < s.len() && s[i] == x;
                assert(i < p.len() && p[i] == x);
            }
            if l != a {
                let q = w.push(l);
                assert(q[w.len() as int] == l);
                assert(s[s.len() - 1] == l);
                if q.contains(x) && x != l {
                    let i = choose|i: int| 0 <= i < q.len() && q[i] == x;
                    assert(w[i] == x);
                }
                if w.contains(x) {
                    let i = choose|i: int| 0 <= i < w.len() && w[i] == x;
                    assert(q[i] == x);
                }
            }
        }
        if !s.contains(a) {
            assert(!p.contains(a)) by {
                if p.contains(a) {
                    let j = choose|j: int| 0 <= j < p.len() && p[j] == a;
                    assert(s[j] == a);
                }
            }
            assert(s.last() != a) by {
                assert(s[s.len() - 1] == s.last());
            }
        }
        if unique(s) {
            assert(unique(p)) by {
                assert forall|i: int, j: int| 0 <= i < j < p.len() implies p[i] != p[j] by {
                    assert(s[i] == p[i] && s[j] == p[j]);
                }
            }
            if s.last() != a {
                assert(!w.contains(s.last())) by {
                    if p.contains(s.last()) {
                        let j = choose|j: int| 0 <= j < p.len() && p[j] == s.last();
                        assert(s[j] == s[s.len() - 1]);
                    }
                }
                assert(unique(w.push(s.last()))) by {
                    let q = w.push(s.last());
                    assert forall|i: int, j: int| 0 <= i < j < q.len() implies q[i] != q[j] by {
                        if j == q.len() - 1 {
                            assert(w[i] == q[i]);
                        } else {
                            assert(w[i] == q[i] && w[j] == q[j]);
                        }
                    }
                }
            }
            if s.contains(a) {
                if s.last() == a {
                    assert(!p.contains(a)) by {
                        if p.contains(a) {
                            let j = choose|j: int| 0 <= j < p.len() && p[j] == a;
                            assert(s[j] == s[s.len() - 1]);
                        }
                    }
                } else {
                    let j = choose|j: int| 0 <= j < s.len() && s[j] == a;
                    assert(j < p.len());
                    assert(p[j] == a);
                }
            }
        }
    }
}

/// The listing line of one rule: its token, a comma, its value, a newline.
pub open spec fn line_of(r: RuleView) -> Seq<char> {
    token_of(r.0) + ","@ + r.1 + "\n"@
}

/// The listing of rules: one line each, in order.
pub open spec fn listing_of(s: Seq<RuleView>) -> Seq<char>
    decreases s.len(),
{
    if s.len() == 0 {
        Seq::empty()
    } else {
        listing_of(s.drop_last()) + line_of(s.last())
    }
}

/// The views of a sequence of rules.
pub open spec fn views_of(v: Seq<Rule>) -> Seq<RuleView> {
    v.map_values(|r: Rule| r@)
}

/// The ordered collection of rules: insertion order, no rule twice, every
/// rule well formed.
#[derive(Debug)]
pub struct RuleCollection {
    rules: Vec<Rule>,
}

impl View for RuleCollection {
    type V = Seq<RuleView>;

    closed spec fn view(&self) -> Seq<RuleView> {
        views_of(self.rules@)
    }
}

impl RuleCollection {
    /// The collection's invariant.
    pub open spec fn wf(&self) -> bool {
        collection_ok(self@)
    }

    /// An empty collection.
    pub fn new() -> (r: RuleCollection)
        ensures
            r@ == Seq::<RuleView>::empty(),
            r.wf(),
    {
        let r = RuleCollection { rules: Vec::new() };
        assert(r@ =~= Seq::<RuleView>::empty());
        r
    }

    /// The number of rules.
    pub fn len(&self) -> (n: usize)
        ensures
            n == self@.len(),
    {
        self.rules.len()
    }

    /// Whether a rule equal to `rule` is present.
    pub fn contains(&self, rule: &Rule) -> (r: bool)
        ensures
            r == self@.contains(rule@),
    {
        let mut i: usize = 0;
        while i < self.rules.len()
            invariant
                i <= self.rules.len(),
                self@ == views_of(self.rules@),
                forall|j: int| 0 <= j < i ==> self@[j] != rule@,
            decreases self.rules.len() - i,
        {
            if self.rules[i] == *rule {
                assert(self@[i as int] == rule@);
                return true;
            }
            i = i + 1;
        }
        false
    }

    /// A copy of the rules, in order.
    pub fn list(&self) -> (r: Vec<Rule>)
        ensures
            views_of(r@) == self@,
    {
        let mut out: Vec<Rule> = Vec::new();
        let mut i: usize = 0;
        while i < self.rules.len()
            invariant
                i <= self.rules.len(),
                self@ == views_of(self.rules@),
                views_of(out@) == self@.take(i as int),
                out.len() == i,
            decreases self.rules.len() - i,
        {
            let c = self.rules[i].clone();
            assert(c@ == self@[i as int]);
            let ghost prev = out@;
            out.push(c);
            assert forall|k: int| 0 <= k < i implies views_of(out@)[k] == self@.take(i + 1)[k] by {
                assert(out@[k] == prev[k]);
                assert(views_of(prev)[k] == self@.take(i as int)[k]);
            }
            assert(views_of(out@) =~= self@.take(i + 1));
            i = i + 1;
        }
        assert(self@.take(i as int) =~= self@);
        out
    }

    /// Adds `rule` at the end, after checking that it is well formed and not
    /// yet present. On an error the collection is left as it was.
    pub fn add(&mut self, rule: Rule) -> (r: Result<(), RuleError>)
        requires
            old(self).wf(),
        ensures
            final(self).wf(),
            r is Ok <==> admits(old(self)@, rule@),
            r is Ok ==> final(self)@ == old(self)@.push(rule@),
            r is Err ==> final(self)@ == old(self)@,
            r matches Err(RuleError::DuplicateRule) <==> (well_formed(rule@) && old(self)@.contains(
                rule@,
            )),
            !well_formed(rule@) ==> validation_result(
                rule.rule_type,
                rule.value@,
                is_ip_net(rule.value@),
                r,
            ),
    {
        let checked = rule.validate();
        if let Err(e) = checked {
            return Err(e);
        }
        if self.contains(&rule) {
            return Err(RuleError::DuplicateRule);
        }
        let ghost before = self@;
        self.rules.push(rule);
        assert(self@ =~= before.push(rule@));
        assert(collection_ok(self@)) by {
            let s = self@;
            assert forall|i: int, j: int| 0 <= i < j < s.len() implies s[i] != s[j] by {
                if j == s.len() - 1 {
                    assert(before[i] == s[i]);
                } else {
                    assert(before[i] == s[i] && before[j] == s[j]);
                }
            }
            assert forall|i: int| 0 <= i < s.len() implies well_formed(#[trigger] s[i]) by {
                if i < before.len() {
                    assert(before[i] == s[i]);
                }
            }
        }
        Ok(())
    }

    /// Removes every rule equal to `rule`; fails with `RuleNotFound`, and
    /// changes nothing, where there is none.
    pub fn remove(&mut self, rule: &Rule) -> (r: Result<(), RuleError>)
        requires
            old(self).wf(),
        ensures
            final(self).wf(),
            final(self)@ == without(old(self)@, rule@),
            r is Ok <==> old(self)@.contains(rule@),
            r is Err ==> r matches Err(RuleError::RuleNotFound),
    {
        let ghost before = self@;
        let mut kept: Vec<Rule> = Vec::new();
        let mut i: usize = 0;
        while i < self.rules.len()
            invariant
                i <= self.rules.len(),
                before == views_of(self.rules@),
                views_of(kept@) == without(before.take(i as int), rule@),
            decreases self.rules.len() - i,
        {
            assert(before.take(i + 1).drop_last() =~= before.take(i as int));
            if self.rules[i] != *rule {
                kept.push(self.rules[i].clone());
                assert(views_of(kept@) =~= without(before.take(i as int), rule@).push(before[i as int]));
            }
            i = i + 1;
        }
        assert(before.take(i as int) =~= before);
        let found = kept.len() != self.rules.len();
        proof {
            lemma_without(before, rule@);
        }
        self.rules = kept;
        assert(collection_ok(self@)) by {
            assert forall|k: int| 0 <= k < self@.len() implies well_formed(#[trigger] self@[k]) by {
                assert(self@.contains(self@[k]));
                let j = choose|j: int| 0 <= j < before.len() && before[j] == self@[k];
            }
        }
        if found {
            Ok(())
        } else {
            Err(RuleError::RuleNotFound)
        }
    }

    /// The rules as text: one line `TOKEN,value` each, in order.
    pub fn render(&self) -> (r: String)
        ensures
            r@ == listing_of(self@),
    {
        let mut out = String::new();
        let mut i: usize = 0;
        while i < self.rules.len()
            invariant
                i <= self.rules.len(),
                self@ == views_of(self.rules@),
                out@ == listing_of(self@.take(i as int)),
            decreases self.rules.len() - i,
        {
            let rule = &self.rules[i];
            out.append(rule.rule_type.token());
            out.append(",");
            out.append(rule.value.as_str());
            out.append("\n");
            assert(self@.take(i + 1).drop_last() =~= self@.take(i as int));
            assert(self@[i as int] == rule@);
            i = i + 1;
        }
        assert(self@.take(i as int) =~= self@);
        out
    }
}

} // verus!
