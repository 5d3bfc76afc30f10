use vstd::prelude::*;

use crate::collection::{admits, collection_ok, lemma_without, unique, without, RuleView};
use crate::persist::{decode, encode, known_token, loadable, type_of_token};
use crate::rule::well_formed;
use crate::rule_type::{lemma_token_injective, token_of, RuleType};

verus! {

/// The token of a rule type reads back as that rule type.
pub proof fn lemma_token_round_trip(t: RuleType)
    ensures
        known_token(token_of(t)),
        type_of_token(token_of(t)) == t,
{
    assert(token_of(t) == token_of(t));
    let u = type_of_token(token_of(t));
    lemma_token_injective(u, t);
}

/// Adding a well-formed rule that is not yet present succeeds and makes the
/// collection one longer; adding the same rule again is refused as a
/// duplicate.
pub proof fn lemma_add_twice(s: Seq<RuleView>, r: RuleView)
    requires
        collection_ok(s),
        well_formed(r),
        !s.contains(r),
    ensures
        admits(s, r),
        s.push(r).len() == s.len() + 1,
        !admits(s.push(r), r),
        s.push(r).contains(r),
{
    assert(s.push(r)[s.len() as int] == r);
}

/// Removing one of two distinct rules that are both present leaves the
/// other present and the removed one absent, one rule fewer, so that
/// removing it again finds nothing.
pub proof fn lemma_remove_exact(s: Seq<RuleView>, a: RuleView, b: RuleView)
    requires
        collection_ok(s),
        s.contains(a),
        s.contains(b),
        a != b,
    ensures
        without(s, a).contains(b),
        !without(s, a).contains(a),
        without(s, a).len() == s.len() - 1,
        collection_ok(without(s, a)),
        s.len() == 2 ==> without(s, a) == seq![b],
{
    lemma_without(s, a);
    let w = without(s, a);
    assert(collection_ok(w)) by {
        assert forall|k: int| 0 <= k < w.len() implies well_formed(#[trigger] w[k]) by {
            assert(w.contains(w[k]));
            let j = choose|j: int| 0 <= j < s.len() && s[j] == w[k];
        }
    }
    if s.len() == 2 {
        assert(w.len() == 1 && w.contains(b));
        let j = choose|j: int| 0 <= j < w.len() && w[j] == b;
        assert(j == 0);
        assert(w =~= seq![b]);
    }
}

/// Saving a valid collection and loading what was saved gives back the same
/// rules in the same order.
pub proof fn lemma_save_load(s: Seq<RuleView>)
    requires
        collection_ok(s),
    ensures
        loadable(encode(s)),
        decode(encode(s)) == s,
{
    let e = encode(s);
    assert forall|i: int| 0 <= i < e.len() implies known_token(#[trigger] e[i].0) by {
        lemma_token_round_trip(s[i].0);
    }
    assert forall|i: int| 0 <= i < s.len() implies decode(e)[i] == s[i] by {
        lemma_token_round_trip(s[i].0);
    }
    assert(decode(e) =~= s);
}

} // verus!
