//! Properties of the world that hold across its operations.
use vstd::prelude::*;

use crate::order::{lemma_lex_asymmetric, lemma_lex_irreflexive, lex_lt};
use crate::rules::{
    evolution_cost, next_stage, personality_in_range, shaped_personality, shaping_overflows,
    stage_rank,
};
use crate::store::{
    action_saved, actions_sorted, agent_saved, agents_sorted, find_agent, find_inference,
    is_top_ranking, ranked_before, recent_actions,
};
use crate::digest::inference_key;
use crate::world::{acted_agent, action_record, evolved_agent, helper_result, is_mint_plan, proof_check, MintPlan, RuleOutcome};
use crate::store::first_authorized;
use crate::types::ChainEnv;
use crate::text::{decimal, digit_char, hex_lower, lowercase_of};
use crate::identity::{agent_id_text, has_address_prefix, wallet_text};
use crate::types::{AIAgent, ActionRecord, ActionType, EvolutionStage, Personality, VerifiedInference};

verus! {

broadcast use {vstd::utf8::encode_utf8_decode_utf8, vstd::utf8::encode_utf8_valid_utf8};

/// Actions keep a personality whose traits lie within 0..=100 within that
/// range, and shaping such a personality never leaves the range of a byte.
pub proof fn law_shaping_keeps_traits_in_range(p: Personality, action: ActionType)
    requires
        personality_in_range(p),
    ensures
        !shaping_overflows(p, action),
        personality_in_range(shaped_personality(p, action)),
{
}

/// Evolution goes one stage at a time, and only the last stage cannot be left.
pub proof fn law_evolution_advances_one_stage(stage: EvolutionStage)
    ensures
        evolution_cost(stage) is None <==> stage == EvolutionStage::Singularity,
        evolution_cost(stage) is Some ==> stage_rank(next_stage(stage)) == stage_rank(stage) + 1,
{
}

proof fn lemma_find_agent_in_sorted(s: Seq<AIAgent>, id: Seq<char>)
    requires
        agents_sorted(s),
    ensures
        forall|x: AIAgent| find_agent(s, id) == Some(x) <==> (s.contains(x) && x.id@ == id),
        find_agent(s, id) is None <==> !(exists|x: AIAgent| s.contains(x) && x.id@ == id),
    decreases s.len(),
{
    if s.len() > 0 {
        let t = s.drop_first();
        assert(agents_sorted(t)) by {
            assert forall|i: int, j: int| 0 <= i < j < t.len() implies lex_lt(
                #[trigger] t[i].key(),
                #[trigger] t[j].key(),
            ) by {
                assert(lex_lt(s[i + 1].key(), s[j + 1].key()));
            }
        }
        lemma_find_agent_in_sorted(t, id);
        assert forall|x: AIAgent| #[trigger] s.contains(x) <==> (x == s[0] || t.contains(x)) by {
            if s.contains(x) {
                let k = choose|k: int| 0 <= k < s.len() && s[k] == x;
                if k > 0 {
                    assert(t[k - 1] == x);
                }
            }
            if t.contains(x) {
                let k = choose|k: int| 0 <= k < t.len() && t[k] == x;
                assert(s[k + 1] == x);
            }
            if x == s[0] {
                assert(s[0] == x);
            }
        }
        if s[0].id@ == id {
            assert forall|x: AIAgent| t.contains(x) implies x.id@ != id by {
                let k = choose|k: int| 0 <= k < t.len() && t[k] == x;
                assert(lex_lt(s[0].key(), s[k + 1].key()));
                if x.id@ == id {
                    lemma_lex_irreflexive(s[0].key());
                }
            }
            assert forall|x: AIAgent| find_agent(s, id) == Some(x) <==> (s.contains(x) && x.id@ == id) by {
                if s.contains(x) && x.id@ == id {
                    if x != s[0] {
                        assert(t.contains(x));
                    }
                }
            }
        } else {
            assert forall|x: AIAgent| find_agent(s, id) == Some(x) <==> (s.contains(x) && x.id@ == id) by {
                assert(find_agent(s, id) == find_agent(t, id));
                if s.contains(x) && x.id@ == id {
                    assert(t.contains(x));
                }
            }
        }
    }
    if find_agent(s, id) is Some {
        let y = find_agent(s, id)->0;
        assert(s.contains(y) && y.id@ == id);
    } else {
        assert forall|x: AIAgent| !(s.contains(x) && x.id@ == id) by {
            if s.contains(x) && x.id@ == id {
                assert(find_agent(s, id) == Some(x));
            }
        }
    }
}

/// Reading an agent back by its id after storing it gives the stored agent.
pub proof fn law_saved_agent_is_found(old: Seq<AIAgent>, new: Seq<AIAgent>, a: AIAgent)
    requires
        agent_saved(old, new, a),
    ensures
        find_agent(new, a.id@) == Some(a),
{
    lemma_find_agent_in_sorted(new, a.id@);
    assert(new.contains(a));
}

/// Storing an agent leaves what every other id reads unchanged.
pub proof fn law_saving_keeps_other_agents(old: Seq<AIAgent>, new: Seq<AIAgent>, a: AIAgent, id: Seq<char>)
    requires
        agents_sorted(old),
        agent_saved(old, new, a),
        id != a.id@,
    ensures
        find_agent(new, id) == find_agent(old, id),
{
    lemma_find_agent_in_sorted(new, id);
    lemma_find_agent_in_sorted(old, id);
    assert forall|x: AIAgent| x.id@ == id implies (new.contains(x) <==> old.contains(x)) by {
        if x.key() == a.key() {
            assert(vstd::utf8::decode_utf8(x.key()) == vstd::utf8::decode_utf8(a.key()));
        }
    }
    match find_agent(old, id) {
        Some(x) => {
            assert(new.contains(x) && x.id@ == id);
        },
        None => {
            if find_agent(new, id) is Some {
                let x = find_agent(new, id)->0;
                assert(old.contains(x) && x.id@ == id);
            }
        },
    }
}

proof fn lemma_sorted_agents_unique(s1: Seq<AIAgent>, s2: Seq<AIAgent>)
    requires
        agents_sorted(s1),
        agents_sorted(s2),
        forall|x: AIAgent| s1.contains(x) <==> s2.contains(x),
    ensures
        s1 == s2,
    decreases s1.len() + s2.len(),
{
    if s1.len() == 0 {
        if s2.len() > 0 {
            assert(s2.contains(s2[0]));
        }
        assert(s1 =~= s2);
    } else if s2.len() == 0 {
        assert(s1.contains(s1[0]));
    } else {
        assert(s1.contains(s1[0]));
        assert(s2.contains(s2[0]));
        let j = choose|j: int| 0 <= j < s2.len() && s2[j] == s1[0];
        let k = choose|k: int| 0 <= k < s1.len() && s1[k] == s2[0];
        if j > 0 && k > 0 {
            assert(lex_lt(s2[0].key(), s2[j].key()));
            assert(lex_lt(s1[0].key(), s1[k].key()));
            lemma_lex_asymmetric(s2[0].key(), s1[0].key());
        } else if j > 0 {
            lemma_lex_irreflexive(s1[0].key());
        } else if k > 0 {
            lemma_lex_irreflexive(s2[0].key());
        }
        assert(s1[0] == s2[0]);
        let t1 = s1.drop_first();
        let t2 = s2.drop_first();
        assert(agents_sorted(t1)) by {
            assert forall|i: int, m: int| 0 <= i < m < t1.len() implies lex_lt(
                #[trigger] t1[i].key(),
                #[trigger] t1[m].key(),
            ) by {
                assert(lex_lt(s1[i + 1].key(), s1[m + 1].key()));
            }
        }
        assert(agents_sorted(t2)) by {
            assert forall|i: int, m: int| 0 <= i < m < t2.len() implies lex_lt(
                #[trigger] t2[i].key(),
                #[trigger] t2[m].key(),
            ) by {
                assert(lex_lt(s2[i + 1].key(), s2[m + 1].key()));
            }
        }
        assert forall|x: AIAgent| t1.contains(x) <==> t2.contains(x) by {
            if t1.contains(x) {
                let p = choose|p: int| 0 <= p < t1.len() && t1[p] == x;
                assert(s1[p + 1] == x);
                assert(s1.contains(x));
                let q = choose|q: int| 0 <= q < s2.len() && s2[q] == x;
                if q == 0 {
                    assert(lex_lt(s1[0].key(), s1[p + 1].key()));
                    lemma_lex_irreflexive(x.key());
                } else {
                    assert(t2[q - 1] == x);
                }
            }
            if t2.contains(x) {
                let p = choose|p: int| 0 <= p < t2.len() && t2[p] == x;
                assert(s2[p + 1] == x);
                assert(s2.contains(x));
                let q = choose|q: int| 0 <= q < s1.len() && s1[q] == x;
                if q == 0 {
                    assert(lex_lt(s2[0].key(), s2[p + 1].key()));
                    lemma_lex_irreflexive(x.key());
                } else {
                    assert(t1[q - 1] == x);
                }
            }
        }
        lemma_sorted_agents_unique(t1, t2);
        assert(s1 =~= s2) by {
            assert(s1 =~= seq![s1[0]] + t1);
            assert(s2 =~= seq![s2[0]] + t2);
        }
    }
}

/// Storing an agent has exactly one outcome.
pub proof fn law_saving_is_determined(old: Seq<AIAgent>, new1: Seq<AIAgent>, new2: Seq<AIAgent>, a: AIAgent)
    requires
        agent_saved(old, new1, a),
        agent_saved(old, new2, a),
    ensures
        new1 == new2,
{
    lemma_sorted_agents_unique(new1, new2);
}

proof fn lemma_rank_irreflexive(a: AIAgent)
    ensures
        !ranked_before(a, a),
{
    lemma_lex_irreflexive(a.key());
}

proof fn lemma_rank_asymmetric(a: AIAgent, b: AIAgent)
    requires
        ranked_before(a, b),
    ensures
        !ranked_before(b, a),
{
    if a.balance == b.balance {
        lemma_lex_asymmetric(a.key(), b.key());
    }
}

proof fn lemma_top_member(all: Seq<AIAgent>, ta: Seq<AIAgent>, tb: Seq<AIAgent>, limit: nat, i: int)
    requires
        is_top_ranking(all, ta, limit),
        is_top_ranking(all, tb, limit),
        0 <= i < ta.len(),
        forall|j: int| 0 <= j < i ==> ta[j] == tb[j],
    ensures
        exists|k: int| i <= k < tb.len() && tb[k] == ta[i],
{
    assert(all.contains(ta[i]));
    assert(all.contains(tb[i]));
    if !tb.contains(ta[i]) {
        assert(ranked_before(tb[i], ta[i]));
        if !ta.contains(tb[i]) {
            assert(ranked_before(ta[i], tb[i]));
            lemma_rank_asymmetric(ta[i], tb[i]);
        } else {
            let k = choose|k: int| 0 <= k < ta.len() && ta[k] == tb[i];
            if k == i {
                assert(tb.contains(tb[i]));
            } else if k < i {
                assert(ta[k] == tb[k]);
                assert(ranked_before(tb[k], tb[i]));
                lemma_rank_irreflexive(tb[i]);
            } else {
                assert(ranked_before(ta[i], ta[k]));
                lemma_rank_asymmetric(ta[i], tb[i]);
            }
        }
    }
    let k = choose|k: int| 0 <= k < tb.len() && tb[k] == ta[i];
    if k < i {
        assert(ta[k] == tb[k]);
        assert(ranked_before(ta[k], ta[i]));
        lemma_rank_irreflexive(ta[i]);
    }
}

proof fn lemma_top_prefix(all: Seq<AIAgent>, t1: Seq<AIAgent>, t2: Seq<AIAgent>, limit: nat, n: int)
    requires
        is_top_ranking(all, t1, limit),
        is_top_ranking(all, t2, limit),
        0 <= n <= t1.len(),
    ensures
        forall|j: int| 0 <= j < n ==> t1[j] == t2[j],
    decreases n,
{
    if n > 0 {
        let i = n - 1;
        lemma_top_prefix(all, t1, t2, limit, i);
        lemma_top_member(all, t1, t2, limit, i);
        lemma_top_member(all, t2, t1, limit, i);
        let k = choose|k: int| i <= k < t2.len() && t2[k] == t1[i];
        let m = choose|m: int| i <= m < t1.len() && t1[m] == t2[i];
        if k > i && m > i {
            assert(ranked_before(t2[i], t2[k]));
            assert(ranked_before(t1[i], t1[m]));
            lemma_rank_asymmetric(t1[i], t2[i]);
        }
    }
}

/// The leaderboard has exactly one possible content: the first `limit`
/// agents in ranking order are determined by the stored agents.
pub proof fn law_leaderboard_is_determined(all: Seq<AIAgent>, t1: Seq<AIAgent>, t2: Seq<AIAgent>, limit: nat)
    requires
        is_top_ranking(all, t1, limit),
        is_top_ranking(all, t2, limit),
    ensures
        t1 == t2,
{
    lemma_top_prefix(all, t1, t2, limit, t1.len() as int);
    assert(t1 =~= t2);
}

proof fn lemma_sorted_actions_unique(s1: Seq<(u64, ActionRecord)>, s2: Seq<(u64, ActionRecord)>)
    requires
        actions_sorted(s1),
        actions_sorted(s2),
        forall|x: (u64, ActionRecord)| s1.contains(x) <==> s2.contains(x),
    ensures
        s1 == s2,
    decreases s1.len() + s2.len(),
{
    if s1.len() == 0 {
        if s2.len() > 0 {
            assert(s2.contains(s2[0]));
        }
        assert(s1 =~= s2);
    } else if s2.len() == 0 {
        assert(s1.contains(s1[0]));
    } else {
        assert(s1.contains(s1[0]));
        assert(s2.contains(s2[0]));
        let j = choose|j: int| 0 <= j < s2.len() && s2[j] == s1[0];
        let k = choose|k: int| 0 <= k < s1.len() && s1[k] == s2[0];
        if j > 0 {
            assert(s2[0].0 < s2[j].0);
        }
        if k > 0 {
            assert(s1[0].0 < s1[k].0);
        }
        assert(s1[0] == s2[0]);
        let t1 = s1.drop_first();
        let t2 = s2.drop_first();
        assert forall|x: (u64, ActionRecord)| t1.contains(x) <==> t2.contains(x) by {
            if t1.contains(x) {
                let p = choose|p: int| 0 <= p < t1.len() && t1[p] == x;
                assert(s1[p + 1] == x);
                assert(s1.contains(x));
                let q = choose|q: int| 0 <= q < s2.len() && s2[q] == x;
                if q == 0 {
                    assert(s1[0].0 < s1[p + 1].0);
                } else {
                    assert(t2[q - 1] == x);
                }
            }
            if t2.contains(x) {
                let p = choose|p: int| 0 <= p < t2.len() && t2[p] == x;
                assert(s2[p + 1] == x);
                assert(s2.contains(x));
                let q = choose|q: int| 0 <= q < s1.len() && s1[q] == x;
                if q == 0 {
                    assert(s2[0].0 < s2[p + 1].0);
                } else {
                    assert(t1[q - 1] == x);
                }
            }
        }
        assert(actions_sorted(t1)) by {
            assert forall|i: int, m: int| 0 <= i < m < t1.len() implies #[trigger] t1[i].0 < #[trigger] t1[m].0 by {
                assert(s1[i + 1].0 < s1[m + 1].0);
            }
        }
        assert(actions_sorted(t2)) by {
            assert forall|i: int, m: int| 0 <= i < m < t2.len() implies #[trigger] t2[i].0 < #[trigger] t2[m].0 by {
                assert(s2[i + 1].0 < s2[m + 1].0);
            }
        }
        lemma_sorted_actions_unique(t1, t2);
        assert(s1 =~= seq![s1[0]] + t1);
        assert(s2 =~= seq![s2[0]] + t2);
    }
}

/// Storing an action record has exactly one outcome.
pub proof fn law_action_saving_is_determined(
    old: Seq<(u64, ActionRecord)>,
    new1: Seq<(u64, ActionRecord)>,
    new2: Seq<(u64, ActionRecord)>,
    k: u64,
    r: ActionRecord,
)
    requires
        action_saved(old, new1, k, r),
        action_saved(old, new2, k, r),
    ensures
        new1 == new2,
{
    lemma_sorted_actions_unique(new1, new2);
}

proof fn lemma_sorted_agents_no_duplicates(s: Seq<AIAgent>)
    requires
        agents_sorted(s),
    ensures
        s.no_duplicates(),
{
    assert forall|i: int, j: int| 0 <= i < s.len() && 0 <= j < s.len() && i != j implies s[i] != s[j] by {
        if i < j {
            assert(lex_lt(s[i].key(), s[j].key()));
        } else {
            assert(lex_lt(s[j].key(), s[i].key()));
        }
        lemma_lex_irreflexive(s[i].key());
    }
}

/// Storing an agent under an id that no stored agent has adds exactly one
/// agent; so a population count equal to the number of stored agents stays
/// equal to it across a mint of a fresh id (which adds one to the count).
pub proof fn law_fresh_mint_keeps_population_equal_to_agents(
    old: Seq<AIAgent>,
    new: Seq<AIAgent>,
    a: AIAgent,
    population: nat,
)
    requires
        agents_sorted(old),
        agent_saved(old, new, a),
        find_agent(old, a.id@) is None,
        population == old.len(),
    ensures
        population + 1 == new.len(),
{
    broadcast use vstd::set::group_set_axioms, vstd::seq_lib::seq_to_set_is_finite;

    lemma_find_agent_in_sorted(old, a.id@);
    lemma_sorted_agents_no_duplicates(old);
    lemma_sorted_agents_no_duplicates(new);
    assert(!old.contains(a));
    assert forall|x: AIAgent| old.contains(x) implies x.key() != a.key() by {
        if x.key() == a.key() {
            assert(vstd::utf8::decode_utf8(x.key()) == vstd::utf8::decode_utf8(a.key()));
        }
    }
    assert(new.to_set() =~= old.to_set().insert(a));
    old.unique_seq_to_set();
    new.unique_seq_to_set();
}

/// When every stored action number lies below the counter, recording an
/// action under the counter and raising the counter by one keeps every
/// number below the counter and overwrites no earlier record.
pub proof fn law_action_numbers_stay_below_counter(
    old: Seq<(u64, ActionRecord)>,
    new: Seq<(u64, ActionRecord)>,
    n: u64,
    r: ActionRecord,
)
    requires
        actions_sorted(old),
        forall|i: int| 0 <= i < old.len() ==> #[trigger] old[i].0 < n,
        action_saved(old, new, n, r),
    ensures
        forall|i: int| 0 <= i < new.len() ==> #[trigger] new[i].0 < n + 1,
        forall|p: (u64, ActionRecord)| old.contains(p) ==> #[trigger] new.contains(p),
        new.contains((n, r)),
        new.len() == old.len() + 1,
{
    broadcast use vstd::set::group_set_axioms, vstd::seq_lib::seq_to_set_is_finite;

    assert forall|i: int| 0 <= i < new.len() implies #[trigger] new[i].0 < n + 1 by {
        assert(new.contains(new[i]));
        if new[i] != (n, r) {
            let k = choose|k: int| 0 <= k < old.len() && old[k] == new[i];
            assert(old[k].0 < n);
        }
    }
    assert forall|p: (u64, ActionRecord)| old.contains(p) implies #[trigger] new.contains(p) by {
        let k = choose|k: int| 0 <= k < old.len() && old[k] == p;
        assert(old[k].0 < n);
    }
    assert(new.contains((n, r)));
    assert(!old.contains((n, r))) by {
        if old.contains((n, r)) {
            let k = choose|k: int| 0 <= k < old.len() && old[k] == (n, r);
            assert(old[k].0 < n);
        }
    }
    assert(old.no_duplicates()) by {
        assert forall|i: int, j: int| 0 <= i < old.len() && 0 <= j < old.len() && i != j implies old[i] != old[j] by {
            if i < j {
                assert(old[i].0 < old[j].0);
            } else {
                assert(old[j].0 < old[i].0);
            }
        }
    }
    assert(new.no_duplicates()) by {
        assert forall|i: int, j: int| 0 <= i < new.len() && 0 <= j < new.len() && i != j implies new[i] != new[j] by {
            if i < j {
                assert(new[i].0 < new[j].0);
            } else {
                assert(new[j].0 < new[i].0);
            }
        }
    }
    assert(new.to_set() =~= old.to_set().insert((n, r)));
    old.unique_seq_to_set();
    new.unique_seq_to_set();
}

/// From the first stage, an agent evolves at most three times, paying 100,
/// 1000 and 10000 in turn; no stage is ever left for an earlier one.
pub proof fn law_evolution_path()
    ensures
        evolution_cost(EvolutionStage::Seed) == Some(100u128),
        next_stage(EvolutionStage::Seed) == EvolutionStage::Awakened,
        evolution_cost(EvolutionStage::Awakened) == Some(1000u128),
        next_stage(EvolutionStage::Awakened) == EvolutionStage::Autonomous,
        evolution_cost(EvolutionStage::Autonomous) == Some(10000u128),
        next_stage(EvolutionStage::Autonomous) == EvolutionStage::Singularity,
        evolution_cost(EvolutionStage::Singularity) is None,
        forall|s: EvolutionStage| stage_rank(#[trigger] next_stage(s)) >= stage_rank(s),
{
}

proof fn lemma_found_inference_has_key(s: Seq<VerifiedInference>, key: Seq<char>)
    ensures
        find_inference(s, key) matches Some(inf) ==> inf.input_hash@ == key,
    decreases s.len(),
{
    if s.len() > 0 && s[0].input_hash@ != key {
        lemma_found_inference_has_key(s.drop_first(), key);
    }
}

/// An inference that passes the proof check for a reasoning proof is filed
/// under the lower-case hex SHA-256 of the proof and outputs exactly the
/// action's JSON text; so the record of the action it justifies holds that
/// hash as its reasoning hash.
pub proof fn law_checked_inference_matches_proof(
    inferences: Seq<VerifiedInference>,
    proof: Seq<char>,
    action_json: Seq<char>,
)
    ensures
        proof_check(inferences, proof, action_json) matches Ok(inf) ==> {
            &&& inf.input_hash@ == inference_key(proof)
            &&& inf.output@ == action_json
        },
{
    lemma_found_inference_has_key(inferences, inference_key(proof));
}

/// The leaderboard is ordered by balance, richest first: every agent on it
/// has at least the balance of every agent after it and of every stored
/// agent left off it, and agents with equal balances appear in key order.
pub proof fn law_leaderboard_richest_first(all: Seq<AIAgent>, top: Seq<AIAgent>, limit: nat)
    requires
        is_top_ranking(all, top, limit),
    ensures
        top.len() == if limit < all.len() { limit } else { all.len() },
        forall|i: int| 0 <= i < top.len() ==> all.contains(#[trigger] top[i]),
        forall|i: int, j: int| 0 <= i < j < top.len() ==> #[trigger] top[i].balance >= #[trigger] top[j].balance,
        forall|i: int, j: int|
            0 <= i < j < top.len() && top[i].balance == top[j].balance ==> lex_lt(#[trigger] top[i].key(), #[trigger] top[j].key()),
        forall|x: AIAgent, i: int|
            #![trigger all.contains(x), top[i]]
            all.contains(x) && !top.contains(x) && 0 <= i < top.len() ==> top[i].balance >= x.balance,
{
    assert forall|i: int, j: int| 0 <= i < j < top.len() implies #[trigger] top[i].balance >= #[trigger] top[j].balance by {
        assert(ranked_before(top[i], top[j]));
    }
    assert forall|i: int, j: int|
        0 <= i < j < top.len() && top[i].balance == top[j].balance implies lex_lt(#[trigger] top[i].key(), #[trigger] top[j].key()) by {
        assert(ranked_before(top[i], top[j]));
    }
    assert forall|x: AIAgent, i: int|
        #![trigger all.contains(x), top[i]]
        all.contains(x) && !top.contains(x) && 0 <= i < top.len() implies top[i].balance >= x.balance by {
        assert(ranked_before(top[i], x));
    }
}

/// A personality is admitted exactly when each of its five traits is at
/// most 100; a single trait above 100 is refused.
pub proof fn law_personality_admitted_iff_traits_at_most_100(p: Personality)
    ensures
        personality_in_range(p) <==> (p.greed <= 100 && p.fear <= 100 && p.cooperation <= 100
            && p.aggression <= 100 && p.risk_tolerance <= 100),
        p.greed > 100 || p.fear > 100 || p.cooperation > 100 || p.aggression > 100
            || p.risk_tolerance > 100 ==> !personality_in_range(p),
{
}

/// The proof check succeeds exactly when an inference is filed under the
/// proof's key and its output is the action's JSON text, and it then hands
/// back that inference.
pub proof fn law_proof_check_succeeds_on_matching_output(
    inferences: Seq<VerifiedInference>,
    proof: Seq<char>,
    action_json: Seq<char>,
)
    ensures
        forall|inf: VerifiedInference|
            #[trigger] find_inference(inferences, inference_key(proof)) == Some(inf) && inf.output@ == action_json
            ==> proof_check(inferences, proof, action_json) == Ok::<VerifiedInference, crate::types::ContractError>(inf),
        proof_check(inferences, proof, action_json) is Ok <==> (find_inference(inferences, inference_key(proof)) is Some
            && find_inference(inferences, inference_key(proof))->0.output@ == action_json),
        find_inference(inferences, inference_key(proof)) is None ==> proof_check(inferences, proof, action_json)
            == Err::<VerifiedInference, crate::types::ContractError>(
            crate::types::ContractError::NotFound(crate::types::StoredKind::Inference),
        ),
        find_inference(inferences, inference_key(proof)) is Some && find_inference(inferences, inference_key(proof))->0.output@
            != action_json ==> proof_check(inferences, proof, action_json) == Err::<
            VerifiedInference,
            crate::types::ContractError,
        >(crate::types::ContractError::InferenceMismatch),
{
}

/// After an agent evolves at block `height` paying `cost`, reading it back
/// gives the agent with its next stage, its balance lowered by exactly the
/// cost, its last action at `height`, and everything else as it was.
pub proof fn law_evolved_agent_as_stored(
    old: Seq<AIAgent>,
    new: Seq<AIAgent>,
    a: AIAgent,
    cost: u128,
    height: u64,
)
    requires
        cost <= a.balance,
        agent_saved(old, new, evolved_agent(a, cost, height)),
    ensures
        find_agent(new, a.id@) matches Some(b) && {
            &&& b.last_action == height
            &&& b.balance == a.balance - cost
            &&& b.evolution_stage == next_stage(a.evolution_stage)
            &&& b.id == a.id
            &&& b.owner == a.owner
            &&& b.wallet == a.wallet
            &&& b.personality == a.personality
            &&& b.memory_root == a.memory_root
            &&& b.reputation == a.reputation
        },
{
    law_saved_agent_is_found(old, new, evolved_agent(a, cost, height));
}

/// The record of an action entry, when it belongs to agent `who`.
pub open spec fn record_of(who: Seq<char>) -> spec_fn((u64, ActionRecord)) -> Option<ActionRecord> {
    |p: (u64, ActionRecord)| if p.1.agent_id@ == who { Some(p.1) } else { None }
}

proof fn lemma_reverse_push<A>(a: Seq<A>, y: A)
    ensures
        (a + seq![y]).reverse() == seq![y] + a.reverse(),
{
    assert((a + seq![y]).reverse() =~= seq![y] + a.reverse());
}

/// The records of an agent are those among the newest `limit` stored
/// records (all of them when `limit` reaches their number) that belong to
/// the agent, newest first.
pub proof fn law_recent_actions_are_the_agents_newest(s: Seq<(u64, ActionRecord)>, who: Seq<char>, limit: nat)
    ensures
        recent_actions(s, who, limit) == s.subrange(
            s.len() - (if limit < s.len() { limit } else { s.len() }),
            s.len() as int,
        ).filter_map(record_of(who)).reverse(),
        limit >= s.len() ==> recent_actions(s, who, limit) == s.filter_map(record_of(who)).reverse(),
    decreases limit,
{
    let n = s.len();
    let k: int = if limit < n { limit as int } else { n as int };
    let u = s.subrange(n - k, n as int);
    if limit == 0 || n == 0 {
        assert(u =~= Seq::<(u64, ActionRecord)>::empty());
        assert(u.filter_map(record_of(who)).reverse() =~= Seq::<ActionRecord>::empty());
    } else {
        let t = s.drop_last();
        law_recent_actions_are_the_agents_newest(t, who, (limit - 1) as nat);
        assert(u.drop_last() =~= t.subrange((n - 1) - (k - 1), n - 1));
        assert(u.last() == s.last());
        let rest = u.drop_last().filter_map(record_of(who));
        if s.last().1.agent_id@ == who {
            assert(u.filter_map(record_of(who)) == rest + seq![s.last().1]);
            lemma_reverse_push(rest, s.last().1);
        } else {
            assert(u.filter_map(record_of(who)) == rest);
        }
    }
    if limit >= n {
        assert(s.subrange(0, n as int) =~= s);
    }
}

/// How one action changes the traits of the agent taking it: a purchase
/// raises greed by 2, any other trade raises fear by 1, an attack raises
/// aggression by 3 and lowers cooperation by 2, an alliance raises
/// cooperation by 5, each stopping at 100 going up and at 0 going down;
/// every other trait, and every trait under other actions, stays as it was.
pub proof fn law_action_changes_traits(p: Personality, action: ActionType)
    ensures
        ({
            let q = shaped_personality(p, action);
            match action {
                ActionType::Trade { side, .. } => if side@ == "buy"@ {
                    &&& q.greed == if p.greed + 2 <= 100 { p.greed + 2 } else { 100 }
                    &&& q.fear == p.fear && q.cooperation == p.cooperation
                    &&& q.aggression == p.aggression && q.risk_tolerance == p.risk_tolerance
                } else {
                    &&& q.fear == if p.fear + 1 <= 100 { p.fear + 1 } else { 100 }
                    &&& q.greed == p.greed && q.cooperation == p.cooperation
                    &&& q.aggression == p.aggression && q.risk_tolerance == p.risk_tolerance
                },
                ActionType::Attack { .. } => {
                    &&& q.aggression == if p.aggression + 3 <= 100 { p.aggression + 3 } else { 100 }
                    &&& q.cooperation == if p.cooperation >= 2 { p.cooperation - 2 } else { 0 }
                    &&& q.greed == p.greed && q.fear == p.fear && q.risk_tolerance == p.risk_tolerance
                },
                ActionType::Alliance { .. } => {
                    &&& q.cooperation == if p.cooperation + 5 <= 100 { p.cooperation + 5 } else { 100 }
                    &&& q.greed == p.greed && q.fear == p.fear
                    &&& q.aggression == p.aggression && q.risk_tolerance == p.risk_tolerance
                },
                _ => q == p,
            }
        }),
{
}

/// After an action at block `height`, reading the agent back gives it with
/// its traits changed by the action, its last action at `height`, and its
/// balance, stage and everything else as they were.
pub proof fn law_acted_agent_as_stored(
    old: Seq<AIAgent>,
    new: Seq<AIAgent>,
    a: AIAgent,
    action: ActionType,
    height: u64,
)
    requires
        agent_saved(old, new, acted_agent(a, action, height)),
    ensures
        find_agent(new, a.id@) matches Some(b) && {
            &&& b.last_action == height
            &&& b.personality == shaped_personality(a.personality, action)
            &&& b.balance == a.balance
            &&& b.evolution_stage == a.evolution_stage
            &&& b.id == a.id
            &&& b.owner == a.owner
            &&& b.wallet == a.wallet
            &&& b.memory_root == a.memory_root
            &&& b.reputation == a.reputation
        },
{
    law_saved_agent_is_found(old, new, acted_agent(a, action, height));
}

/// The record of an action names the acting agent, the action, the hash the
/// justifying inference is filed under, the transaction and the block time.
pub proof fn law_action_record_fields(
    a: AIAgent,
    action: ActionType,
    inference: VerifiedInference,
    env: ChainEnv,
)
    ensures
        action_record(a, action, inference, env).agent_id == a.id,
        action_record(a, action, inference, env).action_type == action,
        action_record(a, action, inference, env).reasoning_hash == inference.input_hash,
        action_record(a, action, inference, env).tx_hash == env.tx_hash,
        action_record(a, action, inference, env).timestamp == env.time_seconds,
{
}

/// A freshly minted agent, read back, belongs to its sender, holds the
/// initial funds and the personality it was minted with, starts at the first
/// stage with a reputation of 100, and last acted at the mint's height.
pub proof fn law_minted_agent_as_stored(
    old: Seq<AIAgent>,
    new: Seq<AIAgent>,
    plan: MintPlan,
    wallet: String,
    sender: String,
    env: ChainEnv,
    personality: Personality,
    initial_funds: u128,
)
    requires
        is_mint_plan(plan, sender, env, personality, initial_funds),
        agent_saved(old, new, AIAgent { wallet: wallet, ..plan.agent }),
    ensures
        find_agent(new, plan.agent.id@) matches Some(b) && {
            &&& b.id@ == agent_id_text(sender@, env.height)
            &&& b.owner == sender
            &&& b.wallet == wallet
            &&& b.balance == initial_funds
            &&& b.personality == personality
            &&& b.evolution_stage == EvolutionStage::Seed
            &&& b.reputation == 100
            &&& b.last_action == env.height
        },
{
    law_saved_agent_is_found(old, new, AIAgent { wallet: wallet, ..plan.agent });
}

/// The agent an address acts for is a stored agent that the address owns or
/// is the wallet of, and no agent before it in key order is; when there is
/// none, no stored agent is owned by the address or has it as wallet.
pub proof fn law_authority_is_first_owned_or_wallet(s: Seq<AIAgent>, sender: Seq<char>)
    ensures
        first_authorized(s, sender) matches Some(a) ==> exists|i: int|
            0 <= i < s.len() && #[trigger] s[i] == a && (a.owner@ == sender || a.wallet@ == sender)
                && forall|j: int| #![trigger s[j]] 0 <= j < i ==> !(s[j].owner@ == sender || s[j].wallet@ == sender),
        first_authorized(s, sender) is None ==> forall|i: int|
            #![trigger s[i]] 0 <= i < s.len() ==> !(s[i].owner@ == sender || s[i].wallet@ == sender),
    decreases s.len(),
{
    if s.len() > 0 {
        let t = s.drop_first();
        law_authority_is_first_owned_or_wallet(t, sender);
        if s[0].owner@ == sender || s[0].wallet@ == sender {
            assert(s[0] == first_authorized(s, sender)->0);
        } else {
            assert(first_authorized(s, sender) == first_authorized(t, sender));
            if first_authorized(s, sender) is Some {
                let a = first_authorized(s, sender)->0;
                let i = choose|i: int| 0 <= i < t.len() && #[trigger] t[i] == a && (a.owner@ == sender || a.wallet@ == sender)
                    && forall|j: int| #![trigger t[j]] 0 <= j < i ==> !(t[j].owner@ == sender || t[j].wallet@ == sender);
                assert(s[i + 1] == a);
                assert forall|j: int| #![trigger s[j]] 0 <= j < i + 1 implies !(s[j].owner@ == sender || s[j].wallet@ == sender) by {
                    if j > 0 {
                        assert(s[j] == t[j - 1]);
                        assert(!(t[j - 1].owner@ == sender || t[j - 1].wallet@ == sender));
                    }
                }
            } else {
                assert forall|i: int| #![trigger s[i]] 0 <= i < s.len() implies !(s[i].owner@ == sender || s[i].wallet@ == sender) by {
                    if i > 0 {
                        assert(s[i] == t[i - 1]);
                        assert(!(t[i - 1].owner@ == sender || t[i - 1].wallet@ == sender));
                    }
                }
            }
        }
    }
}

/// Agents in key order hold each id at most once: looking an id up gives
/// exactly the stored agent with that id, and nothing when none has it.
pub proof fn law_lookup_by_id(s: Seq<AIAgent>, id: Seq<char>)
    requires
        agents_sorted(s),
    ensures
        forall|x: AIAgent| find_agent(s, id) == Some(x) <==> (s.contains(x) && x.id@ == id),
        find_agent(s, id) is None <==> !(exists|x: AIAgent| s.contains(x) && x.id@ == id),
{
    lemma_find_agent_in_sorted(s, id);
}

/// The number a string of decimal digits denotes.
pub open spec fn decimal_value(s: Seq<char>) -> int
    decreases s.len(),
{
    if s.len() == 0 {
        0
    } else {
        10 * decimal_value(s.drop_last()) + (s.last() as int - 48)
    }
}

/// The value of a lower-case hexadecimal digit.
pub open spec fn hex_digit_value(c: char) -> int {
    if c as int <= 57 {
        c as int - 48
    } else {
        c as int - 87
    }
}

proof fn lemma_digit_char(d: nat)
    requires
        d < 16,
    ensures
        (digit_char(d) as int) == if d < 10 { 48 + d } else { 87 + d },
{
}

/// The decimal rendering of a number is a non-empty string of digits,
/// without a leading zero unless the number is zero, that reads back as the
/// number.
pub proof fn law_decimal_reads_back(n: nat)
    ensures
        decimal(n).len() >= 1,
        forall|i: int| 0 <= i < decimal(n).len() ==> '0' <= #[trigger] decimal(n)[i] <= '9',
        decimal(n)[0] == '0' ==> n == 0,
        decimal_value(decimal(n)) == n,
    decreases n,
{
    if n < 10 {
        lemma_digit_char(n);
        assert(decimal(n).drop_last() =~= Seq::<char>::empty());
        assert(decimal(n).last() == digit_char(n));
        assert(decimal_value(decimal(n)) == 10 * decimal_value(Seq::<char>::empty()) + (digit_char(n) as int - 48));
    } else {
        law_decimal_reads_back(n / 10);
        lemma_digit_char(n % 10);
        let d = decimal(n);
        assert(d == decimal(n / 10) + seq![digit_char(n % 10)]);
        assert(d.drop_last() =~= decimal(n / 10));
        assert(d.last() == digit_char(n % 10));
        assert(decimal_value(d) == 10 * decimal_value(decimal(n / 10)) + (digit_char(n % 10) as int - 48));
        assert(10 * (n / 10) + n % 10 == n);
        assert(d[0] == decimal(n / 10)[0]);
        assert forall|i: int| 0 <= i < d.len() implies '0' <= #[trigger] d[i] <= '9' by {
            if i < d.len() - 1 {
                assert(d[i] == decimal(n / 10)[i]);
            }
        }
    }
}

/// The hexadecimal rendering of a byte string has two lower-case digits per
/// byte, the high nibble first, and reads back as the bytes.
pub proof fn law_hex_reads_back(bytes: Seq<u8>)
    ensures
        hex_lower(bytes).len() == 2 * bytes.len(),
        forall|i: int| 0 <= i < hex_lower(bytes).len() ==> ('0' <= #[trigger] hex_lower(bytes)[i] <= '9'
            || 'a' <= hex_lower(bytes)[i] <= 'f'),
        forall|i: int| 0 <= i < bytes.len() ==> 16 * hex_digit_value(#[trigger] hex_lower(bytes)[2 * i])
            + hex_digit_value(hex_lower(bytes)[2 * i + 1]) == bytes[i],
    decreases bytes.len(),
{
    if bytes.len() > 0 {
        let rest = bytes.drop_first();
        law_hex_reads_back(rest);
        let h = hex_lower(bytes);
        let hr = hex_lower(rest);
        let b = bytes[0];
        lemma_digit_char((b / 16) as nat);
        lemma_digit_char((b % 16) as nat);
        assert(h == seq![digit_char((b / 16) as nat), digit_char((b % 16) as nat)] + hr);
        assert forall|i: int| 0 <= i < h.len() implies ('0' <= #[trigger] h[i] <= '9' || 'a' <= h[i] <= 'f') by {
            if i >= 2 {
                assert(h[i] == hr[i - 2]);
            }
        }
        assert forall|i: int| 0 <= i < bytes.len() implies 16 * hex_digit_value(#[trigger] h[2 * i])
            + hex_digit_value(h[2 * i + 1]) == bytes[i] by {
            if i > 0 {
                assert(h[2 * i] == hr[2 * (i - 1)]);
                assert(h[2 * i + 1] == hr[2 * (i - 1) + 1]);
                assert(bytes[i] == rest[i - 1]);
            }
        }
    }
}

/// An agent's id is `AI-`, then the digits of the block height, then `-`,
/// then the text whose UTF-8 bytes are exactly the first eight bytes of the
/// creator's address.
pub proof fn law_agent_id_parts(creator: Seq<char>, height: u64)
    requires
        has_address_prefix(creator),
    ensures
        exists|digits: Seq<char>, prefix: Seq<char>| {
            &&& #[trigger] agent_id_text(creator, height) == "AI-"@ + digits + "-"@ + prefix
            &&& decimal_value(digits) == height
            &&& forall|i: int| 0 <= i < digits.len() ==> '0' <= #[trigger] digits[i] <= '9'
            &&& vstd::utf8::encode_utf8(prefix) == vstd::utf8::encode_utf8(creator).subrange(0, 8)
        },
{
    broadcast use vstd::utf8::valid_utf8_split, vstd::utf8::decode_utf8_encode_utf8;

    law_decimal_reads_back(height as nat);
    let digits = decimal(height as nat);
    let bytes = vstd::utf8::encode_utf8(creator);
    let prefix = vstd::utf8::decode_utf8(bytes.subrange(0, 8));
    assert(vstd::utf8::valid_utf8(bytes.subrange(0, 8)));
    assert(agent_id_text(creator, height) == "AI-"@ + digits + "-"@ + prefix);
}

/// An agent's wallet address is `inj1` followed by its id in lower case.
pub proof fn law_wallet_is_lowercased_id(agent_id: Seq<char>)
    ensures
        wallet_text(agent_id) == "inj1"@ + lowercase_of(agent_id),
{
}

/// The deployment's trade and hire helpers are asked to pay from the acting
/// agent's wallet, with the trade's market, side, amount and price or the
/// hire's target and fee, and the combat helper is asked about the acting
/// agent, the damage and the target.
pub proof fn law_helpers_are_asked_for_the_agents_wallet<M, FT, FC, FH>(
    trade: FT,
    combat: FC,
    hire: FH,
    a: AIAgent,
    action: ActionType,
    res: Result<RuleOutcome<M>, crate::types::ContractError>,
) where
    FT: Fn(String, String, u128, u128, String) -> Result<M, crate::types::ContractError>,
    FC: Fn(u32, &AIAgent, &String) -> Result<String, crate::types::ContractError>,
    FH: Fn(String, u128, String) -> Result<M, crate::types::ContractError>,

    requires
        helper_result(trade, combat, hire, a, action, res),
    ensures
        action matches ActionType::Trade { market, side, amount, price } ==> exists|x: Result<M, crate::types::ContractError>|
            #[trigger] trade.ensures((market, side, amount, price, a.wallet), x),
        action matches ActionType::Hire { target, fee } ==> exists|x: Result<M, crate::types::ContractError>|
            #[trigger] hire.ensures((target, fee, a.wallet), x),
        action matches ActionType::Attack { target, damage } ==> exists|x: Result<String, crate::types::ContractError>|
            #[trigger] combat.ensures((damage, &a, &target), x),
        !(action is Trade || action is Hire || action is Attack) ==> res matches Ok(RuleOutcome::Nothing),
{
    match action {
        ActionType::Trade { market, side, amount, price } => {
            match res {
                Ok(RuleOutcome::Message(m)) => {
                    assert(trade.ensures((market, side, amount, price, a.wallet), Ok::<M, crate::types::ContractError>(m)));
                },
                Err(e) => {
                    assert(trade.ensures((market, side, amount, price, a.wallet), Err::<M, crate::types::ContractError>(e)));
                },
                _ => {},
            }
        },
        ActionType::Hire { target, fee } => {
            match res {
                Ok(RuleOutcome::Message(m)) => {
                    assert(hire.ensures((target, fee, a.wallet), Ok::<M, crate::types::ContractError>(m)));
                },
                Err(e) => {
                    assert(hire.ensures((target, fee, a.wallet), Err::<M, crate::types::ContractError>(e)));
                },
                _ => {},
            }
        },
        ActionType::Attack { target, damage } => {
            match res {
                Ok(RuleOutcome::CombatResult(c)) => {
                    assert(combat.ensures((damage, &a, &target), Ok::<String, crate::types::ContractError>(c)));
                },
                Err(e) => {
                    assert(combat.ensures((damage, &a, &target), Err::<String, crate::types::ContractError>(e)));
                },
                _ => {},
            }
        },
        _ => {},
    }
}

} // verus!
