//! The stored collections of the world and the ways they are read and
//! written: agents by the bytes of their id, action records by number,
//! inferences by their input hash.
use vstd::prelude::*;
use vstd::utf8::*;

use crate::order::{bytes_less, lemma_lex_irreflexive, lemma_lex_total, lemma_lex_transitive, lex_lt};
use crate::types::{AIAgent, ActionRecord, VerifiedInference};

verus! {

broadcast use {vstd::utf8::encode_utf8_decode_utf8, vstd::utf8::encode_utf8_valid_utf8};

// ---------------------------------------------------------------- agents

/// Agents in strictly ascending order of their keys.
pub open spec fn agents_sorted(s: Seq<AIAgent>) -> bool {
    forall|i: int, j: int| 0 <= i < j < s.len() ==> lex_lt(#[trigger] s[i].key(), #[trigger] s[j].key())
}

/// `new` is what storing agent `a` under its key makes of `old`: the agents
/// of `old` under other keys, and `a`, in ascending order of keys.
pub open spec fn agent_saved(old: Seq<AIAgent>, new: Seq<AIAgent>, a: AIAgent) -> bool {
    &&& agents_sorted(new)
    &&& forall|x: AIAgent| #[trigger]
        new.contains(x) <==> (x == a || (old.contains(x) && x.key() != a.key()))
}

/// The agent stored with the given id, if any.
pub open spec fn find_agent(s: Seq<AIAgent>, id: Seq<char>) -> Option<AIAgent>
    decreases s.len(),
{
    if s.len() == 0 {
        None
    } else if s[0].id@ == id {
        Some(s[0])
    } else {
        find_agent(s.drop_first(), id)
    }
}

/// Whether an address may act for an agent: it owns it or is its wallet.
pub open spec fn acts_for(a: AIAgent, sender: Seq<char>) -> bool {
    a.owner@ == sender || a.wallet@ == sender
}

/// The first agent, in stored order, for which `sender` may act.
pub open spec fn first_authorized(s: Seq<AIAgent>, sender: Seq<char>) -> Option<AIAgent>
    decreases s.len(),
{
    if s.len() == 0 {
        None
    } else if acts_for(s[0], sender) {
        Some(s[0])
    } else {
        first_authorized(s.drop_first(), sender)
    }
}

proof fn lemma_key_injective(a: AIAgent, b: AIAgent)
    ensures
        (a.key() == b.key()) == (a.id@ == b.id@),
{
    if a.key() == b.key() {
        assert(decode_utf8(encode_utf8(a.id@)) == decode_utf8(encode_utf8(b.id@)));
    }
}

/// Stores an agent under its key, replacing the agent stored there.
pub fn save_agent(v: &mut Vec<AIAgent>, a: AIAgent)
    requires
        agents_sorted(old(v)@),
    ensures
        agent_saved(old(v)@, final(v)@, a),
{
    let ghost s = v@;
    let a_key = a.id.as_str().as_bytes();
    let mut i: usize = 0;
    while i < v.len() && bytes_less(v[i].id.as_str().as_bytes(), a_key)
        invariant
            v@ == s,
            agents_sorted(s),
            a_key@ == a.key(),
            i <= s.len(),
            forall|j: int| 0 <= j < i ==> lex_lt(#[trigger] s[j].key(), a.key()),
        decreases s.len() - i,
    {
        i = i + 1;
    }
    if i < v.len() && v[i].id == a.id {
        proof {
            lemma_key_injective(s[i as int], a);
        }
        v.set(i, a);
        proof {
            let n = v@;
            assert forall|p: int, q: int| 0 <= p < q < n.len() implies lex_lt(
                #[trigger] n[p].key(),
                #[trigger] n[q].key(),
            ) by {
                assert(lex_lt(s[p].key(), s[q].key()));
            }
            assert forall|x: AIAgent| #[trigger]
                n.contains(x) <==> (x == a || (s.contains(x) && x.key() != a.key())) by {
                if n.contains(x) {
                    let k = choose|k: int| 0 <= k < n.len() && n[k] == x;
                    if k != i {
                        assert(s[k] == x);
                        if k < i {
                            assert(lex_lt(s[k].key(), s[i as int].key()));
                        } else {
                            assert(lex_lt(s[i as int].key(), s[k].key()));
                        }
                        lemma_lex_irreflexive(x.key());
                    }
                }
                if x == a {
                    assert(n[i as int] == a);
                }
                if s.contains(x) && x.key() != a.key() {
                    let k = choose|k: int| 0 <= k < s.len() && s[k] == x;
                    assert(k != i);
                    assert(n[k] == x);
                }
            }
        }
    } else {
        proof {
            if i < s.len() {
                lemma_key_injective(s[i as int], a);
                lemma_lex_total(s[i as int].key(), a.key());
                assert forall|j: int| i < j < s.len() implies lex_lt(a.key(), #[trigger] s[j].key()) by {
                    lemma_lex_transitive(a.key(), s[i as int].key(), s[j].key());
                }
            }
        }
        v.insert(i, a);
        proof {
            let n = v@;
            assert(n == s.insert(i as int, a));
            assert forall|p: int, q: int| 0 <= p < q < n.len() implies lex_lt(
                #[trigger] n[p].key(),
                #[trigger] n[q].key(),
            ) by {
                if q < i {
                } else if q == i {
                } else if p < i {
                    assert(lex_lt(s[p].key(), s[q - 1].key()));
                } else if p == i {
                } else {
                    assert(lex_lt(s[p - 1].key(), s[q - 1].key()));
                }
            }
            assert forall|x: AIAgent| #[trigger]
                n.contains(x) <==> (x == a || (s.contains(x) && x.key() != a.key())) by {
                if n.contains(x) {
                    let k = choose|k: int| 0 <= k < n.len() && n[k] == x;
                    if k < i {
                        assert(s[k] == x);
                        lemma_lex_irreflexive(a.key());
                    } else if k > i {
                        assert(s[k - 1] == x);
                        lemma_lex_irreflexive(a.key());
                    }
                }
                if x == a {
                    assert(n[i as int] == a);
                }
                if s.contains(x) && x.key() != a.key() {
                    let k = choose|k: int| 0 <= k < s.len() && s[k] == x;
                    if k < i {
                        assert(n[k] == x);
                    } else {
                        assert(n[k + 1] == x);
                    }
                }
            }
        }
    }
}

/// Finds the position of the agent stored with the given id.
pub fn position_of_agent(v: &Vec<AIAgent>, id: &String) -> (r: Option<usize>)
    ensures
        match r {
            Some(i) => i < v@.len() && find_agent(v@, id@) == Some(v@[i as int]),
            None => find_agent(v@, id@) is None,
        },
{
    let mut i: usize = 0;
    proof {
        assert(v@.skip(0) =~= v@);
    }
    while i < v.len()
        invariant
            i <= v@.len(),
            find_agent(v@, id@) == find_agent(v@.skip(i as int), id@),
        decreases v@.len() - i,
    {
        proof {
            assert(v@.skip(i as int).drop_first() =~= v@.skip(i + 1));
            assert(v@.skip(i as int)[0] == v@[i as int]);
        }
        if v[i].id == *id {
            return Some(i);
        }
        i = i + 1;
    }
    None
}

/// Finds the position of the first agent for which `sender` may act.
pub fn position_of_authorized(v: &Vec<AIAgent>, sender: &String) -> (r: Option<usize>)
    ensures
        match r {
            Some(i) => i < v@.len() && first_authorized(v@, sender@) == Some(v@[i as int]),
            None => first_authorized(v@, sender@) is None,
        },
{
    let mut i: usize = 0;
    proof {
        assert(v@.skip(0) =~= v@);
    }
    while i < v.len()
        invariant
            i <= v@.len(),
            first_authorized(v@, sender@) == first_authorized(v@.skip(i as int), sender@),
        decreases v@.len() - i,
    {
        proof {
            assert(v@.skip(i as int).drop_first() =~= v@.skip(i + 1));
            assert(v@.skip(i as int)[0] == v@[i as int]);
        }
        if v[i].owner == *sender || v[i].wallet == *sender {
            return Some(i);
        }
        i = i + 1;
    }
    None
}

// ---------------------------------------------------------------- actions

/// Action records in strictly ascending order of their numbers.
pub open spec fn actions_sorted(s: Seq<(u64, ActionRecord)>) -> bool {
    forall|i: int, j: int| 0 <= i < j < s.len() ==> #[trigger] s[i].0 < #[trigger] s[j].0
}

/// `new` is what storing record `r` under number `k` makes of `old`.
pub open spec fn action_saved(
    old: Seq<(u64, ActionRecord)>,
    new: Seq<(u64, ActionRecord)>,
    k: u64,
    r: ActionRecord,
) -> bool {
    &&& actions_sorted(new)
    &&& forall|p: (u64, ActionRecord)| #[trigger]
        new.contains(p) <==> (p == (k, r) || (old.contains(p) && p.0 != k))
}

/// The records of agent `who` among the newest `limit` records, newest first.
pub open spec fn recent_actions(s: Seq<(u64, ActionRecord)>, who: Seq<char>, limit: nat) -> Seq<
    ActionRecord,
>
    decreases limit,
{
    if limit == 0 || s.len() == 0 {
        seq![]
    } else {
        let rest = recent_actions(s.drop_last(), who, (limit - 1) as nat);
        if s.last().1.agent_id@ == who {
            seq![s.last().1] + rest
        } else {
            rest
        }
    }
}

/// Stores an action record under a number, replacing the record stored there.
pub fn save_action(v: &mut Vec<(u64, ActionRecord)>, k: u64, r: ActionRecord)
    requires
        actions_sorted(old(v)@),
    ensures
        action_saved(old(v)@, final(v)@, k, r),
{
    let ghost s = v@;
    let mut i: usize = 0;
    while i < v.len() && v[i].0 < k
        invariant
            v@ == s,
            actions_sorted(s),
            i <= s.len(),
            forall|j: int| 0 <= j < i ==> #[trigger] s[j].0 < k,
        decreases s.len() - i,
    {
        i = i + 1;
    }
    let ghost e = (k, r);
    if i < v.len() && v[i].0 == k {
        v.set(i, (k, r));
        proof {
            let n = v@;
            assert forall|p: int, q: int| 0 <= p < q < n.len() implies #[trigger] n[p].0
                < #[trigger] n[q].0 by {
                assert(s[p].0 < s[q].0);
            }
            assert forall|x: (u64, ActionRecord)| #[trigger]
                n.contains(x) <==> (x == e || (s.contains(x) && x.0 != k)) by {
                if n.contains(x) {
                    let m = choose|m: int| 0 <= m < n.len() && n[m] == x;
                    if m != i {
                        assert(s[m] == x);
                        if m < i {
                            assert(s[m].0 < s[i as int].0);
                        } else {
                            assert(s[i as int].0 < s[m].0);
                        }
                    }
                }
                if x == e {
                    assert(n[i as int] == e);
                }
                if s.contains(x) && x.0 != k {
                    let m = choose|m: int| 0 <= m < s.len() && s[m] == x;
                    assert(n[m] == x);
                }
            }
        }
    } else {
        v.insert(i, (k, r));
        proof {
            let n = v@;
            assert(n == s.insert(i as int, e));
            assert forall|p: int, q: int| 0 <= p < q < n.len() implies #[trigger] n[p].0
                < #[trigger] n[q].0 by {
                if q < i {
                } else if q == i {
                } else if p < i {
                    assert(s[p].0 < s[q - 1].0);
                } else if p == i {
                    assert(s[i as int].0 <= s[q - 1].0);
                } else {
                    assert(s[p - 1].0 < s[q - 1].0);
                }
            }
            assert forall|x: (u64, ActionRecord)| #[trigger]
                n.contains(x) <==> (x == e || (s.contains(x) && x.0 != k)) by {
                if n.contains(x) {
                    let m = choose|m: int| 0 <= m < n.len() && n[m] == x;
                    if m < i {
                        assert(s[m] == x);
                    } else if m > i {
                        assert(s[m - 1] == x);
                        assert(s[i as int].0 <= s[m - 1].0);
                    }
                }
                if x == e {
                    assert(n[i as int] == e);
                }
                if s.contains(x) && x.0 != k {
                    let m = choose|m: int| 0 <= m < s.len() && s[m] == x;
                    if m < i {
                        assert(n[m] == x);
                    } else {
                        assert(n[m + 1] == x);
                    }
                }
            }
        }
    }
}

/// Collects the records of agent `who` among the newest `limit` records.
pub fn collect_recent(v: &Vec<(u64, ActionRecord)>, who: &String, limit: u32) -> (out: Vec<
    ActionRecord,
>)
    ensures
        out@ == recent_actions(v@, who@, limit as nat),
{
    let ghost s = v@;
    let mut out: Vec<ActionRecord> = Vec::new();
    let mut j: usize = v.len();
    let mut t: u32 = 0;
    proof {
        assert(s.take(j as int) =~= s);
        assert(out@ + recent_actions(s.take(j as int), who@, (limit - t) as nat) =~= recent_actions(
            s,
            who@,
            limit as nat,
        ));
    }
    while j > 0 && t < limit
        invariant
            s == v@,
            j <= s.len(),
            t <= limit,
            out@ + recent_actions(s.take(j as int), who@, (limit - t) as nat) == recent_actions(
                s,
                who@,
                limit as nat,
            ),
        decreases j,
    {
        let ghost pre = s.take(j as int);
        proof {
            assert(pre.drop_last() =~= s.take(j - 1));
            assert(pre.last() == s[j - 1]);
        }
        let entry = &v[j - 1];
        if entry.1.agent_id == *who {
            out.push(entry.1.duplicate());
            proof {
                assert(recent_actions(pre, who@, (limit - t) as nat) == seq![s[j - 1].1]
                    + recent_actions(s.take(j - 1), who@, (limit - t - 1) as nat));
                assert(out@ + recent_actions(s.take(j - 1), who@, (limit - t - 1) as nat)
                    =~= recent_actions(s, who@, limit as nat));
            }
        }
        j = j - 1;
        t = t + 1;
    }
    proof {
        assert(recent_actions(s.take(j as int), who@, (limit - t) as nat) =~= Seq::<
            ActionRecord,
        >::empty());
        assert(out@ =~= recent_actions(s, who@, limit as nat));
    }
    out
}

// ---------------------------------------------------------------- inferences

/// The inference filed under the given input hash, if any.
pub open spec fn find_inference(s: Seq<VerifiedInference>, key: Seq<char>) -> Option<
    VerifiedInference,
>
    decreases s.len(),
{
    if s.len() == 0 {
        None
    } else if s[0].input_hash@ == key {
        Some(s[0])
    } else {
        find_inference(s.drop_first(), key)
    }
}

/// Files an inference under its input hash, replacing the one filed there.
pub open spec fn inference_upsert(s: Seq<VerifiedInference>, inf: VerifiedInference) -> Seq<
    VerifiedInference,
>
    decreases s.len(),
{
    if s.len() == 0 {
        seq![inf]
    } else if s[0].input_hash@ == inf.input_hash@ {
        seq![inf] + s.drop_first()
    } else {
        seq![s[0]] + inference_upsert(s.drop_first(), inf)
    }
}

/// After filing an inference, its hash finds it and every other hash finds
/// what it found before.
pub proof fn law_filed_inference_is_found(s: Seq<VerifiedInference>, inf: VerifiedInference, key: Seq<char>)
    ensures
        find_inference(inference_upsert(s, inf), key) == if key == inf.input_hash@ {
            Some(inf)
        } else {
            find_inference(s, key)
        },
    decreases s.len(),
{
    let u = inference_upsert(s, inf);
    if s.len() == 0 {
        assert(u.drop_first() =~= Seq::<VerifiedInference>::empty());
    } else if s[0].input_hash@ == inf.input_hash@ {
        assert(u.drop_first() =~= s.drop_first());
    } else {
        assert(u.drop_first() =~= inference_upsert(s.drop_first(), inf));
        law_filed_inference_is_found(s.drop_first(), inf, key);
    }
}

proof fn lemma_upsert_at(s: Seq<VerifiedInference>, inf: VerifiedInference, i: int)
    requires
        0 <= i < s.len(),
        s[i].input_hash@ == inf.input_hash@,
        forall|j: int| 0 <= j < i ==> #[trigger] s[j].input_hash@ != inf.input_hash@,
    ensures
        inference_upsert(s, inf) == s.update(i, inf),
    decreases i,
{
    if i == 0 {
        assert(inference_upsert(s, inf) =~= s.update(i, inf));
    } else {
        let t = s.drop_first();
        assert forall|j: int| 0 <= j < i - 1 implies #[trigger] t[j].input_hash@
            != inf.input_hash@ by {
            assert(t[j] == s[j + 1]);
        }
        lemma_upsert_at(t, inf, i - 1);
        assert(inference_upsert(s, inf) =~= s.update(i, inf));
    }
}

proof fn lemma_upsert_absent(s: Seq<VerifiedInference>, inf: VerifiedInference)
    requires
        forall|j: int| 0 <= j < s.len() ==> #[trigger] s[j].input_hash@ != inf.input_hash@,
    ensures
        inference_upsert(s, inf) == s.push(inf),
    decreases s.len(),
{
    if s.len() == 0 {
        assert(inference_upsert(s, inf) =~= s.push(inf));
    } else {
        let t = s.drop_first();
        assert forall|j: int| 0 <= j < t.len() implies #[trigger] t[j].input_hash@
            != inf.input_hash@ by {
            assert(t[j] == s[j + 1]);
        }
        lemma_upsert_absent(t, inf);
        assert(inference_upsert(s, inf) =~= s.push(inf));
    }
}

/// Files an inference under its input hash.
pub fn save_inference(v: &mut Vec<VerifiedInference>, inf: VerifiedInference)
    ensures
        final(v)@ == inference_upsert(old(v)@, inf),
{
    let ghost s = v@;
    let mut i: usize = 0;
    while i < v.len() && v[i].input_hash != inf.input_hash
        invariant
            v@ == s,
            i <= s.len(),
            forall|j: int| 0 <= j < i ==> #[trigger] s[j].input_hash@ != inf.input_hash@,
        decreases s.len() - i,
    {
        i = i + 1;
    }
    if i < v.len() {
        proof {
            lemma_upsert_at(s, inf, i as int);
        }
        v.set(i, inf);
    } else {
        proof {
            lemma_upsert_absent(s, inf);
        }
        v.push(inf);
    }
}

/// Finds the position of the inference filed under the given hash.
pub fn position_of_inference(v: &Vec<VerifiedInference>, key: &String) -> (r: Option<usize>)
    ensures
        match r {
            Some(i) => i < v@.len() && find_inference(v@, key@) == Some(v@[i as int]),
            None => find_inference(v@, key@) is None,
        },
{
    let mut i: usize = 0;
    proof {
        assert(v@.skip(0) =~= v@);
    }
    while i < v.len()
        invariant
            i <= v@.len(),
            find_inference(v@, key@) == find_inference(v@.skip(i as int), key@),
        decreases v@.len() - i,
    {
        proof {
            assert(v@.skip(i as int).drop_first() =~= v@.skip(i + 1));
            assert(v@.skip(i as int)[0] == v@[i as int]);
        }
        if v[i].input_hash == *key {
            return Some(i);
        }
        i = i + 1;
    }
    None
}

// ---------------------------------------------------------------- ranking

/// Whether agent `a` ranks above agent `b`: a larger balance first, and
/// among equal balances the smaller key first.
pub open spec fn ranked_before(a: AIAgent, b: AIAgent) -> bool {
    a.balance > b.balance || (a.balance == b.balance && lex_lt(a.key(), b.key()))
}

/// Whether `top` is the first `limit` agents of `all` in ranking order: no
/// more than `limit` of them and no more than there are, in strictly
/// descending rank, all stored, and ranked above every stored agent left out.
pub open spec fn is_top_ranking(all: Seq<AIAgent>, top: Seq<AIAgent>, limit: nat) -> bool {
    &&& top.len() == if limit < all.len() { limit } else { all.len() }
    &&& forall|i: int, j: int| 0 <= i < j < top.len() ==> ranked_before(#[trigger] top[i], #[trigger] top[j])
    &&& forall|i: int| 0 <= i < top.len() ==> all.contains(#[trigger] top[i])
    &&& forall|x: AIAgent, i: int|
        #![trigger all.contains(x), top[i]]
        all.contains(x) && !top.contains(x) && 0 <= i < top.len() ==> ranked_before(top[i], x)
}

/// Ranks the stored agents by balance, ties in key order, and keeps the first `limit`.
pub fn rank_agents(v: &Vec<AIAgent>, limit: u32) -> (top: Vec<AIAgent>)
    requires
        agents_sorted(v@),
    ensures
        is_top_ranking(v@, top@, limit as nat),
{
    let ghost s = v@;
    let mut ranked: Vec<AIAgent> = Vec::new();
    let mut i: usize = 0;
    while i < v.len()
        invariant
            s == v@,
            agents_sorted(s),
            i <= s.len(),
            ranked@.len() == i,
            forall|p: int, q: int| 0 <= p < q < ranked@.len() ==> ranked_before(#[trigger] ranked@[p], #[trigger] ranked@[q]),
            forall|k: int| 0 <= k < ranked@.len() ==> exists|j: int| 0 <= j < i && #[trigger] ranked@[k] == s[j],
            forall|j: int| 0 <= j < i ==> ranked@.contains(#[trigger] s[j]),
        decreases s.len() - i,
    {
        let a = &v[i];
        let mut p: usize = 0;
        while p < ranked.len() && ranked[p].balance >= a.balance
            invariant
                p <= ranked@.len(),
                *a == s[i as int],
                forall|q: int| 0 <= q < p ==> #[trigger] ranked@[q].balance >= a.balance,
            decreases ranked@.len() - p,
        {
            p = p + 1;
        }
        let ghost old_ranked = ranked@;
        proof {
            assert forall|q: int| 0 <= q < p implies ranked_before(#[trigger] old_ranked[q], s[i as int]) by {
                let j = choose|j: int| 0 <= j < i && old_ranked[q] == s[j];
                assert(lex_lt(s[j].key(), s[i as int].key()));
            }
            assert forall|q: int| p <= q < old_ranked.len() implies ranked_before(s[i as int], #[trigger] old_ranked[q]) by {
                if q > p {
                    assert(ranked_before(old_ranked[p as int], old_ranked[q]));
                }
            }
        }
        ranked.insert(p, a.duplicate());
        proof {
            let n = ranked@;
            assert(n == old_ranked.insert(p as int, s[i as int]));
            assert forall|x: int, y: int| 0 <= x < y < n.len() implies ranked_before(#[trigger] n[x], #[trigger] n[y]) by {
                if y < p {
                } else if y == p {
                } else if x < p {
                    assert(ranked_before(old_ranked[x], old_ranked[y - 1]));
                } else if x == p {
                } else {
                    assert(ranked_before(old_ranked[x - 1], old_ranked[y - 1]));
                }
            }
            assert forall|k: int| 0 <= k < n.len() implies exists|j: int| 0 <= j < i + 1 && #[trigger] n[k] == s[j] by {
                if k < p {
                    assert(n[k] == old_ranked[k]);
                } else if k == p {
                    assert(n[k] == s[i as int]);
                } else {
                    assert(n[k] == old_ranked[k - 1]);
                }
            }
            assert forall|j: int| 0 <= j < i + 1 implies n.contains(#[trigger] s[j]) by {
                if j == i {
                    assert(n[p as int] == s[j]);
                } else {
                    assert(old_ranked.contains(s[j]));
                    let k = choose|k: int| 0 <= k < old_ranked.len() && old_ranked[k] == s[j];
                    if k < p {
                        assert(n[k] == s[j]);
                    } else {
                        assert(n[k + 1] == s[j]);
                    }
                }
            }
        }
        i = i + 1;
    }
    let ghost full = ranked@;
    ranked.truncate(limit as usize);
    proof {
        let t = ranked@;
        assert forall|k: int| 0 <= k < t.len() implies s.contains(#[trigger] t[k]) by {
            assert(t[k] == full[k]);
            let j = choose|j: int| 0 <= j < s.len() && full[k] == s[j];
        }
        assert forall|x: AIAgent, k: int|
            #![trigger s.contains(x), t[k]]
            s.contains(x) && !t.contains(x) && 0 <= k < t.len() implies ranked_before(t[k], x) by {
            let j = choose|j: int| 0 <= j < s.len() && s[j] == x;
            assert(full.contains(s[j]));
            let m = choose|m: int| 0 <= m < full.len() && full[m] == x;
            if m < t.len() {
                assert(t[m] == x);
            }
            assert(t[k] == full[k]);
        }
        assert forall|x: int, y: int| 0 <= x < y < t.len() implies ranked_before(#[trigger] t[x], #[trigger] t[y]) by {
            assert(t[x] == full[x] && t[y] == full[y]);
        }
    }
    ranked
}

} // verus!
