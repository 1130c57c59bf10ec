use ai_agent::digest::inference_key_of;
use ai_agent::types::{
    AIAgent, ActionRecord, ActionType, ChainEnv, ContractError, EvolutionStage, InstantiateMsg,
    OutMessage, Personality, Reply, StoredKind, VerifiedInference,
};
use ai_agent::world::{plan_mint, World};

struct TestRules {
    oracle: String,
    refuse: bool,
}

impl TestRules {
    fn is_authorized_oracle(&self, sender: &String) -> bool {
        *sender == self.oracle
    }

    fn validate_action_feasibility(
        &self,
        _agent: &AIAgent,
        _action: &ActionType,
        _env: &ChainEnv,
    ) -> Result<(), ContractError> {
        if self.refuse {
            Err(ContractError::Rejected("infeasible".to_string()))
        } else {
            Ok(())
        }
    }

    fn create_trade_message(
        &self,
        market: String,
        side: String,
        amount: u128,
        price: u128,
        wallet: String,
    ) -> Result<String, ContractError> {
        Ok(format!("trade {} {} {} at {} from {}", market, side, amount, price, wallet))
    }

    fn resolve_combat(&self, damage: u32, agent: &AIAgent, target: &String) -> Result<String, ContractError> {
        Ok(format!("{} hit {} for {}", agent.id, target, damage))
    }

    fn create_hire_message(&self, target: String, fee: u128, wallet: String) -> Result<String, ContractError> {
        Ok(format!("hire {} for {} from {}", target, fee, wallet))
    }
}

fn exec(
    w: &mut World,
    rules: &TestRules,
    sender: &String,
    env: &ChainEnv,
    action: ActionType,
    proof: &str,
    json: &String,
) -> Result<Reply<String>, ContractError> {
    w.execute_action(
        sender,
        env,
        action,
        proof,
        json,
        |a: &AIAgent, act: &ActionType, e: &ChainEnv| rules.validate_action_feasibility(a, act, e),
        |m: String, s: String, amount: u128, price: u128, wallet: String| {
            rules.create_trade_message(m, s, amount, price, wallet)
        },
        |d: u32, a: &AIAgent, t: &String| rules.resolve_combat(d, a, t),
        |t: String, fee: u128, wallet: String| rules.create_hire_message(t, fee, wallet),
    )
}

fn submit(w: &mut World, sender: &String, inference: VerifiedInference) -> Result<Reply<String>, ContractError> {
    let r = rules();
    w.submit_inference(sender, inference, |s: &String| r.is_authorized_oracle(s))
}

fn rules() -> TestRules {
    TestRules { oracle: "oracle".to_string(), refuse: false }
}

fn env(height: u64) -> ChainEnv {
    ChainEnv { height, time_seconds: 1_000 + height, tx_hash: "TXHASH".to_string() }
}

fn calm() -> Personality {
    Personality { greed: 10, fear: 20, cooperation: 30, aggression: 40, risk_tolerance: 50 }
}

fn attrs(reply: &Reply<String>) -> Vec<(&str, &str)> {
    reply.attributes.iter().map(|(k, v)| (k.as_str(), v.as_str())).collect()
}

fn started() -> World {
    let mut w = World::new();
    let _ = w.instantiate::<String>(InstantiateMsg {});
    w
}

fn mint(w: &mut World, sender: &str, height: u64, funds: u128) -> Result<Reply<String>, ContractError> {
    let plan = plan_mint(&sender.to_string(), &env(height), calm(), funds)?;
    let wallet = plan.transfer_to.clone();
    w.complete_mint::<String>(plan, wallet)
}

fn file_inference(w: &mut World, proof: &str, output: &str) {
    let inference = VerifiedInference {
        model_id: "model-1".to_string(),
        input_hash: inference_key_of(proof),
        output: output.to_string(),
        proof: "zk".to_string(),
        validator: "oracle".to_string(),
    };
    submit(w, &"oracle".to_string(), inference).unwrap();
}

#[test]
fn instantiate_sets_counters() {
    let mut w = World::new();
    assert_eq!(w.stored_population(), None);
    let reply = w.instantiate::<String>(InstantiateMsg {});
    assert_eq!(w.stored_population(), Some(0));
    assert_eq!(w.stored_next_action_id(), Some(0));
    assert!(reply.messages.is_empty());
    assert_eq!(attrs(&reply), vec![("method", "instantiate"), ("status", "ai_world_initialized")]);
}

#[test]
fn mint_stores_agent_and_sends_funds() {
    let mut w = started();
    let reply = mint(&mut w, "inj1alice0000", 5, 50).unwrap();
    assert_eq!(w.stored_population(), Some(1));
    let agent = w.get_agent(&"AI-5-inj1alic".to_string()).unwrap();
    assert_eq!(
        agent,
        AIAgent {
            id: "AI-5-inj1alic".to_string(),
            owner: "inj1alice0000".to_string(),
            wallet: "inj1ai-5-inj1alic".to_string(),
            personality: calm(),
            memory_root: "ipfs://genesis".to_string(),
            reputation: 100,
            balance: 50,
            evolution_stage: EvolutionStage::Seed,
            last_action: 5,
        }
    );
    assert_eq!(
        reply.messages,
        vec![OutMessage::BankSend {
            to_address: "inj1ai-5-inj1alic".to_string(),
            denom: "inj".to_string(),
            amount: 50
        }]
    );
    assert_eq!(
        attrs(&reply),
        vec![
            ("action", "mint_agent"),
            ("agent_id", "AI-5-inj1alic"),
            (
                "personality",
                "Personality { greed: 10, fear: 20, cooperation: 30, aggression: 40, risk_tolerance: 50 }"
            ),
            ("evolution", "seed"),
        ]
    );
}

#[test]
fn mint_refusals() {
    let mut w = started();
    let bad = Personality { greed: 101, ..calm() };
    assert!(matches!(
        plan_mint(&"inj1alice0000".to_string(), &env(1), bad, 50),
        Err(ContractError::InvalidPersonality)
    ));
    // an invalid personality is refused before the address is cut
    assert!(matches!(
        plan_mint(&"short".to_string(), &env(1), bad, 50),
        Err(ContractError::InvalidPersonality)
    ));
    assert_eq!(mint(&mut w, "inj1alice0000", 1, 9).unwrap_err(), ContractError::InsufficientInitialFunds);
    assert!(mint(&mut w, "inj1alice0000", 1, 10).is_ok());
    assert_eq!(w.stored_agents().len(), 1);
}

#[test]
fn mint_before_instantiate_is_refused_and_changes_nothing() {
    let mut w = World::new();
    assert_eq!(
        mint(&mut w, "inj1alice0000", 1, 50).unwrap_err(),
        ContractError::NotFound(StoredKind::Population)
    );
    assert!(w.stored_agents().is_empty());
}

#[test]
fn population_counts_every_mint_even_a_repeated_id() {
    let mut w = started();
    mint(&mut w, "inj1alice0000", 1, 50).unwrap();
    mint(&mut w, "inj1alice0000", 1, 70).unwrap();
    mint(&mut w, "inj1bob000000", 1, 70).unwrap();
    assert_eq!(w.stored_population(), Some(3));
    assert_eq!(w.stored_agents().len(), 2);
    assert_eq!(w.get_agent(&"AI-1-inj1alic".to_string()).unwrap().balance, 70);
}

#[test]
fn agents_are_kept_in_key_order_and_authority_takes_the_first() {
    let mut w = started();
    mint(&mut w, "inj1alice0000", 9, 50).unwrap();
    mint(&mut w, "inj1alice0000", 10, 60).unwrap();
    mint(&mut w, "inj1bob000000", 3, 60).unwrap();
    let ids: Vec<String> = w.stored_agents().iter().map(|a| a.id.clone()).collect();
    assert_eq!(ids, vec!["AI-10-inj1alic", "AI-3-inj1bob0", "AI-9-inj1alic"]);
    let a = w.verify_agent_authority(&"inj1alice0000".to_string()).unwrap();
    assert_eq!(a.id, "AI-10-inj1alic");
    let by_wallet = w.verify_agent_authority(&"inj1ai-9-inj1alic".to_string()).unwrap();
    assert_eq!(by_wallet.id, "AI-9-inj1alic");
    assert_eq!(
        w.verify_agent_authority(&"nobody".to_string()).unwrap_err(),
        ContractError::NotAuthorizedAgent
    );
}

#[test]
fn evolution_through_all_stages() {
    let mut w = started();
    mint(&mut w, "inj1alice0000", 1, 11_200).unwrap();
    let sender = "inj1alice0000".to_string();
    let reply = w.evolve_agent::<String>(&sender, &env(2)).unwrap();
    assert_eq!(
        attrs(&reply),
        vec![("action", "evolve"), ("agent_id", "AI-1-inj1alic"), ("new_stage", "Awakened"), ("cost", "100")]
    );
    let a = w.get_agent(&"AI-1-inj1alic".to_string()).unwrap();
    assert_eq!((a.balance, a.evolution_stage, a.last_action), (11_100, EvolutionStage::Awakened, 2));
    w.evolve_agent::<String>(&sender, &env(3)).unwrap();
    let reply = w.evolve_agent::<String>(&sender, &env(4)).unwrap();
    assert_eq!(attrs(&reply)[2], ("new_stage", "Singularity"));
    assert_eq!(attrs(&reply)[3], ("cost", "10000"));
    let a = w.get_agent(&"AI-1-inj1alic".to_string()).unwrap();
    assert_eq!((a.balance, a.evolution_stage), (100, EvolutionStage::Singularity));
    assert_eq!(a.personality, calm());
    assert_eq!(a.reputation, 100);
    let before = w.stored_agents().clone();
    assert_eq!(
        w.evolve_agent::<String>(&sender, &env(5)).unwrap_err(),
        ContractError::AlreadyAtSingularity
    );
    assert_eq!(*w.stored_agents(), before);
}

#[test]
fn evolution_refusals() {
    let mut w = started();
    mint(&mut w, "inj1alice0000", 1, 99).unwrap();
    let before = w.stored_agents().clone();
    assert_eq!(
        w.evolve_agent::<String>(&"inj1alice0000".to_string(), &env(2)).unwrap_err(),
        ContractError::InsufficientBalance
    );
    assert_eq!(*w.stored_agents(), before);
    assert_eq!(
        w.evolve_agent::<String>(&"stranger".to_string(), &env(2)).unwrap_err(),
        ContractError::NotAuthorizedAgent
    );
}

#[test]
fn inference_submission() {
    let mut w = started();
    let inference = VerifiedInference {
        model_id: "m".to_string(),
        input_hash: "h".to_string(),
        output: "o".to_string(),
        proof: "p".to_string(),
        validator: "v".to_string(),
    };
    assert_eq!(
        submit(&mut w, &"mallory".to_string(), inference.clone())
            .unwrap_err(),
        ContractError::UnauthorizedOracle
    );
    assert!(w.stored_inferences().is_empty());
    let reply = submit(&mut w, &"oracle".to_string(), inference.clone()).unwrap();
    assert_eq!(attrs(&reply), vec![("action", "submit_inference"), ("model_id", "m"), ("validated", "true")]);
    let newer = VerifiedInference { output: "o2".to_string(), ..inference };
    submit(&mut w, &"oracle".to_string(), newer.clone()).unwrap();
    assert_eq!(*w.stored_inferences(), vec![newer]);
}

#[test]
fn proof_verification() {
    let mut w = started();
    file_inference(&mut w, "my-proof", "{\"Governance\":{\"proposal_id\":1,\"vote\":true}}");
    let ok = w
        .verify_oa_proof("my-proof", &"{\"Governance\":{\"proposal_id\":1,\"vote\":true}}".to_string())
        .unwrap();
    assert_eq!(ok.input_hash, inference_key_of("my-proof"));
    assert_eq!(
        w.verify_oa_proof("my-proof", &"something else".to_string()).unwrap_err(),
        ContractError::InferenceMismatch
    );
    assert_eq!(
        w.verify_oa_proof("other-proof", &"x".to_string()).unwrap_err(),
        ContractError::NotFound(StoredKind::Inference)
    );
}

#[test]
fn executing_an_alliance() {
    let mut w = started();
    mint(&mut w, "inj1alice0000", 1, 50).unwrap();
    file_inference(&mut w, "p1", "ally-json");
    let action = ActionType::Alliance { partner: "bob".to_string(), terms: "share".to_string() };
    let reply = exec(&mut w, &rules(), &"inj1alice0000".to_string(), &env(7), action.clone(), "p1", &"ally-json".to_string())
        .unwrap();
    assert!(reply.messages.is_empty());
    assert_eq!(
        attrs(&reply),
        vec![
            ("action", "execute_action"),
            ("agent_id", "AI-1-inj1alic"),
            ("action_type", "Alliance { partner: \"bob\", terms: \"share\" }"),
            ("alliance_partner", "bob"),
            ("terms", "share"),
        ]
    );
    assert_eq!(w.stored_next_action_id(), Some(1));
    assert_eq!(
        *w.stored_actions(),
        vec![(
            0,
            ActionRecord {
                agent_id: "AI-1-inj1alic".to_string(),
                action_type: action,
                reasoning_hash: inference_key_of("p1"),
                tx_hash: "TXHASH".to_string(),
                timestamp: 1_007,
            }
        )]
    );
    let a = w.get_agent(&"AI-1-inj1alic".to_string()).unwrap();
    assert_eq!(a.personality.cooperation, 35);
    assert_eq!(a.last_action, 7);
}

#[test]
fn executing_trades_hires_and_attacks() {
    let mut w = started();
    mint(&mut w, "inj1alice0000", 1, 50).unwrap();
    file_inference(&mut w, "t", "trade");
    file_inference(&mut w, "h", "hire");
    file_inference(&mut w, "a", "attack");
    let sender = "inj1alice0000".to_string();
    let trade = ActionType::Trade { market: "INJ".to_string(), side: "buy".to_string(), amount: 3, price: 4 };
    let reply = exec(&mut w, &rules(), &sender, &env(2), trade, "t", &"trade".to_string()).unwrap();
    assert_eq!(reply.messages, vec![OutMessage::Rule("trade INJ buy 3 at 4 from inj1ai-1-inj1alic".to_string())]);
    assert_eq!(reply.attributes.len(), 3);
    let hire = ActionType::Hire { target: "merc".to_string(), fee: 8 };
    let reply = exec(&mut w, &rules(), &sender, &env(3), hire, "h", &"hire".to_string()).unwrap();
    assert_eq!(reply.messages, vec![OutMessage::Rule("hire merc for 8 from inj1ai-1-inj1alic".to_string())]);
    let attack = ActionType::Attack { target: "eve".to_string(), damage: 6 };
    let reply = exec(&mut w, &rules(), &sender, &env(4), attack, "a", &"attack".to_string()).unwrap();
    assert!(reply.messages.is_empty());
    assert_eq!(attrs(&reply)[3], ("combat_result", "AI-1-inj1alic hit eve for 6"));
    assert_eq!(attrs(&reply)[4], ("target", "eve"));
    let a = w.get_agent(&"AI-1-inj1alic".to_string()).unwrap();
    assert_eq!(a.personality, Personality { greed: 12, fear: 20, cooperation: 28, aggression: 43, risk_tolerance: 50 });
    let numbers: Vec<u64> = w.stored_actions().iter().map(|(n, _)| *n).collect();
    assert_eq!(numbers, vec![0, 1, 2]);
    assert_eq!(w.stored_next_action_id(), Some(3));
}

#[test]
fn refused_actions_change_nothing() {
    let mut w = started();
    mint(&mut w, "inj1alice0000", 1, 50).unwrap();
    file_inference(&mut w, "p", "json");
    let sender = "inj1alice0000".to_string();
    let action = ActionType::MintAsset { name: "gem".to_string(), supply: 5 };
    let agents = w.stored_agents().clone();
    let refusing = TestRules { oracle: "oracle".to_string(), refuse: true };
    assert_eq!(
        exec(&mut w, &refusing, &sender, &env(2), action.clone(), "p", &"json".to_string()).unwrap_err(),
        ContractError::Rejected("infeasible".to_string())
    );
    assert_eq!(
        exec(&mut w, &rules(), &sender, &env(2), action.clone(), "p", &"other".to_string()).unwrap_err(),
        ContractError::InferenceMismatch
    );
    assert_eq!(
        exec(&mut w, &rules(), &sender, &env(2), action.clone(), "q", &"json".to_string()).unwrap_err(),
        ContractError::NotFound(StoredKind::Inference)
    );
    assert_eq!(
        exec(&mut w, &rules(), &"stranger".to_string(), &env(2), action, "p", &"json".to_string())
            .unwrap_err(),
        ContractError::NotAuthorizedAgent
    );
    assert_eq!(*w.stored_agents(), agents);
    assert!(w.stored_actions().is_empty());
    assert_eq!(w.stored_next_action_id(), Some(0));
}

#[test]
fn action_without_counter_is_refused() {
    let mut started_world = started();
    mint(&mut started_world, "inj1alice0000", 1, 50).unwrap();
    file_inference(&mut started_world, "p", "json");
    let mut w = World::from_parts(
        started_world.stored_agents().clone(),
        Vec::new(),
        started_world.stored_inferences().clone(),
        None,
        Some(1),
    )
    .unwrap();
    let action = ActionType::Governance { proposal_id: 2, vote: false };
    assert_eq!(
        exec(&mut w, &rules(), &"inj1alice0000".to_string(), &env(2), action, "p", &"json".to_string())
            .unwrap_err(),
        ContractError::NotFound(StoredKind::NextActionId)
    );
}

#[test]
fn recent_actions_take_the_newest_before_filtering() {
    let mut w = started();
    mint(&mut w, "inj1alice0000", 1, 50).unwrap();
    mint(&mut w, "inj1bob000000", 1, 50).unwrap();
    file_inference(&mut w, "p", "json");
    let vote = ActionType::Governance { proposal_id: 1, vote: true };
    let alice = "inj1alice0000".to_string();
    let bob = "inj1bob000000".to_string();
    exec(&mut w, &rules(), &alice, &env(2), vote.clone(), "p", &"json".to_string()).unwrap();
    exec(&mut w, &rules(), &bob, &env(3), vote.clone(), "p", &"json".to_string()).unwrap();
    exec(&mut w, &rules(), &alice, &env(4), vote.clone(), "p", &"json".to_string()).unwrap();
    let alice_id = "AI-1-inj1alic".to_string();
    let times: Vec<u64> = w.get_agent_actions(&alice_id, 10).iter().map(|r| r.timestamp).collect();
    assert_eq!(times, vec![1_004, 1_002]);
    let times: Vec<u64> = w.get_agent_actions(&alice_id, 2).iter().map(|r| r.timestamp).collect();
    assert_eq!(times, vec![1_004]);
    assert!(w.get_agent_actions(&alice_id, 0).is_empty());
}

#[test]
fn leaderboard_orders_by_balance_then_key() {
    let mut w = started();
    mint(&mut w, "inj1carol0000", 1, 300).unwrap();
    mint(&mut w, "inj1alice0000", 1, 500).unwrap();
    mint(&mut w, "inj1bob000000", 1, 300).unwrap();
    mint(&mut w, "inj1dave00000", 1, 20).unwrap();
    let ids = |v: Vec<AIAgent>| v.into_iter().map(|a| a.id).collect::<Vec<String>>();
    assert_eq!(
        ids(w.get_agent_leaderboard(10)),
        vec!["AI-1-inj1alic", "AI-1-inj1bob0", "AI-1-inj1caro", "AI-1-inj1dave"]
    );
    assert_eq!(ids(w.get_agent_leaderboard(2)), vec!["AI-1-inj1alic", "AI-1-inj1bob0"]);
    assert!(w.get_agent_leaderboard(0).is_empty());
}

#[test]
fn lookups_of_missing_agents() {
    let w = started();
    assert_eq!(w.get_agent(&"AI-1-x".to_string()).unwrap_err(), ContractError::NotFound(StoredKind::Agent));
}

#[test]
fn stored_parts_must_be_in_key_order() {
    let mut w = started();
    mint(&mut w, "inj1alice0000", 1, 50).unwrap();
    mint(&mut w, "inj1bob000000", 1, 50).unwrap();
    let mut agents = w.stored_agents().clone();
    assert!(World::from_parts(agents.clone(), Vec::new(), Vec::new(), Some(0), Some(2)).is_some());
    agents.reverse();
    assert!(World::from_parts(agents, Vec::new(), Vec::new(), Some(0), Some(2)).is_none());
}

#[test]
fn oracle_check_is_about_the_sender() {
    let mut w = started();
    let inference = VerifiedInference {
        model_id: "m".to_string(),
        input_hash: "h".to_string(),
        output: "o".to_string(),
        proof: "p".to_string(),
        validator: "oracle".to_string(),
    };
    assert_eq!(
        submit(&mut w, &"mallory".to_string(), inference).unwrap_err(),
        ContractError::UnauthorizedOracle
    );
    assert!(w.stored_inferences().is_empty());
}

#[test]
fn feasibility_refusal_comes_after_the_proof_check() {
    let mut w = started();
    mint(&mut w, "inj1alice0000", 1, 50).unwrap();
    let refusing = TestRules { oracle: "oracle".to_string(), refuse: true };
    let action = ActionType::Governance { proposal_id: 3, vote: true };
    // without a filed inference the proof check refuses first
    assert_eq!(
        exec(&mut w, &refusing, &"inj1alice0000".to_string(), &env(2), action.clone(), "p", &"j".to_string())
            .unwrap_err(),
        ContractError::NotFound(StoredKind::Inference)
    );
    file_inference(&mut w, "p", "j");
    assert_eq!(
        exec(&mut w, &refusing, &"inj1alice0000".to_string(), &env(2), action, "p", &"j".to_string())
            .unwrap_err(),
        ContractError::Rejected("infeasible".to_string())
    );
    assert!(w.stored_actions().is_empty());
}
