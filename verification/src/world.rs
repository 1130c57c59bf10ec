//! The stored state of the world and the messages that read and change it.
//!
//! A refused message leaves the world as it was, as a refused transaction
//! leaves the chain's storage.
use vstd::prelude::*;

use crate::describe::{action_text, describe_action, describe_personality, describe_stage, personality_text, stage_text};
use crate::digest::{inference_key, inference_key_of};
use crate::identity::{agent_id_text, generate_agent_id, generate_agent_wallet, has_address_prefix, wallet_text};
use crate::rules::{
    advance_stage, evolution_cost, next_stage, personality_in_range, shape_personality,
    shaped_personality, shaping_overflows, stage_cost, validate_personality,
};
use crate::store::{
    actions_sorted, action_saved, agent_saved, agents_sorted, collect_recent, find_agent,
    find_inference, first_authorized, inference_upsert, is_top_ranking, position_of_agent,
    position_of_authorized, position_of_inference, rank_agents, recent_actions, save_action,
    save_agent, save_inference,
};
use crate::text::{decimal, decimal_string, owned};
use crate::types::{
    AIAgent, ActionRecord, ActionType, ChainEnv, ContractError, EvolutionStage, InstantiateMsg,
    OutMessage, Personality, Reply, StoredKind, VerifiedInference,
};

verus! {

/// What the deployment's helpers produced for an action: a message to send,
/// the result of a combat, or nothing.
pub enum RuleOutcome<M> {
    Message(M),
    CombatResult(String),
    Nothing,
}

/// Whether an outcome is the kind that the rules produce for an action:
/// a message for trades and hires, a combat result for attacks, else nothing.
pub open spec fn outcome_fits<M>(action: ActionType, outcome: RuleOutcome<M>) -> bool {
    match action {
        ActionType::Trade { .. } => outcome is Message,
        ActionType::Hire { .. } => outcome is Message,
        ActionType::Attack { .. } => outcome is CombatResult,
        _ => outcome is Nothing,
    }
}

/// Whether `res` is what the deployment's helper gave for `action` taken by
/// `agent`: for a trade, the trade helper called with the trade's market,
/// side, amount and price and the agent's wallet; for a hire, the hire helper
/// called with the target, the fee and the agent's wallet; for an attack, the
/// combat helper called with the damage, the agent and the target. Any other
/// action calls no helper and has nothing as its outcome.
pub open spec fn helper_result<M, FT, FC, FH>(
    trade: FT,
    combat: FC,
    hire: FH,
    agent: AIAgent,
    action: ActionType,
    res: Result<RuleOutcome<M>, ContractError>,
) -> bool where
    FT: Fn(String, String, u128, u128, String) -> Result<M, ContractError>,
    FC: Fn(u32, &AIAgent, &String) -> Result<String, ContractError>,
    FH: Fn(String, u128, String) -> Result<M, ContractError>,
 {
    match action {
        ActionType::Trade { market, side, amount, price } => match res {
            Ok(RuleOutcome::Message(m)) => trade.ensures(
                (market, side, amount, price, agent.wallet),
                Ok::<M, ContractError>(m),
            ),
            Err(e) => trade.ensures((market, side, amount, price, agent.wallet), Err::<M, ContractError>(e)),
            _ => false,
        },
        ActionType::Hire { target, fee } => match res {
            Ok(RuleOutcome::Message(m)) => hire.ensures((target, fee, agent.wallet), Ok::<M, ContractError>(m)),
            Err(e) => hire.ensures((target, fee, agent.wallet), Err::<M, ContractError>(e)),
            _ => false,
        },
        ActionType::Attack { target, damage } => match res {
            Ok(RuleOutcome::CombatResult(c)) => combat.ensures(
                (damage, &agent, &target),
                Ok::<String, ContractError>(c),
            ),
            Err(e) => combat.ensures((damage, &agent, &target), Err::<String, ContractError>(e)),
            _ => false,
        },
        _ => res matches Ok(RuleOutcome::Nothing),
    }
}

/// A new agent ready to be stored once its wallet address has been
/// validated, and the address its initial funds are sent to.
pub struct MintPlan {
    pub agent: AIAgent,
    pub transfer_to: String,
}

/// Whether `plan` is the plan for minting an agent for `sender` in `env`
/// with the given personality and funds.
pub open spec fn is_mint_plan(
    plan: MintPlan,
    sender: String,
    env: ChainEnv,
    personality: Personality,
    initial_funds: u128,
) -> bool {
    let id = agent_id_text(sender@, env.height);
    &&& plan.agent.id@ == id
    &&& plan.agent.owner == sender
    &&& plan.agent.wallet@ == wallet_text(id)
    &&& plan.agent.personality == personality
    &&& plan.agent.memory_root@ == "ipfs://genesis"@
    &&& plan.agent.reputation == 100
    &&& plan.agent.balance == initial_funds
    &&& plan.agent.evolution_stage == EvolutionStage::Seed
    &&& plan.agent.last_action == env.height
    &&& plan.transfer_to@ == wallet_text(id)
}

/// The record of an action taken by `agent` on the strength of `inference`.
pub open spec fn action_record(
    agent: AIAgent,
    action: ActionType,
    inference: VerifiedInference,
    env: ChainEnv,
) -> ActionRecord {
    ActionRecord {
        agent_id: agent.id,
        action_type: action,
        reasoning_hash: inference.input_hash,
        tx_hash: env.tx_hash,
        timestamp: env.time_seconds,
    }
}

/// The agent after it took an action at block `height`.
pub open spec fn acted_agent(agent: AIAgent, action: ActionType, height: u64) -> AIAgent {
    AIAgent { personality: shaped_personality(agent.personality, action), last_action: height, ..agent }
}

/// The agent after it paid `cost` to evolve at block `height`.
pub open spec fn evolved_agent(agent: AIAgent, cost: u128, height: u64) -> AIAgent {
    AIAgent {
        balance: (agent.balance - cost) as u128,
        evolution_stage: next_stage(agent.evolution_stage),
        last_action: height,
        ..agent
    }
}

/// The outcome of checking a reasoning proof: the inference filed under the
/// proof's key, provided its output is exactly the action's JSON text.
pub open spec fn proof_check(
    inferences: Seq<VerifiedInference>,
    proof: Seq<char>,
    action_json: Seq<char>,
) -> Result<VerifiedInference, ContractError> {
    match find_inference(inferences, inference_key(proof)) {
        None => Err(ContractError::NotFound(StoredKind::Inference)),
        Some(inf) => if inf.output@ == action_json {
            Ok(inf)
        } else {
            Err(ContractError::InferenceMismatch)
        },
    }
}

/// The attributes of the answer to an executed action.
pub open spec fn action_attrs<M>(agent: AIAgent, action: ActionType, outcome: RuleOutcome<M>) -> Seq<
    (Seq<char>, Seq<char>),
> {
    seq![
        ("action"@, "execute_action"@),
        ("agent_id"@, agent.id@),
        ("action_type"@, action_text(action)),
    ] + match action {
        ActionType::Attack { target, .. } => match outcome {
            RuleOutcome::CombatResult(c) => seq![("combat_result"@, c@), ("target"@, target@)],
            _ => seq![],
        },
        ActionType::Alliance { partner, terms } => seq![
            ("alliance_partner"@, partner@),
            ("terms"@, terms@),
        ],
        _ => seq![],
    }
}

/// The messages of the answer to an executed action.
pub open spec fn action_messages<M>(outcome: RuleOutcome<M>) -> Seq<OutMessage<M>> {
    match outcome {
        RuleOutcome::Message(m) => seq![OutMessage::Rule(m)],
        _ => seq![],
    }
}

/// The stored state: agents by id, action records by number, inferences by
/// input hash, the number of the next action, and the population count.
/// The two counters are absent until the world is set up.
pub struct World {
    agents: Vec<AIAgent>,
    actions: Vec<(u64, ActionRecord)>,
    inferences: Vec<VerifiedInference>,
    next_action_id: Option<u64>,
    population: Option<u64>,
}

impl World {
    /// The stored agents, in ascending order of their keys.
    pub closed spec fn agents(&self) -> Seq<AIAgent> {
        self.agents@
    }

    /// The stored action records with their numbers, in ascending order.
    pub closed spec fn actions(&self) -> Seq<(u64, ActionRecord)> {
        self.actions@
    }

    /// The stored inferences.
    pub closed spec fn inferences(&self) -> Seq<VerifiedInference> {
        self.inferences@
    }

    /// The number the next action record is stored under.
    pub closed spec fn next_action_id(&self) -> Option<u64> {
        self.next_action_id
    }

    /// The number of agents minted so far.
    pub closed spec fn population(&self) -> Option<u64> {
        self.population
    }

    /// Stored collections are in key order.
    pub open spec fn wf(&self) -> bool {
        &&& agents_sorted(self.agents())
        &&& actions_sorted(self.actions())
    }

    /// A world with nothing stored.
    pub fn new() -> (w: World)
        ensures
            w.wf(),
            w.agents() == Seq::<AIAgent>::empty(),
            w.actions() == Seq::<(u64, ActionRecord)>::empty(),
            w.inferences() == Seq::<VerifiedInference>::empty(),
            w.next_action_id() is None,
            w.population() is None,
    {
        World {
            agents: Vec::new(),
            actions: Vec::new(),
            inferences: Vec::new(),
            next_action_id: None,
            population: None,
        }
    }

    /// A world holding the given stored values, provided agents and action
    /// records are in strictly ascending key order.
    pub fn from_parts(
        agents: Vec<AIAgent>,
        actions: Vec<(u64, ActionRecord)>,
        inferences: Vec<VerifiedInference>,
        next_action_id: Option<u64>,
        population: Option<u64>,
    ) -> (r: Option<World>)
        ensures
            r is Some <==> agents_sorted(agents@) && actions_sorted(actions@),
            r matches Some(w) ==> {
                &&& w.wf()
                &&& w.agents() == agents@
                &&& w.actions() == actions@
                &&& w.inferences() == inferences@
                &&& w.next_action_id() == next_action_id
                &&& w.population() == population
            },
    {
        if !agents_in_order(&agents) || !actions_in_order(&actions) {
            return None;
        }
        Some(World { agents, actions, inferences, next_action_id, population })
    }

    /// The stored agents, in ascending order of their keys.
    pub fn stored_agents(&self) -> (r: &Vec<AIAgent>)
        ensures
            r@ == self.agents(),
    {
        &self.agents
    }

    /// The stored action records with their numbers.
    pub fn stored_actions(&self) -> (r: &Vec<(u64, ActionRecord)>)
        ensures
            r@ == self.actions(),
    {
        &self.actions
    }

    /// The stored inferences.
    pub fn stored_inferences(&self) -> (r: &Vec<VerifiedInference>)
        ensures
            r@ == self.inferences(),
    {
        &self.inferences
    }

    /// The number of the next action record, if set.
    pub fn stored_next_action_id(&self) -> (r: Option<u64>)
        ensures
            r == self.next_action_id(),
    {
        self.next_action_id
    }

    /// The population count, if set.
    pub fn stored_population(&self) -> (r: Option<u64>)
        ensures
            r == self.population(),
    {
        self.population
    }

    /// Sets the world up: both counters start at zero.
    pub fn instantiate<M>(&mut self, msg: InstantiateMsg) -> (reply: Reply<M>)
        requires
            old(self).wf(),
        ensures
            final(self).wf(),
            final(self).next_action_id() == Some(0u64),
            final(self).population() == Some(0u64),
            final(self).agents() == old(self).agents(),
            final(self).actions() == old(self).actions(),
            final(self).inferences() == old(self).inferences(),
            reply.messages@.len() == 0,
            reply.attrs() == seq![("method"@, "instantiate"@), ("status"@, "ai_world_initialized"@)],
    {
        self.next_action_id = Some(0);
        self.population = Some(0);
        let mut reply = Reply::new();
        reply.add_attribute(owned("method"), owned("instantiate"));
        reply.add_attribute(owned("status"), owned("ai_world_initialized"));
        assert(reply.attrs() =~= seq![("method"@, "instantiate"@), ("status"@, "ai_world_initialized"@)]);
        reply
    }
}

/// Checks a mint request and derives the new agent's id and wallet address.
pub fn plan_mint(sender: &String, env: &ChainEnv, personality: Personality, initial_funds: u128) -> (r:
    Result<MintPlan, ContractError>)
    requires
        personality_in_range(personality) ==> has_address_prefix(sender@),
    ensures
        !personality_in_range(personality) ==> r == Err::<MintPlan, ContractError>(
            ContractError::InvalidPersonality,
        ),
        personality_in_range(personality) && initial_funds < 10 ==> r == Err::<
            MintPlan,
            ContractError,
        >(ContractError::InsufficientInitialFunds),
        personality_in_range(personality) && initial_funds >= 10 ==> (r matches Ok(plan)
            && is_mint_plan(plan, *sender, *env, personality, initial_funds)),
{
    validate_personality(&personality)?;
    let agent_id = generate_agent_id(sender, env.height);
    let agent_wallet = generate_agent_wallet(agent_id.as_str());
    if initial_funds < 10 {
        return Err(ContractError::InsufficientInitialFunds);
    }
    let transfer_to = agent_wallet.clone();
    let agent = AIAgent {
        id: agent_id,
        owner: sender.clone(),
        wallet: agent_wallet,
        personality,
        memory_root: owned("ipfs://genesis"),
        reputation: 100,
        balance: initial_funds,
        evolution_stage: EvolutionStage::Seed,
        last_action: env.height,
    };
    Ok(MintPlan { agent, transfer_to })
}

impl World {
    /// Stores a planned agent with its wallet address as the host validated it
    /// (validation hands back the address it was given) and counts it in the
    /// population; the answer sends the initial funds to the wallet.
    pub fn complete_mint<M>(&mut self, plan: MintPlan, wallet: String) -> (r: Result<Reply<M>, ContractError>)
        requires
            old(self).wf(),
            old(self).population() matches Some(p) ==> p < u64::MAX,
            wallet@ == plan.transfer_to@,
        ensures
            final(self).wf(),
            old(self).population() is None ==> r == Err::<Reply<M>, ContractError>(
                ContractError::NotFound(StoredKind::Population),
            ) && *final(self) == *old(self),
            old(self).population() matches Some(p) ==> (r matches Ok(reply) && {
                &&& agent_saved(old(self).agents(), final(self).agents(), AIAgent { wallet: wallet, ..plan.agent })
                &&& final(self).population() == Some((p + 1) as u64)
                &&& final(self).actions() == old(self).actions()
                &&& final(self).inferences() == old(self).inferences()
                &&& final(self).next_action_id() == old(self).next_action_id()
                &&& reply.messages@.len() == 1
                &&& reply.messages@[0] matches OutMessage::BankSend { to_address, denom, amount }
                    && to_address == plan.transfer_to && denom@ == "inj"@ && amount == plan.agent.balance
                &&& reply.attrs() == seq![
                    ("action"@, "mint_agent"@),
                    ("agent_id"@, plan.agent.id@),
                    ("personality"@, personality_text(plan.agent.personality)),
                    ("evolution"@, "seed"@),
                ]
            }),
    {
        let pop = match self.population {
            None => return Err(ContractError::NotFound(StoredKind::Population)),
            Some(p) => p,
        };
        let MintPlan { agent, transfer_to } = plan;
        let agent_id = agent.id.clone();
        let personality = agent.personality;
        let funds = agent.balance;
        let stored = AIAgent { wallet, ..agent };
        save_agent(&mut self.agents, stored);
        self.population = Some(pop + 1);
        let mut reply = Reply::new();
        reply.add_message(OutMessage::BankSend { to_address: transfer_to, denom: owned("inj"), amount: funds });
        reply.add_attribute(owned("action"), owned("mint_agent"));
        reply.add_attribute(owned("agent_id"), agent_id);
        reply.add_attribute(owned("personality"), describe_personality(&personality));
        reply.add_attribute(owned("evolution"), owned("seed"));
        assert(reply.attrs() =~= seq![
            ("action"@, "mint_agent"@),
            ("agent_id"@, plan.agent.id@),
            ("personality"@, personality_text(plan.agent.personality)),
            ("evolution"@, "seed"@),
        ]);
        Ok(reply)
    }

    /// The first agent, in stored order, that `sender` owns or is the wallet of.
    pub fn verify_agent_authority(&self, sender: &String) -> (r: Result<AIAgent, ContractError>)
        ensures
            r == match first_authorized(self.agents(), sender@) {
                Some(a) => Ok::<AIAgent, ContractError>(a),
                None => Err(ContractError::NotAuthorizedAgent),
            },
    {
        match position_of_authorized(&self.agents, sender) {
            Some(i) => Ok(self.agents[i].duplicate()),
            None => Err(ContractError::NotAuthorizedAgent),
        }
    }

    /// The inference filed for a reasoning proof, provided its output is
    /// exactly the action's JSON text.
    pub fn verify_oa_proof(&self, proof: &str, action_json: &String) -> (r: Result<VerifiedInference, ContractError>)
        ensures
            r == proof_check(self.inferences(), proof@, action_json@),
    {
        let key = inference_key_of(proof);
        match position_of_inference(&self.inferences, &key) {
            None => Err(ContractError::NotFound(StoredKind::Inference)),
            Some(i) => {
                let inference = self.inferences[i].duplicate();
                if inference.output != *action_json {
                    return Err(ContractError::InferenceMismatch);
                }
                Ok(inference)
            },
        }
    }

    /// The checks that come before an action: the acting agent and the
    /// inference that justifies the action.
    pub fn begin_action(&self, sender: &String, proof: &str, action_json: &String) -> (r: Result<(AIAgent, VerifiedInference), ContractError>)
        ensures
            r == match first_authorized(self.agents(), sender@) {
                None => Err(ContractError::NotAuthorizedAgent),
                Some(a) => match proof_check(self.inferences(), proof@, action_json@) {
                    Ok(inf) => Ok::<(AIAgent, VerifiedInference), ContractError>((a, inf)),
                    Err(e) => Err(e),
                },
            },
    {
        let agent = self.verify_agent_authority(sender)?;
        let inference = self.verify_oa_proof(proof, action_json)?;
        Ok((agent, inference))
    }

    /// Records an action and its effect on the agent, given what the action
    /// rules produced for it.
    pub fn finish_action<M>(
        &mut self,
        agent: AIAgent,
        inference: VerifiedInference,
        action: ActionType,
        env: &ChainEnv,
        outcome: RuleOutcome<M>,
    ) -> (r: Result<Reply<M>, ContractError>)
        requires
            old(self).wf(),
            old(self).next_action_id() matches Some(n) ==> n < u64::MAX,
            !shaping_overflows(agent.personality, action),
            outcome_fits(action, outcome),
        ensures
            final(self).wf(),
            old(self).next_action_id() is None ==> r == Err::<Reply<M>, ContractError>(
                ContractError::NotFound(StoredKind::NextActionId),
            ) && *final(self) == *old(self),
            old(self).next_action_id() matches Some(n) ==> (r matches Ok(reply) && {
                &&& action_saved(old(self).actions(), final(self).actions(), n, action_record(agent, action, inference, *env))
                &&& final(self).next_action_id() == Some((n + 1) as u64)
                &&& agent_saved(old(self).agents(), final(self).agents(), acted_agent(agent, action, env.height))
                &&& final(self).inferences() == old(self).inferences()
                &&& final(self).population() == old(self).population()
                &&& reply.attrs() == action_attrs(agent, action, outcome)
                &&& reply.messages@ == action_messages(outcome)
            }),
    {
        let id = match self.next_action_id {
            None => return Err(ContractError::NotFound(StoredKind::NextActionId)),
            Some(n) => n,
        };
        let record = ActionRecord {
            agent_id: agent.id.clone(),
            action_type: action.duplicate(),
            reasoning_hash: inference.input_hash,
            tx_hash: env.tx_hash.clone(),
            timestamp: env.time_seconds,
        };
        save_action(&mut self.actions, id, record);
        self.next_action_id = Some(id + 1);
        let mut reply = Reply::new();
        reply.add_attribute(owned("action"), owned("execute_action"));
        reply.add_attribute(owned("agent_id"), agent.id.clone());
        reply.add_attribute(owned("action_type"), describe_action(&action));
        let ghost outcome_view = outcome;
        match &action {
            ActionType::Attack { target, .. } => {
                match outcome {
                    RuleOutcome::CombatResult(result) => {
                        reply.add_attribute(owned("combat_result"), result);
                        reply.add_attribute(owned("target"), target.clone());
                    },
                    _ => {},
                }
            },
            ActionType::Alliance { partner, terms } => {
                reply.add_attribute(owned("alliance_partner"), partner.clone());
                reply.add_attribute(owned("terms"), terms.clone());
            },
            _ => {
                match outcome {
                    RuleOutcome::Message(m) => {
                        reply.add_message(OutMessage::Rule(m));
                    },
                    _ => {},
                }
            },
        }
        proof {
            assert(reply.attrs() =~= action_attrs(agent, action, outcome_view));
            assert(reply.messages@ =~= action_messages(outcome_view));
        }
        let updated = AIAgent {
            personality: shape_personality(agent.personality, &action),
            last_action: env.height,
            ..agent
        };
        save_agent(&mut self.agents, updated);
        Ok(reply)
    }
}

impl World {
    /// Carries out an action of the agent that `sender` acts for, justified
    /// by the inference filed for `reasoning_proof`, whose output must be the
    /// action's JSON text. The deployment's `feasible` check decides whether
    /// the agent may act; its `trade`, `combat` and `hire` helpers produce the
    /// message or combat result of trades, attacks and hires.
    pub fn execute_action<M, FF, FT, FC, FH>(
        &mut self,
        sender: &String,
        env: &ChainEnv,
        action: ActionType,
        reasoning_proof: &str,
        action_json: &String,
        feasible: FF,
        trade: FT,
        combat: FC,
        hire: FH,
    ) -> (r: Result<Reply<M>, ContractError>) where
        FF: Fn(&AIAgent, &ActionType, &ChainEnv) -> Result<(), ContractError>,
        FT: Fn(String, String, u128, u128, String) -> Result<M, ContractError>,
        FC: Fn(u32, &AIAgent, &String) -> Result<String, ContractError>,
        FH: Fn(String, u128, String) -> Result<M, ContractError>,

        requires
            old(self).wf(),
            forall|a: &AIAgent, b: &ActionType, c: &ChainEnv| feasible.requires((a, b, c)),
            forall|a: String, b: String, c: u128, d: u128, e: String| trade.requires((a, b, c, d, e)),
            forall|a: u32, b: &AIAgent, c: &String| combat.requires((a, b, c)),
            forall|a: String, b: u128, c: String| hire.requires((a, b, c)),
            first_authorized(old(self).agents(), sender@) matches Some(a) ==> (proof_check(
                old(self).inferences(),
                reasoning_proof@,
                action_json@,
            ) is Ok ==> {
                &&& !shaping_overflows(a.personality, action)
                &&& old(self).next_action_id() matches Some(n) ==> n < u64::MAX
            }),
        ensures
            final(self).wf(),
            r is Err ==> *final(self) == *old(self),
            first_authorized(old(self).agents(), sender@) is None ==> r == Err::<
                Reply<M>,
                ContractError,
            >(ContractError::NotAuthorizedAgent),
            first_authorized(old(self).agents(), sender@) is Some ==> (proof_check(
                old(self).inferences(),
                reasoning_proof@,
                action_json@,
            ) matches Err(e) ==> r == Err::<Reply<M>, ContractError>(e)),
            first_authorized(old(self).agents(), sender@) matches Some(a) ==> (proof_check(
                old(self).inferences(),
                reasoning_proof@,
                action_json@,
            ) matches Ok(inf) ==> exists|fres: Result<(), ContractError>|
                #[trigger] feasible.ensures((&a, &action, env), fres) && match fres {
                    Err(e) => r == Err::<Reply<M>, ContractError>(e),
                    Ok(_) => match old(self).next_action_id() {
                        None => r == Err::<Reply<M>, ContractError>(
                            ContractError::NotFound(StoredKind::NextActionId),
                        ),
                        Some(n) => exists|hres: Result<RuleOutcome<M>, ContractError>|
                            #[trigger] helper_result(trade, combat, hire, a, action, hres) && match hres {
                                Err(e) => r == Err::<Reply<M>, ContractError>(e),
                                Ok(o) => (r matches Ok(reply) && action_done(
                                    *old(self),
                                    *final(self),
                                    a,
                                    inf,
                                    action,
                                    *env,
                                    n,
                                    o,
                                    reply,
                                )),
                            },
                    },
                }),
    {
        let (agent, inference) = self.begin_action(sender, reasoning_proof, action_json)?;
        let fres = feasible(&agent, &action, env);
        match fres {
            Err(e) => {
                return Err(e);
            },
            Ok(()) => {},
        }
        if self.next_action_id.is_none() {
            return Err(ContractError::NotFound(StoredKind::NextActionId));
        }
        let hres: Result<RuleOutcome<M>, ContractError> = match &action {
            ActionType::Trade { market, side, amount, price } => {
                match trade(market.clone(), side.clone(), *amount, *price, agent.wallet.clone()) {
                    Ok(m) => Ok(RuleOutcome::Message(m)),
                    Err(e) => Err(e),
                }
            },
            ActionType::Attack { target, damage } => {
                match combat(*damage, &agent, target) {
                    Ok(c) => Ok(RuleOutcome::CombatResult(c)),
                    Err(e) => Err(e),
                }
            },
            ActionType::Hire { target, fee } => {
                match hire(target.clone(), *fee, agent.wallet.clone()) {
                    Ok(m) => Ok(RuleOutcome::Message(m)),
                    Err(e) => Err(e),
                }
            },
            _ => Ok(RuleOutcome::Nothing),
        };
        assert(helper_result(trade, combat, hire, agent, action, hres));
        let outcome = match hres {
            Err(e) => {
                return Err(e);
            },
            Ok(o) => o,
        };
        let ghost o = outcome;
        let r = self.finish_action(agent, inference, action, env, outcome);
        assert(outcome_fits(action, o));
        r
    }

    /// Files an inference under its input hash, if its sender is an oracle.
    pub fn accept_inference<M>(&mut self, authorized: bool, inference: VerifiedInference) -> (r: Result<Reply<M>, ContractError>)
        requires
            old(self).wf(),
        ensures
            final(self).wf(),
            !authorized ==> r == Err::<Reply<M>, ContractError>(ContractError::UnauthorizedOracle)
                && *final(self) == *old(self),
            authorized ==> (r matches Ok(reply) && {
                &&& final(self).inferences() == inference_upsert(old(self).inferences(), inference)
                &&& final(self).agents() == old(self).agents()
                &&& final(self).actions() == old(self).actions()
                &&& final(self).next_action_id() == old(self).next_action_id()
                &&& final(self).population() == old(self).population()
                &&& reply.messages@.len() == 0
                &&& reply.attrs() == seq![
                    ("action"@, "submit_inference"@),
                    ("model_id"@, inference.model_id@),
                    ("validated"@, "true"@),
                ]
            }),
    {
        if !authorized {
            return Err(ContractError::UnauthorizedOracle);
        }
        let model_id = inference.model_id.clone();
        save_inference(&mut self.inferences, inference);
        let mut reply = Reply::new();
        reply.add_attribute(owned("action"), owned("submit_inference"));
        reply.add_attribute(owned("model_id"), model_id);
        reply.add_attribute(owned("validated"), owned("true"));
        assert(reply.attrs() =~= seq![
            ("action"@, "submit_inference"@),
            ("model_id"@, inference.model_id@),
            ("validated"@, "true"@),
        ]);
        Ok(reply)
    }

    /// Files an inference submitted by `sender`, provided the deployment's
    /// `is_oracle` check, asked about the sender, recognises it as an oracle.
    pub fn submit_inference<M, FO>(&mut self, sender: &String, inference: VerifiedInference, is_oracle: FO) -> (r: Result<Reply<M>, ContractError>) where
        FO: Fn(&String) -> bool,

        requires
            old(self).wf(),
            forall|a: &String| is_oracle.requires((a,)),
        ensures
            final(self).wf(),
            r is Err ==> r == Err::<Reply<M>, ContractError>(ContractError::UnauthorizedOracle)
                && *final(self) == *old(self) && is_oracle.ensures((sender,), false),
            r matches Ok(reply) ==> {
                &&& is_oracle.ensures((sender,), true)
                &&& final(self).inferences() == inference_upsert(old(self).inferences(), inference)
                &&& final(self).agents() == old(self).agents()
                &&& final(self).actions() == old(self).actions()
                &&& final(self).next_action_id() == old(self).next_action_id()
                &&& final(self).population() == old(self).population()
                &&& reply.messages@.len() == 0
                &&& reply.attrs() == seq![
                    ("action"@, "submit_inference"@),
                    ("model_id"@, inference.model_id@),
                    ("validated"@, "true"@),
                ]
            },
    {
        let authorized = is_oracle(sender);
        self.accept_inference(authorized, inference)
    }

    /// Moves the agent that `sender` acts for to its next stage, paying the
    /// stage's cost from its balance.
    pub fn evolve_agent<M>(&mut self, sender: &String, env: &ChainEnv) -> (r: Result<Reply<M>, ContractError>)
        requires
            old(self).wf(),
        ensures
            final(self).wf(),
            r is Err ==> *final(self) == *old(self),
            match first_authorized(old(self).agents(), sender@) {
                None => r == Err::<Reply<M>, ContractError>(ContractError::NotAuthorizedAgent),
                Some(a) => match evolution_cost(a.evolution_stage) {
                    None => r == Err::<Reply<M>, ContractError>(ContractError::AlreadyAtSingularity),
                    Some(c) => if a.balance < c {
                        r == Err::<Reply<M>, ContractError>(ContractError::InsufficientBalance)
                    } else {
                        r matches Ok(reply) && {
                            &&& agent_saved(old(self).agents(), final(self).agents(), evolved_agent(a, c, env.height))
                            &&& final(self).actions() == old(self).actions()
                            &&& final(self).inferences() == old(self).inferences()
                            &&& final(self).next_action_id() == old(self).next_action_id()
                            &&& final(self).population() == old(self).population()
                            &&& reply.messages@.len() == 0
                            &&& reply.attrs() == seq![
                                ("action"@, "evolve"@),
                                ("agent_id"@, a.id@),
                                ("new_stage"@, stage_text(next_stage(a.evolution_stage))),
                                ("cost"@, decimal(c as nat)),
                            ]
                        }
                    },
                },
            },
    {
        let agent = self.verify_agent_authority(sender)?;
        let cost = match stage_cost(agent.evolution_stage) {
            None => return Err(ContractError::AlreadyAtSingularity),
            Some(c) => c,
        };
        if agent.balance < cost {
            return Err(ContractError::InsufficientBalance);
        }
        let agent_id = agent.id.clone();
        let stage = advance_stage(agent.evolution_stage);
        let evolved = AIAgent {
            balance: agent.balance - cost,
            evolution_stage: stage,
            last_action: env.height,
            ..agent
        };
        save_agent(&mut self.agents, evolved);
        let mut reply = Reply::new();
        reply.add_attribute(owned("action"), owned("evolve"));
        reply.add_attribute(owned("agent_id"), agent_id);
        reply.add_attribute(owned("new_stage"), describe_stage(stage));
        reply.add_attribute(owned("cost"), decimal_string(cost));
        assert(reply.attrs() =~= seq![
            ("action"@, "evolve"@),
            ("agent_id"@, agent.id@),
            ("new_stage"@, stage_text(next_stage(agent.evolution_stage))),
            ("cost"@, decimal(cost as nat)),
        ]);
        Ok(reply)
    }

    /// The agent stored with the given id.
    pub fn get_agent(&self, agent_id: &String) -> (r: Result<AIAgent, ContractError>)
        ensures
            r == match find_agent(self.agents(), agent_id@) {
                Some(a) => Ok::<AIAgent, ContractError>(a),
                None => Err(ContractError::NotFound(StoredKind::Agent)),
            },
    {
        match position_of_agent(&self.agents, agent_id) {
            Some(i) => Ok(self.agents[i].duplicate()),
            None => Err(ContractError::NotFound(StoredKind::Agent)),
        }
    }

    /// The records of an agent among the newest `limit` action records,
    /// newest first.
    pub fn get_agent_actions(&self, agent_id: &String, limit: u32) -> (r: Vec<ActionRecord>)
        ensures
            r@ == recent_actions(self.actions(), agent_id@, limit as nat),
    {
        collect_recent(&self.actions, agent_id, limit)
    }

    /// The first `limit` agents by balance, ties in stored order.
    pub fn get_agent_leaderboard(&self, limit: u32) -> (r: Vec<AIAgent>)
        requires
            self.wf(),
        ensures
            is_top_ranking(self.agents(), r@, limit as nat),
    {
        rank_agents(&self.agents, limit)
    }
}

/// `new` and `reply` are what recording an action of `agent`, justified by
/// `inference`, under number `n`, with helper outcome `o`, makes of `old`.
pub open spec fn action_done<M>(
    old: World,
    new: World,
    agent: AIAgent,
    inference: VerifiedInference,
    action: ActionType,
    env: ChainEnv,
    n: u64,
    o: RuleOutcome<M>,
    reply: Reply<M>,
) -> bool {
    &&& action_saved(old.actions(), new.actions(), n, action_record(agent, action, inference, env))
    &&& new.next_action_id() == Some((n + 1) as u64)
    &&& agent_saved(old.agents(), new.agents(), acted_agent(agent, action, env.height))
    &&& new.inferences() == old.inferences()
    &&& new.population() == old.population()
    &&& reply.attrs() == action_attrs(agent, action, o)
    &&& reply.messages@ == action_messages(o)
}

fn agents_in_order(v: &Vec<AIAgent>) -> (r: bool)
    ensures
        r == agents_sorted(v@),
{
    let mut i: usize = 1;
    if v.len() == 0 {
        return true;
    }
    while i < v.len()
        invariant
            1 <= i <= v@.len(),
            forall|p: int, q: int| 0 <= p < q < i ==> crate::order::lex_lt(#[trigger] v@[p].key(), #[trigger] v@[q].key()),
        decreases v@.len() - i,
    {
        if !crate::order::bytes_less(v[i - 1].id.as_str().as_bytes(), v[i].id.as_str().as_bytes()) {
            assert(!crate::order::lex_lt(v@[i - 1].key(), v@[i as int].key()));
            return false;
        }
        proof {
            assert forall|p: int, q: int| 0 <= p < q < i + 1 implies crate::order::lex_lt(#[trigger] v@[p].key(), #[trigger] v@[q].key()) by {
                if q == i && p < i - 1 {
                    crate::order::lemma_lex_transitive(v@[p].key(), v@[i - 1].key(), v@[q].key());
                }
            }
        }
        i = i + 1;
    }
    true
}

fn actions_in_order(v: &Vec<(u64, ActionRecord)>) -> (r: bool)
    ensures
        r == actions_sorted(v@),
{
    let mut i: usize = 1;
    if v.len() == 0 {
        return true;
    }
    while i < v.len()
        invariant
            1 <= i <= v@.len(),
            forall|p: int, q: int| 0 <= p < q < i ==> #[trigger] v@[p].0 < #[trigger] v@[q].0,
        decreases v@.len() - i,
    {
        if v[i - 1].0 >= v[i].0 {
            assert(!(v@[i - 1].0 < v@[i as int].0));
            return false;
        }
        proof {
            assert forall|p: int, q: int| 0 <= p < q < i + 1 implies #[trigger] v@[p].0 < #[trigger] v@[q].0 by {
                if q == i && p < i - 1 {
                    assert(v@[p].0 < v@[i - 1].0);
                }
            }
        }
        i = i + 1;
    }
    true
}

} // verus!
