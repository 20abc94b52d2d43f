//! The simulation controller: the agent registry, the population ledger,
//! and the per-tick sequence of movement scheduling and contact resolution.
//!
//! The controller owns all agent state. The host owns the spatial world and
//! drives the loop: every frame it calls [`Game::tick`] with the elapsed
//! time, queries its world for the contacts of each agent the tick reported
//! due, hands each list to [`Game::resolve_contacts`], and carries out the
//! returned [`Action`]s (impulses, size changes, deregistrations, total
//! notifications). Agents are addressed by the stable ids the controller
//! issues at spawn; the host maps its own spatial handles back to these ids.

use vstd::prelude::*;

use crate::bugster::Bugsters;
use crate::bugster::spec_applied_delta;
use crate::bugster::spec_new_bugster;
use crate::bugster::MAX_TICK_MS;
use crate::rng::random_in_range;
use crate::sizing::spec_scale_milli;
use crate::sizing::BASE_HEALTH;
use crate::sizing::BASE_SIZE_MILLI;
use crate::sizing::HEALTH_SCALE_LIMIT;
use crate::strategy::spec_payoff;
use crate::strategy::PersonalityType;

verus! {

/// Multiplier turning the vector from the resolving agent to its contact
/// into the repulsion impulse that knocks the agent away (6 units of force,
/// applied against the direction of the contact).
pub const BOUNCE_FORCE: i64 = -6;

/// Agents spawn with horizontal positions in `[-MAX_X_MILLI, MAX_X_MILLI]`
/// thousandths of a world unit (8 units either way).
pub const MAX_X_MILLI: i64 = 8000;

/// Agents spawn with vertical positions in `[-MAX_Y_MILLI, MAX_Y_MILLI]`
/// thousandths of a world unit (3.5 units either way).
pub const MAX_Y_MILLI: i64 = 3500;

/// Largest position coordinate magnitude contact resolution accepts, in
/// thousandths of a world unit: keeps the repulsion arithmetic inside
/// `i64`.
pub const POSITION_LIMIT: i64 = 1_000_000_000_000_000;

/// One registry entry: a stable agent id and the agent's state.
#[derive(Clone, Copy, Debug, PartialEq, Eq, Structural)]
pub struct AgentSlot {
    pub id: u64,
    pub bugster: Bugsters,
}

/// One entry of a contact query result, as the host's spatial world reports
/// it: the id of the touched agent, whether the pair has an active contact
/// (touching rather than merely overlapping detection volumes), and the
/// touched agent's position in thousandths of a world unit.
#[derive(Clone, Copy, Debug, PartialEq, Eq, Structural)]
pub struct ContactInfo {
    pub other: u64,
    pub active: bool,
    pub other_x: i64,
    pub other_y: i64,
}

/// A request the simulation hands to the host, to be carried out against
/// the spatial world or the UI.
#[derive(Clone, Copy, Debug, PartialEq, Eq, Structural)]
pub enum Action {
    /// Create a body for a freshly spawned agent at the given position and
    /// scale (thousandths of a world unit), textured for its personality.
    Register { id: u64, personality: PersonalityType, x: i64, y: i64, scale: i64 },
    /// Apply an impulse to the agent's body (thousandths of a unit of force).
    ApplyImpulse { id: u64, x: i64, y: i64 },
    /// Resize the agent's sprite and both collider regions (thousandths).
    SetSize { id: u64, scale: i64 },
    /// Remove the agent's body from the spatial world for good.
    Deregister { id: u64 },
    /// Tell the UI the new population health total of one strategy.
    NotifyTotal { personality: PersonalityType, total: i64 },
}

/// One ledger movement: which strategy's total changed, and by how much.
/// Spawns contribute the base health; every resolved contact contributes
/// its applied (clamped) delta.
#[derive(Clone, Copy, Debug, PartialEq, Eq, Structural)]
pub struct LedgerEvent {
    pub personality: PersonalityType,
    pub delta: i64,
}

/// Sum of the deltas of all events of one strategy.
pub open spec fn ledger_sum(events: Seq<LedgerEvent>, p: PersonalityType) -> int
    decreases events.len(),
{
    if events.len() == 0 {
        0
    } else {
        ledger_sum(events.drop_last(), p) + if events.last().personality == p {
            events.last().delta as int
        } else {
            0
        }
    }
}

/// Sum of the healths of all registered agents of one strategy.
pub open spec fn health_sum(agents: Seq<AgentSlot>, p: PersonalityType) -> int
    decreases agents.len(),
{
    if agents.len() == 0 {
        0
    } else {
        health_sum(agents.drop_last(), p) + if agents.last().bugster.personality == p {
            agents.last().bugster.healthpoints as int
        } else {
            0
        }
    }
}

/// Index of the first registry entry carrying the given id; the registry
/// length when no entry does.
pub open spec fn index_of_id(agents: Seq<AgentSlot>, id: u64) -> int
    decreases agents.len(),
{
    if agents.len() == 0 {
        0
    } else if agents[0].id == id {
        0
    } else {
        1 + index_of_id(agents.skip(1), id)
    }
}

/// Whether some registry entry carries the given id.
pub open spec fn has_agent(agents: Seq<AgentSlot>, id: u64) -> bool {
    index_of_id(agents, id) < agents.len()
}

/// The agent bound to the given id, if any: the spatial-handle-to-agent
/// lookup of the registry.
pub open spec fn lookup_agent(agents: Seq<AgentSlot>, id: u64) -> Option<Bugsters> {
    if has_agent(agents, id) {
        Some(agents[index_of_id(agents, id)].bugster)
    } else {
        None
    }
}

/// `index_of_id` points at the first entry with the id: it stays within
/// the registry, hits the id when it is inside, and nothing before it does.
pub proof fn lemma_index_of_id(agents: Seq<AgentSlot>, id: u64)
    ensures
        0 <= index_of_id(agents, id) <= agents.len(),
        index_of_id(agents, id) < agents.len() ==> agents[index_of_id(agents, id)].id == id,
        forall|j: int| 0 <= j < index_of_id(agents, id) ==> (#[trigger] agents[j]).id != id,
    decreases agents.len(),
{
    if agents.len() > 0 && agents[0].id != id {
        lemma_index_of_id(agents.skip(1), id);
        assert(forall|j: int|
            1 <= j < agents.len() ==> #[trigger] agents[j] == agents.skip(1)[j - 1]);
    }
}

/// An entry with the id at `i`, with none before it, pins `index_of_id`.
pub proof fn lemma_index_of_id_first(agents: Seq<AgentSlot>, id: u64, i: int)
    requires
        0 <= i < agents.len(),
        agents[i].id == id,
        forall|j: int| 0 <= j < i ==> (#[trigger] agents[j]).id != id,
    ensures
        index_of_id(agents, id) == i,
    decreases agents.len(),
{
    if i > 0 {
        assert(forall|j: int|
            0 <= j < i - 1 ==> agents.skip(1)[j] == #[trigger] agents[j + 1]);
        lemma_index_of_id_first(agents.skip(1), id, i - 1);
    }
}

/// A registry without the id anywhere has `index_of_id` at its length.
pub proof fn lemma_index_of_id_absent(agents: Seq<AgentSlot>, id: u64)
    requires
        forall|j: int| 0 <= j < agents.len() ==> (#[trigger] agents[j]).id != id,
    ensures
        index_of_id(agents, id) == agents.len(),
    decreases agents.len(),
{
    if agents.len() > 0 {
        assert(forall|j: int|
            0 <= j < agents.len() - 1 ==> agents.skip(1)[j] == #[trigger] agents[j + 1]);
        lemma_index_of_id_absent(agents.skip(1), id);
    }
}

/// Replacing one entry moves a strategy's health sum by the difference of
/// the two entries' contributions to it.
pub proof fn lemma_health_sum_update(agents: Seq<AgentSlot>, i: int, s2: AgentSlot, p: PersonalityType)
    requires
        0 <= i < agents.len(),
    ensures
        health_sum(agents.update(i, s2), p) == health_sum(agents, p) - (if agents[i].bugster.personality
            == p {
            agents[i].bugster.healthpoints as int
        } else {
            0
        }) + (if s2.bugster.personality == p {
            s2.bugster.healthpoints as int
        } else {
            0
        }),
    decreases agents.len(),
{
    let upd = agents.update(i, s2);
    if i == agents.len() - 1 {
        assert(upd.drop_last() =~= agents.drop_last());
        assert(upd.last() == s2);
    } else {
        assert(upd.drop_last() =~= agents.drop_last().update(i, s2));
        assert(upd.last() == agents.last());
        lemma_health_sum_update(agents.drop_last(), i, s2, p);
    }
}

/// Removing one entry takes exactly its contribution out of a strategy's
/// health sum.
pub proof fn lemma_health_sum_remove(agents: Seq<AgentSlot>, i: int, p: PersonalityType)
    requires
        0 <= i < agents.len(),
    ensures
        health_sum(agents.remove(i), p) == health_sum(agents, p) - (if agents[i].bugster.personality
            == p {
            agents[i].bugster.healthpoints as int
        } else {
            0
        }),
    decreases agents.len(),
{
    let rem = agents.remove(i);
    if i == agents.len() - 1 {
        assert(rem =~= agents.drop_last());
    } else {
        assert(rem.drop_last() =~= agents.drop_last().remove(i));
        assert(rem.last() == agents.last());
        lemma_health_sum_remove(agents.drop_last(), i, p);
    }
}

/// With no negative healths a strategy's health sum is nonnegative.
pub proof fn lemma_health_sum_nonneg(agents: Seq<AgentSlot>, p: PersonalityType)
    requires
        forall|j: int| 0 <= j < agents.len() ==> (#[trigger] agents[j]).bugster.healthpoints >= 0,
    ensures
        health_sum(agents, p) >= 0,
    decreases agents.len(),
{
    if agents.len() > 0 {
        lemma_health_sum_nonneg(agents.drop_last(), p);
    }
}

/// With no negative healths, a strategy's health sum dominates the health
/// of each of its members.
pub proof fn lemma_health_sum_member(agents: Seq<AgentSlot>, i: int, p: PersonalityType)
    requires
        forall|j: int| 0 <= j < agents.len() ==> (#[trigger] agents[j]).bugster.healthpoints >= 0,
        0 <= i < agents.len(),
        agents[i].bugster.personality == p,
    ensures
        health_sum(agents, p) >= agents[i].bugster.healthpoints,
    decreases agents.len(),
{
    if i == agents.len() - 1 {
        lemma_health_sum_nonneg(agents.drop_last(), p);
    } else {
        lemma_health_sum_member(agents.drop_last(), i, p);
    }
}

/// Two registries that pair up with equal personalities and healths have
/// equal health sums.
pub proof fn lemma_health_sum_congruent(a: Seq<AgentSlot>, b: Seq<AgentSlot>, p: PersonalityType)
    requires
        a.len() == b.len(),
        forall|j: int| 0 <= j < a.len() ==> (#[trigger] a[j]).bugster.personality
            == b[j].bugster.personality && a[j].bugster.healthpoints == b[j].bugster.healthpoints,
    ensures
        health_sum(a, p) == health_sum(b, p),
    decreases a.len(),
{
    if a.len() > 0 {
        lemma_health_sum_congruent(a.drop_last(), b.drop_last(), p);
    }
}

/// A registry index is inside exactly when some entry carries the id.
pub proof fn lemma_has_agent_exists(agents: Seq<AgentSlot>, id: u64)
    ensures
        has_agent(agents, id) <==> exists|i: int|
            0 <= i < agents.len() && (#[trigger] agents[i]).id == id,
{
    lemma_index_of_id(agents, id);
    if has_agent(agents, id) {
        assert(agents[index_of_id(agents, id)].id == id);
    }
}

/// The impulses one tick owes the host, in registry order: one per agent
/// whose move timer fired, carrying the velocity that agent drew.
pub open spec fn impulse_actions(o: Seq<AgentSlot>, n: Seq<AgentSlot>, dt: u64) -> Seq<Action>
    decreases o.len(),
{
    if o.len() == 0 || o.len() != n.len() {
        Seq::empty()
    } else {
        impulse_actions(o.drop_last(), n.drop_last(), dt) + if o.last().bugster.move_due(dt) {
            seq![
                Action::ApplyImpulse {
                    id: o.last().id,
                    x: n.last().bugster.x_speed,
                    y: n.last().bugster.y_speed,
                },
            ]
        } else {
            Seq::empty()
        }
    }
}

/// The agents owed a contact-resolution pass this tick, in registry order:
/// those whose contact timer fired.
pub open spec fn due_ids(agents: Seq<AgentSlot>, dt: u64) -> Seq<u64>
    decreases agents.len(),
{
    if agents.len() == 0 {
        Seq::empty()
    } else {
        due_ids(agents.drop_last(), dt) + if agents.last().bugster.contact_due(dt) {
            seq![agents.last().id]
        } else {
            Seq::empty()
        }
    }
}

/// A host-entered spawn count, clamped below at zero: negative counts
/// spawn nothing.
pub open spec fn clamp0(n: i64) -> int {
    if n > 0 {
        n as int
    } else {
        0
    }
}

/// What one contact-resolution pass does, contact by contact in query
/// order, for a resolving agent of personality `p` with health `h`, whose
/// strategy's population total stands at `t`: inactive pairs and pairs
/// whose handle is bound to no agent are skipped; every other pair applies
/// the clamped payoff to health, moves the total by the same amount, logs
/// the movement and owes the UI the new total; a pair that empties the
/// health additionally owes the spatial world a deregistration and ends
/// the pass; a survived pair owes the agent a repulsion impulse away from
/// the contact. Returns the final health, the final total, the owed
/// actions, and the logged ledger movements.
pub open spec fn settle(
    agents: Seq<AgentSlot>,
    id: u64,
    p: PersonalityType,
    h: int,
    t: int,
    sx: int,
    sy: int,
    contacts: Seq<ContactInfo>,
) -> (int, int, Seq<Action>, Seq<LedgerEvent>)
    decreases contacts.len(),
{
    if contacts.len() == 0 {
        (h, t, Seq::empty(), Seq::empty())
    } else {
        let c = contacts[0];
        let rest = contacts.skip(1);
        if !c.active || lookup_agent(agents, c.other) is None {
            settle(agents, id, p, h, t, sx, sy, rest)
        } else {
            let opp = lookup_agent(agents, c.other)->Some_0;
            let applied = spec_applied_delta(spec_payoff(p, opp.personality), h);
            let h2 = h + applied;
            let t2 = t + applied;
            let note = Action::NotifyTotal { personality: p, total: t2 as i64 };
            let ev = LedgerEvent { personality: p, delta: applied as i64 };
            if h2 <= 0 {
                (h2, t2, seq![note, Action::Deregister { id }], seq![ev])
            } else {
                let imp = Action::ApplyImpulse {
                    id,
                    x: (BOUNCE_FORCE * (c.other_x - sx)) as i64,
                    y: (BOUNCE_FORCE * (c.other_y - sy)) as i64,
                };
                let r = settle(agents, id, p, h2, t2, sx, sy, rest);
                (r.0, r.1, seq![note, imp] + r.2, seq![ev] + r.3)
            }
        }
    }
}

/// The ledger invariant: at any point of the simulation, each strategy's
/// population total equals the sum of all ledger movements of that
/// strategy — the base-health contribution of each of its spawns plus
/// every applied payoff delta — as replaying the event log would compute
/// it.
pub proof fn lemma_ledger_accounting(g: Game)
    requires
        g.wf(),
    ensures
        g.coop_hp == ledger_sum(g.events@, PersonalityType::Cooperative),
        g.greed_hp == ledger_sum(g.events@, PersonalityType::Greedy),
{
}

/// The liveness invariant: every agent the registry still holds has
/// health strictly above zero. An agent whose health reached zero was
/// removed on the spot, so it can never be found again, be handed a tick,
/// or stand in a later contact pass.
pub proof fn lemma_live_agents_positive(g: Game, id: u64)
    requires
        g.wf(),
    ensures
        lookup_agent(g.agents@, id) matches Some(b) ==> b.healthpoints > 0,
{
    lemma_index_of_id(g.agents@, id);
}

/// The simulation controller: owns every agent, issues their stable ids,
/// and keeps the two population health totals. `events` is the ghost log
/// of every ledger movement ever applied, against which the totals are
/// verified.
pub struct Game {
    pub agents: Vec<AgentSlot>,
    pub coop_hp: i64,
    pub greed_hp: i64,
    pub next_id: u64,
    pub events: Ghost<Seq<LedgerEvent>>,
}

impl Game {
    /// Controller sanity, established at construction and preserved by
    /// every operation:
    /// - every registered agent is well formed and alive (health above zero);
    /// - ids are unique and below the next id to be issued;
    /// - each total equals the summed deltas of its strategy's ledger
    ///   events (spawn contributions plus every applied payoff), and is at
    ///   least the summed health of its strategy's live agents.
    pub open spec fn wf(self) -> bool {
        &&& forall|i: int|
            0 <= i < self.agents@.len() ==> (#[trigger] self.agents@[i]).bugster.wf()
        &&& forall|i: int|
            0 <= i < self.agents@.len() ==> (#[trigger] self.agents@[i]).bugster.healthpoints > 0
        &&& forall|i: int, j: int|
            0 <= i < j < self.agents@.len() ==> (#[trigger] self.agents@[i]).id
                != (#[trigger] self.agents@[j]).id
        &&& forall|i: int| 0 <= i < self.agents@.len() ==> (#[trigger] self.agents@[i]).id < self.next_id
        &&& self.coop_hp == ledger_sum(self.events@, PersonalityType::Cooperative)
        &&& self.greed_hp == ledger_sum(self.events@, PersonalityType::Greedy)
        &&& self.coop_hp >= health_sum(self.agents@, PersonalityType::Cooperative)
        &&& self.greed_hp >= health_sum(self.agents@, PersonalityType::Greedy)
    }

    /// An empty simulation: no agents, both totals at zero.
    pub fn new() -> (g: Game)
        ensures
            g.wf(),
            g.agents@.len() == 0,
            g.coop_hp == 0,
            g.greed_hp == 0,
            g.next_id == 0,
            g.events@ == Seq::<LedgerEvent>::empty(),
    {
        Game {
            agents: Vec::new(),
            coop_hp: 0,
            greed_hp: 0,
            next_id: 0,
            events: Ghost(Seq::empty()),
        }
    }

    /// Number of live agents in the registry.
    pub fn agent_count(&self) -> (n: usize)
        ensures
            n == self.agents@.len(),
    {
        self.agents.len()
    }

    /// Adds `value` to the Cooperative population total and logs the
    /// movement. Raw ledger adjustment: callers are responsible for using
    /// deltas the simulation rules produced.
    pub fn change_coop_hp(&mut self, value: i64)
        requires
            i64::MIN <= old(self).coop_hp + value <= i64::MAX,
        ensures
            final(self).coop_hp == old(self).coop_hp + value,
            final(self).greed_hp == old(self).greed_hp,
            final(self).agents == old(self).agents,
            final(self).next_id == old(self).next_id,
            final(self).events@ == old(self).events@.push(LedgerEvent {
                personality: PersonalityType::Cooperative,
                delta: value,
            }),
            ledger_sum(final(self).events@, PersonalityType::Cooperative) == ledger_sum(
                old(self).events@,
                PersonalityType::Cooperative,
            ) + value,
            ledger_sum(final(self).events@, PersonalityType::Greedy) == ledger_sum(
                old(self).events@,
                PersonalityType::Greedy,
            ),
    {
        self.coop_hp = self.coop_hp + value;
        let ghost ev = LedgerEvent { personality: PersonalityType::Cooperative, delta: value };
        proof {
            assert(self.events@.push(ev).drop_last() =~= self.events@);
        }
        self.events = Ghost(self.events@.push(ev));
    }

    /// Adds `value` to the Greedy population total and logs the movement.
    /// Raw ledger adjustment: callers are responsible for using deltas the
    /// simulation rules produced.
    pub fn change_greed_hp(&mut self, value: i64)
        requires
            i64::MIN <= old(self).greed_hp + value <= i64::MAX,
        ensures
            final(self).greed_hp == old(self).greed_hp + value,
            final(self).coop_hp == old(self).coop_hp,
            final(self).agents == old(self).agents,
            final(self).next_id == old(self).next_id,
            final(self).events@ == old(self).events@.push(LedgerEvent {
                personality: PersonalityType::Greedy,
                delta: value,
            }),
            ledger_sum(final(self).events@, PersonalityType::Greedy) == ledger_sum(
                old(self).events@,
                PersonalityType::Greedy,
            ) + value,
            ledger_sum(final(self).events@, PersonalityType::Cooperative) == ledger_sum(
                old(self).events@,
                PersonalityType::Cooperative,
            ),
    {
        self.greed_hp = self.greed_hp + value;
        let ghost ev = LedgerEvent { personality: PersonalityType::Greedy, delta: value };
        proof {
            assert(self.events@.push(ev).drop_last() =~= self.events@);
        }
        self.events = Ghost(self.events@.push(ev));
    }

    /// Finds the registry index of the agent bound to `id`, if any.
    fn find_agent_index(&self, id: u64) -> (r: Option<usize>)
        ensures
            match r {
                Some(i) => i < self.agents@.len() && i as int == index_of_id(self.agents@, id)
                    && self.agents@[i as int].id == id && lookup_agent(self.agents@, id)
                    == Some(self.agents@[i as int].bugster),
                None => !has_agent(self.agents@, id) && lookup_agent(self.agents@, id) is None,
            },
    {
        let n = self.agents.len();
        let mut i: usize = 0;
        while i < n
            invariant
                n == self.agents@.len(),
                i <= n,
                forall|j: int| 0 <= j < i ==> (#[trigger] self.agents@[j]).id != id,
            decreases n - i,
        {
            if self.agents[i].id == id {
                proof {
                    lemma_index_of_id_first(self.agents@, id, i as int);
                }
                return Some(i);
            }
            i = i + 1;
        }
        proof {
            lemma_index_of_id_absent(self.agents@, id);
        }
        None
    }

    /// Reports the personality and current health of the agent bound to
    /// `id`, or nothing when no live agent carries that id (in particular,
    /// for every agent that was removed).
    pub fn query_agent(&self, id: u64) -> (r: Option<(PersonalityType, i64)>)
        ensures
            match r {
                Some(pq) => lookup_agent(self.agents@, id) matches Some(b) && pq.0 == b.personality
                    && pq.1 == b.healthpoints,
                None => lookup_agent(self.agents@, id) is None,
            },
    {
        match self.find_agent_index(id) {
            Some(i) => {
                let slot = self.agents[i];
                Some((slot.bugster.personality, slot.bugster.healthpoints))
            },
            None => None,
        }
    }

    /// Spawns an agent of the given personality at the given position
    /// (thousandths of a world unit): creates it with base health, issues a
    /// fresh id, credits its strategy's total with the base health, and
    /// hands back the id together with the actions the host owes the
    /// spatial world and the UI (register the body, show the new total).
    pub fn add_bugster(&mut self, personality: PersonalityType, x: i64, y: i64) -> (spawn: (
        u64,
        Vec<Action>,
    ))
        requires
            old(self).wf(),
            old(self).next_id < u64::MAX,
            personality == PersonalityType::Cooperative ==> old(self).coop_hp <= i64::MAX
                - BASE_HEALTH,
            personality == PersonalityType::Greedy ==> old(self).greed_hp <= i64::MAX
                - BASE_HEALTH,
        ensures
            final(self).wf(),
            spawn.0 == old(self).next_id,
            final(self).next_id == old(self).next_id + 1,
            !has_agent(old(self).agents@, spawn.0),
            final(self).agents@ == old(self).agents@.push(AgentSlot {
                id: spawn.0,
                bugster: spec_new_bugster(BASE_HEALTH, personality),
            }),
            personality == PersonalityType::Cooperative ==> final(self).coop_hp == old(self).coop_hp
                + BASE_HEALTH && final(self).greed_hp == old(self).greed_hp,
            personality == PersonalityType::Greedy ==> final(self).greed_hp == old(self).greed_hp
                + BASE_HEALTH && final(self).coop_hp == old(self).coop_hp,
            final(self).events@ == old(self).events@.push(LedgerEvent {
                personality,
                delta: BASE_HEALTH,
            }),
            spawn.1@ == seq![
                Action::Register { id: spawn.0, personality, x, y, scale: BASE_SIZE_MILLI },
                Action::NotifyTotal {
                    personality,
                    total: if personality == PersonalityType::Cooperative {
                        final(self).coop_hp
                    } else {
                        final(self).greed_hp
                    },
                },
            ],
    {
        let id = self.next_id;
        proof {
            lemma_index_of_id_absent(self.agents@, id);
        }
        let bugster = Bugsters::new(BASE_HEALTH, personality);
        let slot = AgentSlot { id, bugster };
        proof {
            assert(self.agents@.push(slot).drop_last() =~= self.agents@);
        }
        self.agents.push(slot);
        self.next_id = id + 1;
        let total = match personality {
            PersonalityType::Cooperative => {
                self.change_coop_hp(BASE_HEALTH);
                self.coop_hp
            },
            PersonalityType::Greedy => {
                self.change_greed_hp(BASE_HEALTH);
                self.greed_hp
            },
        };
        let mut actions: Vec<Action> = Vec::new();
        actions.push(Action::Register { id, personality, x, y, scale: BASE_SIZE_MILLI });
        actions.push(Action::NotifyTotal { personality, total });
        proof {
            assert(actions@ =~= seq![
                Action::Register { id, personality, x, y, scale: BASE_SIZE_MILLI },
                Action::NotifyTotal { personality, total },
            ]);
        }
        (id, actions)
    }

    /// Starts a round: spawns the requested number of Cooperative agents,
    /// then the requested number of Greedy ones, each at a fresh random
    /// position within the arena, each with base health, crediting its
    /// strategy's total as it arrives. Counts at or below zero spawn
    /// nothing. Returns the spawn actions in order: for each agent, the
    /// registration of its body followed by the notification of its
    /// strategy's new total.
    pub fn game_start(&mut self, coop_count: i64, greed_count: i64) -> (actions: Vec<Action>)
        requires
            old(self).wf(),
            old(self).next_id + clamp0(coop_count) + clamp0(greed_count) <= u64::MAX,
            old(self).coop_hp + BASE_HEALTH * clamp0(coop_count) <= i64::MAX,
            old(self).greed_hp + BASE_HEALTH * clamp0(greed_count) <= i64::MAX,
        ensures
            final(self).wf(),
            final(self).next_id == old(self).next_id + clamp0(coop_count) + clamp0(greed_count),
            final(self).coop_hp == old(self).coop_hp + BASE_HEALTH * clamp0(coop_count),
            final(self).greed_hp == old(self).greed_hp + BASE_HEALTH * clamp0(greed_count),
            final(self).agents@.len() == old(self).agents@.len() + clamp0(coop_count) + clamp0(
                greed_count,
            ),
            forall|j: int|
                0 <= j < old(self).agents@.len() ==> #[trigger] final(self).agents@[j]
                    == old(self).agents@[j],
            forall|m: int|
                0 <= m < clamp0(coop_count) ==> #[trigger] final(self).agents@[old(
                    self,
                ).agents@.len() + m] == (AgentSlot {
                    id: (old(self).next_id + m) as u64,
                    bugster: spec_new_bugster(BASE_HEALTH, PersonalityType::Cooperative),
                }),
            forall|m: int|
                0 <= m < clamp0(greed_count) ==> #[trigger] final(self).agents@[old(
                    self,
                ).agents@.len() + clamp0(coop_count) + m] == (AgentSlot {
                    id: (old(self).next_id + clamp0(coop_count) + m) as u64,
                    bugster: spec_new_bugster(BASE_HEALTH, PersonalityType::Greedy),
                }),
            final(self).events@.len() == old(self).events@.len() + clamp0(coop_count) + clamp0(
                greed_count,
            ),
            forall|j: int|
                0 <= j < old(self).events@.len() ==> #[trigger] final(self).events@[j]
                    == old(self).events@[j],
            forall|m: int|
                0 <= m < clamp0(coop_count) ==> #[trigger] final(self).events@[old(
                    self,
                ).events@.len() + m] == (LedgerEvent {
                    personality: PersonalityType::Cooperative,
                    delta: BASE_HEALTH,
                }),
            forall|m: int|
                0 <= m < clamp0(greed_count) ==> #[trigger] final(self).events@[old(
                    self,
                ).events@.len() + clamp0(coop_count) + m] == (LedgerEvent {
                    personality: PersonalityType::Greedy,
                    delta: BASE_HEALTH,
                }),
            actions@.len() == 2 * (clamp0(coop_count) + clamp0(greed_count)),
            forall|m: int|
                0 <= m < clamp0(coop_count) ==> ((#[trigger] actions@[2 * m]) matches
                    Action::Register { id, personality, x, y, scale } && id == (old(self).next_id
                    + m) as u64 && personality == PersonalityType::Cooperative && -MAX_X_MILLI <= x
                    <= MAX_X_MILLI && -MAX_Y_MILLI <= y <= MAX_Y_MILLI && scale == BASE_SIZE_MILLI),
            forall|m: int|
                0 <= m < clamp0(coop_count) ==> #[trigger] actions@[2 * m + 1]
                    == (Action::NotifyTotal {
                    personality: PersonalityType::Cooperative,
                    total: (old(self).coop_hp + BASE_HEALTH * (m + 1)) as i64,
                }),
            forall|m: int|
                0 <= m < clamp0(greed_count) ==> ((#[trigger] actions@[2 * (clamp0(coop_count) + m)])
                    matches Action::Register { id, personality, x, y, scale } && id == (old(
                    self,
                ).next_id + clamp0(coop_count) + m) as u64 && personality
                    == PersonalityType::Greedy && -MAX_X_MILLI <= x <= MAX_X_MILLI && -MAX_Y_MILLI
                    <= y <= MAX_Y_MILLI && scale == BASE_SIZE_MILLI),
            forall|m: int|
                0 <= m < clamp0(greed_count) ==> #[trigger] actions@[2 * (clamp0(coop_count) + m)
                    + 1] == (Action::NotifyTotal {
                    personality: PersonalityType::Greedy,
                    total: (old(self).greed_hp + BASE_HEALTH * (m + 1)) as i64,
                }),
    {
        let ghost len0 = old(self).agents@.len() as int;
        let ghost e0 = old(self).events@.len() as int;
        let ghost next0 = old(self).next_id;
        let ghost coop0 = old(self).coop_hp;
        let ghost greed0 = old(self).greed_hp;
        let mut actions: Vec<Action> = Vec::new();
        let mut k: i64 = 0;
        while k < coop_count
            invariant
                old(self).wf(),
                0 <= k <= clamp0(coop_count),
                next0 + clamp0(coop_count) + clamp0(greed_count) <= u64::MAX,
                coop0 + BASE_HEALTH * clamp0(coop_count) <= i64::MAX,
                greed0 + BASE_HEALTH * clamp0(greed_count) <= i64::MAX,
                len0 == old(self).agents@.len(),
                e0 == old(self).events@.len(),
                next0 == old(self).next_id,
                coop0 == old(self).coop_hp,
                greed0 == old(self).greed_hp,
                self.wf(),
                self.next_id == next0 + k,
                self.coop_hp == coop0 + BASE_HEALTH * k,
                self.greed_hp == greed0,
                self.agents@.len() == len0 + k,
                forall|j: int| 0 <= j < len0 ==> #[trigger] self.agents@[j] == old(self).agents@[j],
                forall|m: int|
                    0 <= m < k ==> #[trigger] self.agents@[len0 + m] == (AgentSlot {
                        id: (next0 + m) as u64,
                        bugster: spec_new_bugster(BASE_HEALTH, PersonalityType::Cooperative),
                    }),
                self.events@.len() == e0 + k,
                forall|j: int| 0 <= j < e0 ==> #[trigger] self.events@[j] == old(self).events@[j],
                forall|m: int|
                    0 <= m < k ==> #[trigger] self.events@[e0 + m] == (LedgerEvent {
                        personality: PersonalityType::Cooperative,
                        delta: BASE_HEALTH,
                    }),
                actions@.len() == 2 * k,
                forall|m: int|
                    0 <= m < k ==> ((#[trigger] actions@[2 * m]) matches Action::Register {
                        id,
                        personality,
                        x,
                        y,
                        scale,
                    } && id == (next0 + m) as u64 && personality == PersonalityType::Cooperative
                        && -MAX_X_MILLI <= x <= MAX_X_MILLI && -MAX_Y_MILLI <= y <= MAX_Y_MILLI
                        && scale == BASE_SIZE_MILLI),
                forall|m: int|
                    0 <= m < k ==> #[trigger] actions@[2 * m + 1] == (Action::NotifyTotal {
                        personality: PersonalityType::Cooperative,
                        total: (coop0 + BASE_HEALTH * (m + 1)) as i64,
                    }),
            decreases coop_count - k,
        {
            let x = random_in_range(-MAX_X_MILLI, MAX_X_MILLI);
            let y = random_in_range(-MAX_Y_MILLI, MAX_Y_MILLI);
            let spawn = self.add_bugster(PersonalityType::Cooperative, x, y);
            let acts = spawn.1;
            actions.push(acts[0]);
            actions.push(acts[1]);
            k = k + 1;
        }
        let ghost c = clamp0(coop_count);
        let mut k: i64 = 0;
        while k < greed_count
            invariant
                old(self).wf(),
                0 <= k <= clamp0(greed_count),
                c == clamp0(coop_count),
                next0 + c + clamp0(greed_count) <= u64::MAX,
                greed0 + BASE_HEALTH * clamp0(greed_count) <= i64::MAX,
                len0 == old(self).agents@.len(),
                e0 == old(self).events@.len(),
                next0 == old(self).next_id,
                coop0 == old(self).coop_hp,
                greed0 == old(self).greed_hp,
                self.wf(),
                self.next_id == next0 + c + k,
                self.coop_hp == coop0 + BASE_HEALTH * c,
                self.greed_hp == greed0 + BASE_HEALTH * k,
                self.agents@.len() == len0 + c + k,
                forall|j: int| 0 <= j < len0 ==> #[trigger] self.agents@[j] == old(self).agents@[j],
                forall|m: int|
                    0 <= m < c ==> #[trigger] self.agents@[len0 + m] == (AgentSlot {
                        id: (next0 + m) as u64,
                        bugster: spec_new_bugster(BASE_HEALTH, PersonalityType::Cooperative),
                    }),
                forall|m: int|
                    0 <= m < k ==> #[trigger] self.agents@[len0 + c + m] == (AgentSlot {
                        id: (next0 + c + m) as u64,
                        bugster: spec_new_bugster(BASE_HEALTH, PersonalityType::Greedy),
                    }),
                self.events@.len() == e0 + c + k,
                forall|j: int| 0 <= j < e0 ==> #[trigger] self.events@[j] == old(self).events@[j],
                forall|m: int|
                    0 <= m < c ==> #[trigger] self.events@[e0 + m] == (LedgerEvent {
                        personality: PersonalityType::Cooperative,
                        delta: BASE_HEALTH,
                    }),
                forall|m: int|
                    0 <= m < k ==> #[trigger] self.events@[e0 + c + m] == (LedgerEvent {
                        personality: PersonalityType::Greedy,
                        delta: BASE_HEALTH,
                    }),
                actions@.len() == 2 * (c + k),
                forall|m: int|
                    0 <= m < c ==> ((#[trigger] actions@[2 * m]) matches Action::Register {
                        id,
                        personality,
                        x,
                        y,
                        scale,
                    } && id == (next0 + m) as u64 && personality == PersonalityType::Cooperative
                        && -MAX_X_MILLI <= x <= MAX_X_MILLI && -MAX_Y_MILLI <= y <= MAX_Y_MILLI
                        && scale == BASE_SIZE_MILLI),
                forall|m: int|
                    0 <= m < c ==> #[trigger] actions@[2 * m + 1] == (Action::NotifyTotal {
                        personality: PersonalityType::Cooperative,
                        total: (coop0 + BASE_HEALTH * (m + 1)) as i64,
                    }),
                forall|m: int|
                    0 <= m < k ==> ((#[trigger] actions@[2 * (c + m)]) matches Action::Register {
                        id,
                        personality,
                        x,
                        y,
                        scale,
                    } && id == (next0 + c + m) as u64 && personality == PersonalityType::Greedy
                        && -MAX_X_MILLI <= x <= MAX_X_MILLI && -MAX_Y_MILLI <= y <= MAX_Y_MILLI
                        && scale == BASE_SIZE_MILLI),
                forall|m: int|
                    0 <= m < k ==> #[trigger] actions@[2 * (c + m) + 1] == (Action::NotifyTotal {
                        personality: PersonalityType::Greedy,
                        total: (greed0 + BASE_HEALTH * (m + 1)) as i64,
                    }),
            decreases greed_count - k,
        {
            let x = random_in_range(-MAX_X_MILLI, MAX_X_MILLI);
            let y = random_in_range(-MAX_Y_MILLI, MAX_Y_MILLI);
            let spawn = self.add_bugster(PersonalityType::Greedy, x, y);
            let acts = spawn.1;
            actions.push(acts[0]);
            actions.push(acts[1]);
            k = k + 1;
        }
        actions
    }

    /// Deregisters and deletes the agent bound to `id`. Idempotent: a
    /// second call for the same id finds nothing and changes nothing.
    /// Removal itself never touches the totals: health reaching zero is
    /// the only way an agent's ledger story ends.
    pub fn remove(&mut self, id: u64)
        requires
            old(self).wf(),
        ensures
            final(self).wf(),
            !has_agent(final(self).agents@, id),
            has_agent(old(self).agents@, id) ==> final(self).agents@ == old(self).agents@.remove(
                index_of_id(old(self).agents@, id),
            ),
            !has_agent(old(self).agents@, id) ==> final(self).agents@ == old(self).agents@,
            final(self).coop_hp == old(self).coop_hp,
            final(self).greed_hp == old(self).greed_hp,
            final(self).next_id == old(self).next_id,
            final(self).events@ == old(self).events@,
            forall|other: u64|
                other != id ==> (#[trigger] has_agent(final(self).agents@, other) <==> has_agent(
                    old(self).agents@,
                    other,
                )),
    {
        match self.find_agent_index(id) {
            Some(i) => {
                proof {
                    lemma_health_sum_remove(self.agents@, i as int, PersonalityType::Cooperative);
                    lemma_health_sum_remove(self.agents@, i as int, PersonalityType::Greedy);
                    lemma_health_sum_nonneg(
                        self.agents@.remove(i as int),
                        PersonalityType::Cooperative,
                    );
                }
                let ghost before = self.agents@;
                self.agents.remove(i);
                proof {
                    lemma_has_agent_exists(before, id);
                    lemma_has_agent_exists(self.agents@, id);
                    assert(forall|j: int|
                        0 <= j < self.agents@.len() ==> #[trigger] self.agents@[j] == (if j < i {
                            before[j]
                        } else {
                            before[j + 1]
                        }));
                    assert(!has_agent(self.agents@, id));
                    assert forall|other: u64|
                        other != id implies (has_agent(self.agents@, other) <==> has_agent(
                        before,
                        other,
                    )) by {
                        lemma_has_agent_exists(before, other);
                        lemma_has_agent_exists(self.agents@, other);
                        if exists|k: int| 0 <= k < before.len() && (#[trigger] before[k]).id
                            == other {
                            let k = choose|k: int|
                                0 <= k < before.len() && (#[trigger] before[k]).id == other;
                            if k < i {
                                assert(self.agents@[k].id == other);
                            } else if k > i {
                                assert(self.agents@[k - 1].id == other);
                            }
                        }
                    }
                }
            },
            None => {},
        }
    }

    /// Advances the simulation by `dt_ms` milliseconds: every agent's
    /// timers accumulate the elapsed time; each agent whose move timer
    /// fired draws a fresh random velocity, owed to its body as an impulse;
    /// each agent whose contact timer fired is owed a contact-resolution
    /// pass. Returns the impulse actions and the due agents' ids, both in
    /// registry order. Health, the totals and the registry membership are
    /// untouched: resolution happens only when the host hands the due
    /// agents' contact query results to `resolve_contacts`.
    pub fn tick(&mut self, dt_ms: u64) -> (out: (Vec<Action>, Vec<u64>))
        requires
            old(self).wf(),
            dt_ms <= MAX_TICK_MS,
        ensures
            final(self).wf(),
            final(self).agents@.len() == old(self).agents@.len(),
            forall|i: int|
                0 <= i < old(self).agents@.len() ==> (#[trigger] final(self).agents@[i]).id
                    == old(self).agents@[i].id,
            forall|i: int|
                0 <= i < old(self).agents@.len() ==> crate::bugster::spec_tick_step(
                    old(self).agents@[i].bugster,
                    (#[trigger] final(self).agents@[i]).bugster,
                    dt_ms,
                ),
            final(self).coop_hp == old(self).coop_hp,
            final(self).greed_hp == old(self).greed_hp,
            final(self).next_id == old(self).next_id,
            final(self).events@ == old(self).events@,
            out.0@ == impulse_actions(old(self).agents@, final(self).agents@, dt_ms),
            out.1@ == due_ids(old(self).agents@, dt_ms),
            forall|id: u64|
                #[trigger] has_agent(final(self).agents@, id) <==> has_agent(
                    old(self).agents@,
                    id,
                ),
    {
        let ghost before = self.agents@;
        let mut actions: Vec<Action> = Vec::new();
        let mut due: Vec<u64> = Vec::new();
        let n = self.agents.len();
        let mut i: usize = 0;
        while i < n
            invariant
                dt_ms <= MAX_TICK_MS,
                n == before.len(),
                i <= n,
                self.agents@.len() == before.len(),
                forall|j: int| i <= j < n ==> #[trigger] self.agents@[j] == before[j],
                forall|j: int|
                    0 <= j < i ==> (#[trigger] self.agents@[j]).id == before[j].id,
                forall|j: int|
                    0 <= j < i ==> (#[trigger] self.agents@[j]).bugster.wf(),
                forall|j: int|
                    0 <= j < i ==> crate::bugster::spec_tick_step(
                        before[j].bugster,
                        (#[trigger] self.agents@[j]).bugster,
                        dt_ms,
                    ),
                forall|j: int|
                    0 <= j < n ==> (#[trigger] self.agents@[j]).bugster.healthpoints
                        == before[j].bugster.healthpoints && self.agents@[j].bugster.personality
                        == before[j].bugster.personality,
                forall|j: int| 0 <= j < n ==> (#[trigger] before[j]).bugster.wf(),
                actions@ == impulse_actions(before.take(i as int), self.agents@.take(i as int), dt_ms),
                due@ == due_ids(before.take(i as int), dt_ms),
                self.coop_hp == old(self).coop_hp,
                self.greed_hp == old(self).greed_hp,
                self.next_id == old(self).next_id,
                self.events@ == old(self).events@,
            decreases n - i,
        {
            let slot = self.agents[i];
            let mut b = slot.bugster;
            let impulse = b.update_movement(dt_ms);
            let contact_fired = b.update_contact_timer(dt_ms);
            let ghost prev = self.agents@;
            self.agents[i] = AgentSlot { id: slot.id, bugster: b };
            proof {
                assert(self.agents@.take(i as int) =~= prev.take(i as int));
            }
            match impulse {
                Some(v) => {
                    actions.push(Action::ApplyImpulse { id: slot.id, x: v.0, y: v.1 });
                },
                None => {},
            }
            if contact_fired {
                due.push(slot.id);
            }
            proof {
                assert(before.take(i + 1).drop_last() =~= before.take(i as int));
                assert(self.agents@.take(i + 1).drop_last() =~= self.agents@.take(i as int));
                assert(before.take(i + 1).last() == before[i as int]);
                assert(self.agents@.take(i + 1).last() == self.agents@[i as int]);
            }
            i = i + 1;
        }
        proof {
            assert(before.take(n as int) =~= before);
            assert(self.agents@.take(n as int) =~= self.agents@);
            lemma_health_sum_congruent(self.agents@, before, PersonalityType::Cooperative);
            lemma_health_sum_congruent(self.agents@, before, PersonalityType::Greedy);
            assert forall|id: u64|
                #[trigger] has_agent(self.agents@, id) <==> has_agent(before, id) by {
                lemma_has_agent_exists(before, id);
                lemma_has_agent_exists(self.agents@, id);
                if has_agent(before, id) {
                    let k = choose|k: int|
                        0 <= k < before.len() && (#[trigger] before[k]).id == id;
                    assert(self.agents@[k].id == id);
                }
                if has_agent(self.agents@, id) {
                    let k = choose|k: int|
                        0 <= k < self.agents@.len() && (#[trigger] self.agents@[k]).id == id;
                    assert(before[k].id == id);
                }
            }
        }
        (actions, due)
    }

    /// Runs one contact-resolution pass for the agent bound to `id`, as
    /// [`settle`] describes it, against the contact query results the host
    /// gathered for that agent (`self_x`/`self_y` is the agent's own
    /// position, positions in thousandths of a world unit). Health, total
    /// and ledger move exactly as `settle` says; an agent whose health
    /// empties leaves the registry for good, and only a surviving agent is
    /// owed a final size update from its new health. When no agent is
    /// bound to `id` the pass finds nothing to resolve and changes
    /// nothing.
    #[verifier::rlimit(100)]
    pub fn resolve_contacts(
        &mut self,
        id: u64,
        self_x: i64,
        self_y: i64,
        contacts: &Vec<ContactInfo>,
    ) -> (actions: Vec<Action>)
        requires
            old(self).wf(),
            -POSITION_LIMIT <= self_x <= POSITION_LIMIT,
            -POSITION_LIMIT <= self_y <= POSITION_LIMIT,
            forall|k: int|
                0 <= k < contacts@.len() ==> -POSITION_LIMIT <= (#[trigger] contacts@[k]).other_x
                    <= POSITION_LIMIT && -POSITION_LIMIT <= contacts@[k].other_y <= POSITION_LIMIT,
            old(self).coop_hp + 3 * contacts@.len() <= HEALTH_SCALE_LIMIT,
            old(self).greed_hp + 3 * contacts@.len() <= HEALTH_SCALE_LIMIT,
        ensures
            final(self).wf(),
            final(self).next_id == old(self).next_id,
            lookup_agent(old(self).agents@, id) is None ==> final(self).agents@
                == old(self).agents@ && final(self).coop_hp == old(self).coop_hp && final(self).greed_hp == old(self).greed_hp && final(self).events@ == old(self).events@
                && actions@ == Seq::<Action>::empty(),
            lookup_agent(old(self).agents@, id) matches Some(b) ==> ({
                let p = b.personality;
                let t0 = if p == PersonalityType::Cooperative {
                    old(self).coop_hp as int
                } else {
                    old(self).greed_hp as int
                };
                let r = settle(
                    old(self).agents@,
                    id,
                    p,
                    b.healthpoints as int,
                    t0,
                    self_x as int,
                    self_y as int,
                    contacts@,
                );
                &&& actions@ == r.2 + (if r.0 > 0 {
                    seq![Action::SetSize { id, scale: spec_scale_milli(r.0) as i64 }]
                } else {
                    Seq::<Action>::empty()
                })
                &&& r.0 > 0 ==> final(self).agents@ == old(self).agents@.update(
                    index_of_id(old(self).agents@, id),
                    AgentSlot {
                        id,
                        bugster: (Bugsters { healthpoints: r.0 as i64, ..b }),
                    },
                ) && has_agent(final(self).agents@, id)
                &&& r.0 <= 0 ==> final(self).agents@ == old(self).agents@.remove(
                    index_of_id(old(self).agents@, id),
                ) && !has_agent(final(self).agents@, id)
                &&& p == PersonalityType::Cooperative ==> final(self).coop_hp == r.1 && final(self).greed_hp == old(self).greed_hp
                &&& p == PersonalityType::Greedy ==> final(self).greed_hp == r.1 && final(self).coop_hp == old(self).coop_hp
                &&& final(self).events@ == old(self).events@ + r.3
            }),
            forall|other: u64|
                other != id ==> (#[trigger] has_agent(final(self).agents@, other) <==> has_agent(
                    old(self).agents@,
                    other,
                )),
    {
        let idx = match self.find_agent_index(id) {
            Some(i) => i,
            None => {
                return Vec::new();
            },
        };
        let ghost a0 = self.agents@;
        let slot0 = self.agents[idx];
        let mut b = slot0.bugster;
        let ghost b0 = slot0.bugster;
        let ghost p = b0.personality;
        let mut total: i64 = match b.personality {
            PersonalityType::Cooperative => self.coop_hp,
            PersonalityType::Greedy => self.greed_hp,
        };
        let ghost t0 = total as int;
        let ghost full = settle(
            a0,
            id,
            p,
            b0.healthpoints as int,
            t0,
            self_x as int,
            self_y as int,
            contacts@,
        );
        proof {
            lemma_health_sum_member(a0, idx as int, p);
            lemma_health_sum_nonneg(a0, p);
            assert(contacts@.skip(0) =~= contacts@);
            assert(old(self).events@ + Seq::<LedgerEvent>::empty() =~= old(self).events@);
        }
        let mut actions: Vec<Action> = Vec::new();
        let ghost ev = Seq::<LedgerEvent>::empty();
        let mut died = false;
        let n = contacts.len();
        let mut i: usize = 0;
        while i < n && !died
            invariant
                old(self).wf(),
                n == contacts@.len(),
                i <= n,
                -POSITION_LIMIT <= self_x <= POSITION_LIMIT,
                -POSITION_LIMIT <= self_y <= POSITION_LIMIT,
                forall|k: int|
                    0 <= k < contacts@.len() ==> -POSITION_LIMIT
                        <= (#[trigger] contacts@[k]).other_x <= POSITION_LIMIT && -POSITION_LIMIT
                        <= contacts@[k].other_y <= POSITION_LIMIT,
                a0 == old(self).agents@,
                idx < a0.len(),
                a0[idx as int] == (AgentSlot { id, bugster: b0 }),
                b0.personality == p,
                t0 == (if p == PersonalityType::Cooperative {
                    old(self).coop_hp as int
                } else {
                    old(self).greed_hp as int
                }),
                t0 + 3 * contacts@.len() <= HEALTH_SCALE_LIMIT,
                b0.healthpoints <= t0,
                full == settle(
                    a0,
                    id,
                    p,
                    b0.healthpoints as int,
                    t0,
                    self_x as int,
                    self_y as int,
                    contacts@,
                ),
                self.agents@ == a0,
                self.next_id == old(self).next_id,
                self.events@ == old(self).events@ + ev,
                b.wf(),
                b == (Bugsters { healthpoints: b.healthpoints, ..b0 }),
                p == PersonalityType::Cooperative ==> self.coop_hp == total && self.greed_hp
                    == old(self).greed_hp && self.coop_hp == ledger_sum(
                    self.events@,
                    PersonalityType::Cooperative,
                ) && self.greed_hp == ledger_sum(self.events@, PersonalityType::Greedy),
                p == PersonalityType::Greedy ==> self.greed_hp == total && self.coop_hp == old(self).coop_hp && self.coop_hp == ledger_sum(
                    self.events@,
                    PersonalityType::Cooperative,
                ) && self.greed_hp == ledger_sum(self.events@, PersonalityType::Greedy),
                total - t0 == b.healthpoints - b0.healthpoints,
                !died ==> b.healthpoints > 0,
                !died ==> total >= b.healthpoints,
                !died ==> b.healthpoints <= b0.healthpoints + 3 * i,
                !died ==> total <= t0 + 3 * i,
                !died ==> ({
                    let r = settle(
                        a0,
                        id,
                        p,
                        b.healthpoints as int,
                        total as int,
                        self_x as int,
                        self_y as int,
                        contacts@.skip(i as int),
                    );
                    &&& full.0 == r.0
                    &&& full.1 == r.1
                    &&& full.2 == actions@ + r.2
                    &&& full.3 == ev + r.3
                }),
                died ==> full.0 == b.healthpoints && full.1 == total && full.2 == actions@
                    && full.3 == ev && b.healthpoints == 0 && total >= 0,
            decreases n - i,
        {
            let ghost h_pre = b.healthpoints as int;
            let ghost t_pre = total as int;
            let ghost rest_pre = contacts@.skip(i as int);
            proof {
                assert(rest_pre[0] == contacts@[i as int]);
                assert(rest_pre.skip(1) =~= contacts@.skip(i as int + 1));
            }
            let c = contacts[i];
            if c.active {
                match self.find_agent_index(c.other) {
                    Some(oidx) => {
                        let opp_p = self.agents[oidx].bugster.personality;
                        let applied = b.apply_payoff(&opp_p);
                        total = total + applied;
                        match b.personality {
                            PersonalityType::Cooperative => self.change_coop_hp(applied),
                            PersonalityType::Greedy => self.change_greed_hp(applied),
                        }
                        proof {
                            ev = ev.push(
                                LedgerEvent { personality: b.personality, delta: applied },
                            );
                            assert(self.events@ =~= old(self).events@ + ev);
                        }
                        actions.push(
                            Action::NotifyTotal { personality: b.personality, total },
                        );
                        if b.healthpoints <= 0 {
                            actions.push(Action::Deregister { id });
                            died = true;
                            proof {
                                let note = Action::NotifyTotal { personality: p, total: total };
                                let evn = LedgerEvent { personality: p, delta: applied };
                                assert(settle(
                                    a0,
                                    id,
                                    p,
                                    h_pre,
                                    t_pre,
                                    self_x as int,
                                    self_y as int,
                                    rest_pre,
                                ) == (
                                    b.healthpoints as int,
                                    total as int,
                                    seq![note, Action::Deregister { id }],
                                    seq![evn],
                                ));
                                assert(actions@ =~= full.2);
                                assert(ev =~= full.3);
                            }
                        } else {
                            let dx = c.other_x - self_x;
                            let dy = c.other_y - self_y;
                            actions.push(
                                Action::ApplyImpulse { id, x: BOUNCE_FORCE * dx, y: BOUNCE_FORCE * dy },
                            );
                            proof {
                                let note = Action::NotifyTotal { personality: p, total: total };
                                let evn = LedgerEvent { personality: p, delta: applied };
                                let imp = Action::ApplyImpulse {
                                    id,
                                    x: (BOUNCE_FORCE * dx) as i64,
                                    y: (BOUNCE_FORCE * dy) as i64,
                                };
                                let r2 = settle(
                                    a0,
                                    id,
                                    p,
                                    b.healthpoints as int,
                                    total as int,
                                    self_x as int,
                                    self_y as int,
                                    contacts@.skip(i as int + 1),
                                );
                                assert(settle(
                                    a0,
                                    id,
                                    p,
                                    h_pre,
                                    t_pre,
                                    self_x as int,
                                    self_y as int,
                                    rest_pre,
                                ) == (r2.0, r2.1, seq![note, imp] + r2.2, seq![evn] + r2.3));
                                assert(full.2 =~= actions@ + r2.2);
                                assert(full.3 =~= ev + r2.3);
                            }
                        }
                    },
                    None => {},
                }
            }
            i = i + 1;
        }
        if died {
            let ghost pre = self.agents@;
            proof {
                lemma_health_sum_remove(pre, idx as int, PersonalityType::Cooperative);
                lemma_health_sum_remove(pre, idx as int, PersonalityType::Greedy);
                lemma_health_sum_nonneg(pre.remove(idx as int), PersonalityType::Cooperative);
                lemma_health_sum_nonneg(pre.remove(idx as int), PersonalityType::Greedy);
            }
            self.agents.remove(idx);
            proof {
                assert(forall|j: int|
                    0 <= j < self.agents@.len() ==> #[trigger] self.agents@[j] == (if j < idx {
                        pre[j]
                    } else {
                        pre[j + 1]
                    }));
                lemma_has_agent_exists(self.agents@, id);
                assert forall|other: u64|
                    other != id implies (#[trigger] has_agent(self.agents@, other) <==> has_agent(
                    a0,
                    other,
                )) by {
                    lemma_has_agent_exists(a0, other);
                    lemma_has_agent_exists(self.agents@, other);
                    if exists|k: int| 0 <= k < a0.len() && (#[trigger] a0[k]).id == other {
                        let k = choose|k: int| 0 <= k < a0.len() && (#[trigger] a0[k]).id == other;
                        if k < idx {
                            assert(self.agents@[k].id == other);
                        } else if k > idx {
                            assert(self.agents@[k - 1].id == other);
                        }
                    }
                }
            }
            actions
        } else {
            proof {
                assert(contacts@.skip(n as int) =~= Seq::<ContactInfo>::empty());
                lemma_health_sum_update(
                    a0,
                    idx as int,
                    AgentSlot { id, bugster: b },
                    PersonalityType::Cooperative,
                );
                lemma_health_sum_update(
                    a0,
                    idx as int,
                    AgentSlot { id, bugster: b },
                    PersonalityType::Greedy,
                );
            }
            let ghost pre = self.agents@;
            self.agents[idx] = AgentSlot { id, bugster: b };
            let scale = b.change_size();
            actions.push(Action::SetSize { id, scale });
            proof {
                assert(actions@ =~= full.2 + seq![
                    Action::SetSize { id, scale: spec_scale_milli(full.0) as i64 },
                ]);
                lemma_has_agent_exists(self.agents@, id);
                assert(self.agents@[idx as int].id == id);
                assert forall|other: u64|
                    other != id implies (#[trigger] has_agent(self.agents@, other) <==> has_agent(
                    a0,
                    other,
                )) by {
                    lemma_has_agent_exists(a0, other);
                    lemma_has_agent_exists(self.agents@, other);
                    if exists|k: int| 0 <= k < a0.len() && (#[trigger] a0[k]).id == other {
                        let k = choose|k: int| 0 <= k < a0.len() && (#[trigger] a0[k]).id == other;
                        assert(self.agents@[k].id == other);
                    }
                    if exists|k: int| 0 <= k < self.agents@.len() && (#[trigger] self.agents@[k]).id
                        == other {
                        let k = choose|k: int|
                            0 <= k < self.agents@.len() && (#[trigger] self.agents@[k]).id == other;
                        assert(a0[k].id == other);
                    }
                }
            }
            actions
        }
    }
}

} // verus!

