//! Tier rules and membership reconciliation.
//!
//! `resolve` maps a progression record to the badges it qualifies for, track
//! by track. `reconcile` sets those against the badges a member holds and
//! yields the list that replaces the member's badges, with the names of the
//! badges that are new to the member.

use crate::constants::{
    BETA_TESTER, FINDER_OF_SEMBLANCE_SECRETS, MAX_PRESTIGE, PALEONTOLOGIST,
    PALEONTOLOGIST_LEGEND, PALEONTOLOGIST_LEGEND_PRESTIGE, PALEONTOLOGIST_RANK,
    PROGRESSIVE_PALEONTOLOGIST, PROGRESSIVE_PALEONTOLOGIST_PRESTIGE, RANKS_PER_PRESTIGE,
    REALITY_EXPERT, REALITY_EXPERT_METABITS, REALITY_EXPLORER, REALITY_EXPLORER_METABITS,
    REALITY_LEGEND, REALITY_LEGEND_METABITS, SHARK_COLLECTOR, SIMULATION_SPEEDSTER,
    SIMULATION_SPEEDSTER_SECONDS, SONIC_SPEEDSTER_OF_SIMULATIONS, SONIC_SPEEDSTER_SECONDS,
};
use crate::models::UserData;
use crate::double::Double;
use vstd::prelude::*;

verus! {

/// An independent axis of progression.
#[derive(Clone, Copy, Debug, PartialEq, Eq, Structural)]
pub enum Track {
    MetabitWealth,
    Paleontology,
    SimulationMastery,
    BetaTester,
    /// Badges that are carried over as they are, never computed.
    Persistent,
}

/// A badge that the tier rules can grant.
#[derive(Clone, Copy, Debug, PartialEq, Eq, Structural)]
pub enum Badge {
    RealityExplorer,
    RealityExpert,
    RealityLegend,
    Paleontologist,
    ProgressivePaleontologist,
    PaleontologistLegend,
    FinderOfSemblanceSecrets,
    SonicSpeedsterOfSimulations,
    SimulationSpeedster,
    SharkCollector,
    BetaTester,
}

impl Badge {
    /// The identifier under which the membership service knows the badge.
    pub open spec fn spec_id(self) -> u64 {
        match self {
            Badge::RealityExplorer => REALITY_EXPLORER,
            Badge::RealityExpert => REALITY_EXPERT,
            Badge::RealityLegend => REALITY_LEGEND,
            Badge::Paleontologist => PALEONTOLOGIST,
            Badge::ProgressivePaleontologist => PROGRESSIVE_PALEONTOLOGIST,
            Badge::PaleontologistLegend => PALEONTOLOGIST_LEGEND,
            Badge::FinderOfSemblanceSecrets => FINDER_OF_SEMBLANCE_SECRETS,
            Badge::SonicSpeedsterOfSimulations => SONIC_SPEEDSTER_OF_SIMULATIONS,
            Badge::SimulationSpeedster => SIMULATION_SPEEDSTER,
            Badge::SharkCollector => SHARK_COLLECTOR,
            Badge::BetaTester => BETA_TESTER,
        }
    }

    /// The name shown to people.
    pub open spec fn spec_name(self) -> Seq<char> {
        match self {
            Badge::RealityExplorer => "Reality Explorer"@,
            Badge::RealityExpert => "Reality Expert"@,
            Badge::RealityLegend => "Reality Legend"@,
            Badge::Paleontologist => "Paleontologist"@,
            Badge::ProgressivePaleontologist => "Progressive Paleontologist"@,
            Badge::PaleontologistLegend => "Paleontologist Legend"@,
            Badge::FinderOfSemblanceSecrets => "Finder of Semblance's Secrets"@,
            Badge::SonicSpeedsterOfSimulations => "Sonic Speedster of Simulations"@,
            Badge::SimulationSpeedster => "Simulation Speedster"@,
            Badge::SharkCollector => "Shark Collector"@,
            Badge::BetaTester => "Beta Tester"@,
        }
    }

    /// The track that grants the badge.
    pub open spec fn spec_track(self) -> Track {
        match self {
            Badge::RealityExplorer | Badge::RealityExpert | Badge::RealityLegend => {
                Track::MetabitWealth
            },
            Badge::Paleontologist
            | Badge::ProgressivePaleontologist
            | Badge::PaleontologistLegend => Track::Paleontology,
            Badge::FinderOfSemblanceSecrets
            | Badge::SonicSpeedsterOfSimulations
            | Badge::SimulationSpeedster
            | Badge::SharkCollector => Track::SimulationMastery,
            Badge::BetaTester => Track::BetaTester,
        }
    }

    #[verifier::when_used_as_spec(spec_id)]
    pub fn id(self) -> (id: u64)
        ensures
            id == self.spec_id(),
    {
        match self {
            Badge::RealityExplorer => REALITY_EXPLORER,
            Badge::RealityExpert => REALITY_EXPERT,
            Badge::RealityLegend => REALITY_LEGEND,
            Badge::Paleontologist => PALEONTOLOGIST,
            Badge::ProgressivePaleontologist => PROGRESSIVE_PALEONTOLOGIST,
            Badge::PaleontologistLegend => PALEONTOLOGIST_LEGEND,
            Badge::FinderOfSemblanceSecrets => FINDER_OF_SEMBLANCE_SECRETS,
            Badge::SonicSpeedsterOfSimulations => SONIC_SPEEDSTER_OF_SIMULATIONS,
            Badge::SimulationSpeedster => SIMULATION_SPEEDSTER,
            Badge::SharkCollector => SHARK_COLLECTOR,
            Badge::BetaTester => BETA_TESTER,
        }
    }

    pub fn name(self) -> (name: &'static str)
        ensures
            name@ == self.spec_name(),
    {
        match self {
            Badge::RealityExplorer => "Reality Explorer",
            Badge::RealityExpert => "Reality Expert",
            Badge::RealityLegend => "Reality Legend",
            Badge::Paleontologist => "Paleontologist",
            Badge::ProgressivePaleontologist => "Progressive Paleontologist",
            Badge::PaleontologistLegend => "Paleontologist Legend",
            Badge::FinderOfSemblanceSecrets => "Finder of Semblance's Secrets",
            Badge::SonicSpeedsterOfSimulations => "Sonic Speedster of Simulations",
            Badge::SimulationSpeedster => "Simulation Speedster",
            Badge::SharkCollector => "Shark Collector",
            Badge::BetaTester => "Beta Tester",
        }
    }

    #[verifier::when_used_as_spec(spec_track)]
    pub fn track(self) -> (track: Track)
        ensures
            track == self.spec_track(),
    {
        match self {
            Badge::RealityExplorer | Badge::RealityExpert | Badge::RealityLegend => {
                Track::MetabitWealth
            },
            Badge::Paleontologist
            | Badge::ProgressivePaleontologist
            | Badge::PaleontologistLegend => Track::Paleontology,
            Badge::FinderOfSemblanceSecrets
            | Badge::SonicSpeedsterOfSimulations
            | Badge::SimulationSpeedster
            | Badge::SharkCollector => Track::SimulationMastery,
            Badge::BetaTester => Track::BetaTester,
        }
    }
}

/// The metabits at which a wealth badge is reached; no threshold for the
/// badges of other tracks.
pub open spec fn metabit_threshold(badge: Badge) -> Option<int> {
    match badge {
        Badge::RealityExplorer => Some(REALITY_EXPLORER_METABITS as int),
        Badge::RealityExpert => Some(REALITY_EXPERT_METABITS as int),
        Badge::RealityLegend => Some(REALITY_LEGEND_METABITS as int),
        _ => None,
    }
}

/// The wealth badge of `metabits`: that of the highest tier reached.
pub open spec fn metabit_badges(metabits: int) -> Seq<Badge> {
    if metabits >= REALITY_LEGEND_METABITS {
        seq![Badge::RealityLegend]
    } else if metabits >= REALITY_EXPERT_METABITS {
        seq![Badge::RealityExpert]
    } else if metabits >= REALITY_EXPLORER_METABITS {
        seq![Badge::RealityExplorer]
    } else {
        Seq::empty()
    }
}

/// Completed prestiges of a dinosaur rank: a prestige every 50 ranks, never
/// below 0 nor above 10.
pub open spec fn prestige_tier(dino_rank: int) -> int {
    let prestiges = dino_rank / (RANKS_PER_PRESTIGE as int);
    if prestiges < 0 {
        0
    } else if prestiges > MAX_PRESTIGE {
        MAX_PRESTIGE as int
    } else {
        prestiges
    }
}

/// The paleontology badge of a dinosaur rank.
pub open spec fn paleo_badges(dino_rank: int) -> Seq<Badge> {
    if prestige_tier(dino_rank) == PALEONTOLOGIST_LEGEND_PRESTIGE {
        seq![Badge::PaleontologistLegend]
    } else if prestige_tier(dino_rank) == PROGRESSIVE_PALEONTOLOGIST_PRESTIGE {
        seq![Badge::ProgressivePaleontologist]
    } else if dino_rank >= PALEONTOLOGIST_RANK {
        seq![Badge::Paleontologist]
    } else {
        Seq::empty()
    }
}

/// The speed badge of a speedrun time. No attempt earns none.
pub open spec fn speed_badges(time: Option<Double>) -> Seq<Badge> {
    match time {
        Some(time) => if time.spec_at_most(SONIC_SPEEDSTER_SECONDS as nat) {
            seq![Badge::SonicSpeedsterOfSimulations]
        } else if time.spec_at_most(SIMULATION_SPEEDSTER_SECONDS as nat) {
            seq![Badge::SimulationSpeedster]
        } else {
            Seq::empty()
        },
        None => Seq::empty(),
    }
}

/// The shark badge of a complete shark collection.
pub open spec fn shark_badges(all_sharks: bool) -> Seq<Badge> {
    if all_sharks {
        seq![Badge::SharkCollector]
    } else {
        Seq::empty()
    }
}

/// The simulation badges: the secrets badge alone once every hidden
/// achievement is obtained, else the speed badge and the shark badge.
pub open spec fn simulation_badges(
    all_hidden: bool,
    time: Option<Double>,
    all_sharks: bool,
) -> Seq<Badge> {
    if all_hidden {
        seq![Badge::FinderOfSemblanceSecrets]
    } else {
        speed_badges(time) + shark_badges(all_sharks)
    }
}

/// The beta badge of a beta tester.
pub open spec fn beta_badges(beta_tester: bool) -> Seq<Badge> {
    if beta_tester {
        seq![Badge::BetaTester]
    } else {
        Seq::empty()
    }
}

/// Every badge that a record qualifies for, in the order in which the tracks
/// are evaluated: wealth, paleontology, simulation mastery, beta.
pub open spec fn computed_badges(record: UserData) -> Seq<Badge> {
    metabit_badges(record.metabits as int) + paleo_badges(record.dino_rank as int)
        + simulation_badges(
        record.all_hidden_achievements_obtained,
        record.singularity_speedrun_time,
        record.all_sharks_obtained,
    ) + beta_badges(record.beta_tester)
}

/// What the tier rules give for a record: the badges of each track. Nothing
/// is computed for the persistent track.
pub open spec fn resolution(record: UserData) -> Map<Track, Seq<Badge>> {
    Map::new(
        |track: Track| true,
        |track: Track|
            match track {
                Track::MetabitWealth => metabit_badges(record.metabits as int),
                Track::Paleontology => paleo_badges(record.dino_rank as int),
                Track::SimulationMastery => simulation_badges(
                    record.all_hidden_achievements_obtained,
                    record.singularity_speedrun_time,
                    record.all_sharks_obtained,
                ),
                Track::BetaTester => beta_badges(record.beta_tester),
                Track::Persistent => Seq::empty(),
            },
    )
}

/// The badges a record qualifies for, one list per track.
#[derive(Clone, Debug)]
pub struct ResolvedBadges {
    pub metabit_wealth: Vec<Badge>,
    pub paleontology: Vec<Badge>,
    pub simulation_mastery: Vec<Badge>,
    pub beta_tester: Vec<Badge>,
}

impl View for ResolvedBadges {
    type V = Map<Track, Seq<Badge>>;

    /// The badges of each track.
    open spec fn view(&self) -> Map<Track, Seq<Badge>> {
        Map::new(|track: Track| true, |track: Track| self.on_track(track))
    }
}

impl ResolvedBadges {
    /// The badges of one track. Nothing is computed for the persistent track.
    pub open spec fn on_track(self, track: Track) -> Seq<Badge> {
        match track {
            Track::MetabitWealth => self.metabit_wealth@,
            Track::Paleontology => self.paleontology@,
            Track::SimulationMastery => self.simulation_mastery@,
            Track::BetaTester => self.beta_tester@,
            Track::Persistent => Seq::empty(),
        }
    }

    /// All badges in the order in which the tracks are evaluated.
    pub open spec fn computed(self) -> Seq<Badge> {
        self.metabit_wealth@ + self.paleontology@ + self.simulation_mastery@ + self.beta_tester@
    }

    /// All badges as one list, in the order in which the tracks are
    /// evaluated.
    pub fn all(&self) -> (badges: Vec<Badge>)
        ensures
            badges@ == self.computed(),
    {
        let mut badges: Vec<Badge> = Vec::new();
        append_badges(&mut badges, &self.metabit_wealth);
        append_badges(&mut badges, &self.paleontology);
        append_badges(&mut badges, &self.simulation_mastery);
        append_badges(&mut badges, &self.beta_tester);
        badges
    }
}

fn append_badges(badges: &mut Vec<Badge>, more: &Vec<Badge>)
    ensures
        final(badges)@ == old(badges)@ + more@,
{
    let mut next: usize = 0;
    while next < more.len()
        invariant
            next <= more.len(),
            badges@ == old(badges)@ + more@.take(next as int),
        decreases more.len() - next,
    {
        badges.push(more[next]);
        next = next + 1;
    }
}

/// The badges that a record qualifies for by its metabits.
pub fn handle_metabit_roles(user_data: &UserData) -> (badges: Vec<Badge>)
    ensures
        badges@ == metabit_badges(user_data.metabits as int),
        badges@.len() <= 1,
{
    let mut badges: Vec<Badge> = Vec::new();
    if user_data.metabits >= REALITY_LEGEND_METABITS {
        badges.push(Badge::RealityLegend);
    } else if user_data.metabits >= REALITY_EXPERT_METABITS {
        badges.push(Badge::RealityExpert);
    } else if user_data.metabits >= REALITY_EXPLORER_METABITS {
        badges.push(Badge::RealityExplorer);
    }
    badges
}

/// The completed prestiges of a dinosaur rank.
pub fn dino_prestige(dino_rank: i32) -> (prestige: i32)
    ensures
        prestige == prestige_tier(dino_rank as int),
        0 <= prestige <= MAX_PRESTIGE,
{
    if dino_rank < 0 {
        0
    } else if dino_rank / RANKS_PER_PRESTIGE > MAX_PRESTIGE {
        MAX_PRESTIGE
    } else {
        dino_rank / RANKS_PER_PRESTIGE
    }
}

/// The badges that a record qualifies for by its dinosaur rank.
pub fn handle_paleo_roles(user_data: &UserData) -> (badges: Vec<Badge>)
    ensures
        badges@ == paleo_badges(user_data.dino_rank as int),
        badges@.len() <= 1,
{
    let mut badges: Vec<Badge> = Vec::new();
    let prestige: i32 = dino_prestige(user_data.dino_rank);
    if prestige == PALEONTOLOGIST_LEGEND_PRESTIGE {
        badges.push(Badge::PaleontologistLegend);
    } else if prestige == PROGRESSIVE_PALEONTOLOGIST_PRESTIGE {
        badges.push(Badge::ProgressivePaleontologist);
    } else if user_data.dino_rank >= PALEONTOLOGIST_RANK {
        badges.push(Badge::Paleontologist);
    }
    badges
}

/// The badges that a record qualifies for by its simulation feats.
pub fn handle_simulation_roles(user_data: &UserData) -> (badges: Vec<Badge>)
    ensures
        badges@ == simulation_badges(
            user_data.all_hidden_achievements_obtained,
            user_data.singularity_speedrun_time,
            user_data.all_sharks_obtained,
        ),
        badges@.len() <= 2,
        user_data.all_hidden_achievements_obtained ==> badges@ == seq![
            Badge::FinderOfSemblanceSecrets,
        ],
{
    let mut badges: Vec<Badge> = Vec::new();
    if user_data.all_hidden_achievements_obtained {
        badges.push(Badge::FinderOfSemblanceSecrets);
    } else {
        match user_data.singularity_speedrun_time {
            Some(time) => {
                if time.at_most(SONIC_SPEEDSTER_SECONDS) {
                    badges.push(Badge::SonicSpeedsterOfSimulations);
                } else if time.at_most(SIMULATION_SPEEDSTER_SECONDS) {
                    badges.push(Badge::SimulationSpeedster);
                }
            },
            None => {},
        }
        assert(badges@ == speed_badges(user_data.singularity_speedrun_time));
        if user_data.all_sharks_obtained {
            badges.push(Badge::SharkCollector);
        }
    }
    badges
}

/// The badge that a record qualifies for as a beta tester.
pub fn handle_beta_roles(user_data: &UserData) -> (badges: Vec<Badge>)
    ensures
        badges@ == beta_badges(user_data.beta_tester),
        badges@.len() <= 1,
{
    let mut badges: Vec<Badge> = Vec::new();
    if user_data.beta_tester {
        badges.push(Badge::BetaTester);
    }
    badges
}

/// The badges that `record` qualifies for. Every record resolves; a record
/// that reaches no tier resolves to empty lists.
pub fn resolve(record: &UserData) -> (resolved: ResolvedBadges)
    ensures
        resolved@ == resolution(*record),
        resolved.computed() == computed_badges(*record),
        resolved.on_track(Track::MetabitWealth).len() <= 1,
        resolved.on_track(Track::Paleontology).len() <= 1,
        resolved.on_track(Track::SimulationMastery).len() <= 2,
        record.all_hidden_achievements_obtained ==> resolved.on_track(Track::SimulationMastery)
            == seq![Badge::FinderOfSemblanceSecrets],
        resolved.on_track(Track::BetaTester).len() <= 1,
{
    ResolvedBadges {
        metabit_wealth: handle_metabit_roles(record),
        paleontology: handle_paleo_roles(record),
        simulation_mastery: handle_simulation_roles(record),
        beta_tester: handle_beta_roles(record),
    }
}

/// What a reconciliation decides: the list that replaces the member's badges
/// and the names of the badges that are new to the member.
#[derive(Clone, Debug)]
pub struct ReconciliationResult {
    pub target_badges: Vec<u64>,
    pub newly_gained: Vec<&'static str>,
}

impl ReconciliationResult {
    /// The names of the newly gained badges as texts.
    pub open spec fn gained_names(self) -> Seq<Seq<char>> {
        names_of(self.newly_gained@)
    }
}

/// The texts of a list of names.
pub open spec fn names_of(names: Seq<&'static str>) -> Seq<Seq<char>> {
    names.map_values(|name: &'static str| name@)
}

/// The identifiers of a list of badges.
pub open spec fn badge_ids(badges: Seq<Badge>) -> Seq<u64> {
    badges.map_values(|badge: Badge| badge.spec_id())
}

/// The names of a list of badges.
pub open spec fn badge_names(badges: Seq<Badge>) -> Seq<Seq<char>> {
    badges.map_values(|badge: Badge| badge.spec_name())
}

/// The persistent badges that the member holds, in the order of the
/// persistent list. The identifier zero names no badge and is never carried.
pub open spec fn carried(current: Seq<u64>, persistent: Seq<u64>) -> Seq<u64> {
    persistent.filter(|id: u64| id != 0 && current.contains(id))
}

/// The computed badges that the member does not hold yet, in the order in
/// which they were computed.
pub open spec fn gained(current: Seq<u64>, computed: Seq<Badge>) -> Seq<Badge> {
    computed.filter(|badge: Badge| !current.contains(badge.spec_id()))
}

/// The list that replaces the member's badges: what is carried over, then
/// what was computed.
pub open spec fn target(current: Seq<u64>, computed: Seq<Badge>, persistent: Seq<u64>) -> Seq<
    u64,
> {
    carried(current, persistent) + badge_ids(computed)
}

/// The set of badges that replaces the member's: the persistent badges
/// among those the member holds, and the computed badges. The identifier
/// zero names no badge.
pub open spec fn target_set(current: Set<u64>, computed: Set<u64>, persistent: Set<u64>) -> Set<
    u64,
> {
    current.intersect(persistent).remove(0).union(computed)
}

/// Whether `id` is among `roles`.
pub fn holds_role(roles: &Vec<u64>, id: u64) -> (held: bool)
    ensures
        held == roles@.contains(id),
{
    let mut next: usize = 0;
    while next < roles.len()
        invariant
            next <= roles.len(),
            !roles@.take(next as int).contains(id),
        decreases roles.len() - next,
    {
        if roles[next] == id {
            return true;
        }
        assert(roles@.take(next + 1) == roles@.take(next as int).push(roles@[next as int]));
        next = next + 1;
    }
    assert(roles@.take(next as int) == roles@);
    false
}

/// Notes `badge` as gained unless the member holds it, and gives the
/// badge's identifier.
pub fn apply_a_role(
    gained_roles: &mut Vec<&'static str>,
    member_roles: &Vec<u64>,
    badge: Badge,
) -> (id: u64)
    ensures
        id == badge.spec_id(),
        names_of(final(gained_roles)@) == if member_roles@.contains(badge.spec_id()) {
            names_of(old(gained_roles)@)
        } else {
            names_of(old(gained_roles)@).push(badge.spec_name())
        },
{
    let id: u64 = badge.id();
    if !holds_role(member_roles, id) {
        gained_roles.push(badge.name());
        assert(names_of(gained_roles@) == names_of(old(gained_roles)@).push(badge.spec_name()));
    }
    id
}

/// One more element is filtered by deciding on it alone.
proof fn lemma_filter_step<A>(items: Seq<A>, keep: spec_fn(A) -> bool, next: int)
    requires
        0 <= next < items.len(),
    ensures
        items.take(next + 1).filter(keep) == if keep(items[next]) {
            items.take(next).filter(keep).push(items[next])
        } else {
            items.take(next).filter(keep)
        },
{
    reveal(Seq::filter);
    assert(items.take(next + 1).drop_last() == items.take(next));
}

/// Sets the computed badges against the badges the member holds.
///
/// The member keeps the persistent badges they hold, gets every computed
/// badge, and loses everything else. A computed badge that the member did
/// not hold is reported by name, in the order in which the tracks are
/// evaluated.
pub fn reconcile(current: &Vec<u64>, resolved: &ResolvedBadges, persistent: &Vec<u64>) -> (result:
    ReconciliationResult)
    ensures
        result.target_badges@ == target(current@, resolved.computed(), persistent@),
        result.target_badges@.to_set() == target_set(
            current@.to_set(),
            badge_ids(resolved.computed()).to_set(),
            persistent@.to_set(),
        ),
        !result.target_badges@.contains(0),
        result.gained_names() == badge_names(gained(current@, resolved.computed())),
{
    proof {
        lemma_target_is_carried_and_computed(current@, resolved.computed(), persistent@);
        lemma_target_names_badges(current@, resolved.computed(), persistent@);
    }
    let mut target_badges: Vec<u64> = Vec::new();
    let mut newly_gained: Vec<&'static str> = Vec::new();
    let mut next: usize = 0;
    proof {
        reveal(Seq::filter);
    }
    while next < persistent.len()
        invariant
            next <= persistent.len(),
            target_badges@ == carried(current@, persistent@.take(next as int)),
        decreases persistent.len() - next,
    {
        proof {
            lemma_filter_step(
                persistent@,
                |id: u64| id != 0 && current@.contains(id),
                next as int,
            );
        }
        if persistent[next] != 0 && holds_role(current, persistent[next]) {
            target_badges.push(persistent[next]);
        }
        next = next + 1;
    }
    assert(persistent@.take(next as int) == persistent@);
    let computed: Vec<Badge> = resolved.all();
    let mut done: usize = 0;
    assert(names_of(newly_gained@) == Seq::<Seq<char>>::empty());
    while done < computed.len()
        invariant
            done <= computed.len(),
            target_badges@ == carried(current@, persistent@) + badge_ids(
                computed@.take(done as int),
            ),
            names_of(newly_gained@) == badge_names(gained(current@, computed@.take(done as int))),
        decreases computed.len() - done,
    {
        proof {
            lemma_filter_step(
                computed@,
                |badge: Badge| !current@.contains(badge.spec_id()),
                done as int,
            );
            assert(computed@.take(done + 1) == computed@.take(done as int).push(
                computed@[done as int],
            ));
        }
        let id: u64 = apply_a_role(&mut newly_gained, current, computed[done]);
        target_badges.push(id);
        done = done + 1;
    }
    assert(computed@.take(done as int) == computed@);
    ReconciliationResult { target_badges, newly_gained }
}

/// Resolves the badges of `user_data` and reconciles them with the badges
/// the member holds.
pub fn handle_roles(user_data: &UserData, member_roles: &Vec<u64>, persistent: &Vec<u64>) -> (result:
    ReconciliationResult)
    ensures
        result.target_badges@ == target(member_roles@, computed_badges(*user_data), persistent@),
        result.target_badges@.to_set() == target_set(
            member_roles@.to_set(),
            badge_ids(computed_badges(*user_data)).to_set(),
            persistent@.to_set(),
        ),
        !result.target_badges@.contains(0),
        result.gained_names() == badge_names(gained(member_roles@, computed_badges(*user_data))),
{
    let resolved: ResolvedBadges = resolve(user_data);
    reconcile(member_roles, &resolved, persistent)
}

/// Each track but simulation mastery grants at most one badge, simulation
/// mastery at most two, and complete hidden achievements grant the secrets
/// badge alone, whatever the speedrun time and the shark collection are.
pub proof fn lemma_tracks_are_exclusive(record: UserData)
    ensures
        metabit_badges(record.metabits as int).len() <= 1,
        paleo_badges(record.dino_rank as int).len() <= 1,
        beta_badges(record.beta_tester).len() <= 1,
        simulation_badges(
            record.all_hidden_achievements_obtained,
            record.singularity_speedrun_time,
            record.all_sharks_obtained,
        ).len() <= 2,
        record.all_hidden_achievements_obtained ==> simulation_badges(
            record.all_hidden_achievements_obtained,
            record.singularity_speedrun_time,
            record.all_sharks_obtained,
        ) == seq![Badge::FinderOfSemblanceSecrets],
{
}

/// Every badge stays on its own track: what a track resolves to is granted
/// by that track.
pub proof fn lemma_badges_stay_on_track(record: UserData, position: int)
    ensures
        0 <= position < metabit_badges(record.metabits as int).len() ==> metabit_badges(
            record.metabits as int,
        )[position].spec_track() == Track::MetabitWealth,
        0 <= position < paleo_badges(record.dino_rank as int).len() ==> paleo_badges(
            record.dino_rank as int,
        )[position].spec_track() == Track::Paleontology,
        0 <= position < simulation_badges(
            record.all_hidden_achievements_obtained,
            record.singularity_speedrun_time,
            record.all_sharks_obtained,
        ).len() ==> simulation_badges(
            record.all_hidden_achievements_obtained,
            record.singularity_speedrun_time,
            record.all_sharks_obtained,
        )[position].spec_track() == Track::SimulationMastery,
        0 <= position < beta_badges(record.beta_tester).len() ==> beta_badges(
            record.beta_tester,
        )[position].spec_track() == Track::BetaTester,
{
}

/// Metabits that equal a tier's threshold reach that tier.
pub proof fn lemma_threshold_is_inclusive(badge: Badge)
    requires
        metabit_threshold(badge) is Some,
    ensures
        metabit_badges(metabit_threshold(badge)->0) == seq![badge],
{
}

/// The wealth badge is that of the highest tier whose threshold the
/// metabits reach, and there is one whenever a threshold is reached.
pub proof fn lemma_highest_tier_wins(metabits: int, badge: Badge)
    requires
        metabit_threshold(badge) is Some,
    ensures
        metabit_badges(metabits).len() == 1 ==> metabit_threshold(metabit_badges(metabits)[0])
            is Some && metabit_threshold(metabit_badges(metabits)[0])->0 <= metabits,
        metabit_threshold(badge)->0 <= metabits ==> metabit_badges(metabits).len() == 1
            && metabit_threshold(metabit_badges(metabits)[0])->0 >= metabit_threshold(badge)->0,
        metabit_badges(metabits).len() == 0 ==> metabits < metabit_threshold(badge)->0,
{
}

/// Ten completed prestiges and more all count as the tenth: a dinosaur rank
/// of 500 or above is a legend's.
pub proof fn lemma_prestige_is_clamped(dino_rank: int)
    ensures
        0 <= prestige_tier(dino_rank) <= MAX_PRESTIGE,
        dino_rank >= RANKS_PER_PRESTIGE * MAX_PRESTIGE ==> prestige_tier(dino_rank)
            == MAX_PRESTIGE && paleo_badges(dino_rank) == seq![Badge::PaleontologistLegend],
        dino_rank < RANKS_PER_PRESTIGE * MAX_PRESTIGE ==> paleo_badges(dino_rank) != seq![
            Badge::PaleontologistLegend,
        ],
{
    if dino_rank < RANKS_PER_PRESTIGE * MAX_PRESTIGE {
        assert(paleo_badges(dino_rank).len() == 1 ==> paleo_badges(dino_rank)[0]
            != Badge::PaleontologistLegend);
        assert(seq![Badge::PaleontologistLegend][0] == Badge::PaleontologistLegend);
    }
}

/// No two badges share an identifier, and no identifier is zero.
pub proof fn lemma_badge_ids_are_distinct(first: Badge, second: Badge)
    ensures
        first.spec_id() != 0,
        first.spec_id() == second.spec_id() ==> first == second,
{
}

/// An element is among the filtered ones exactly if it is among the
/// elements and is kept.
proof fn lemma_filter_membership<A>(items: Seq<A>, keep: spec_fn(A) -> bool, item: A)
    ensures
        items.filter(keep).contains(item) <==> items.contains(item) && keep(item),
    decreases items.len(),
{
    reveal(Seq::filter);
    if items.len() > 0 {
        let front = items.drop_last();
        lemma_filter_membership(front, keep, item);
        if items.contains(item) {
            let at = choose|at: int| 0 <= at < items.len() && items[at] == item;
            if at < items.len() - 1 {
                assert(front[at] == item);
            }
        }
        if front.contains(item) {
            let at = choose|at: int| 0 <= at < front.len() && front[at] == item;
            assert(items[at] == item);
        }
        if keep(items.last()) {
            let kept = front.filter(keep);
            assert(kept.push(items.last()).last() == items.last());
            if kept.push(items.last()).contains(item) {
                let at = choose|at: int|
                    0 <= at < kept.push(items.last()).len() && kept.push(items.last())[at] == item;
                if at < kept.len() {
                    assert(kept[at] == item);
                }
            }
            if kept.contains(item) {
                let at = choose|at: int| 0 <= at < kept.len() && kept[at] == item;
                assert(kept.push(items.last())[at] == item);
            }
            assert(items[items.len() - 1] == items.last());
        }
    }
}

/// An element is in a concatenation exactly if it is in one of the parts.
proof fn lemma_concat_membership<A>(left: Seq<A>, right: Seq<A>, item: A)
    ensures
        (left + right).contains(item) <==> left.contains(item) || right.contains(item),
{
    let both = left + right;
    if both.contains(item) {
        let at = choose|at: int| 0 <= at < both.len() && both[at] == item;
        if at < left.len() {
            assert(left[at] == item);
        } else {
            assert(right[at - left.len()] == item);
        }
    }
    if left.contains(item) {
        let at = choose|at: int| 0 <= at < left.len() && left[at] == item;
        assert(both[at] == item);
    }
    if right.contains(item) {
        let at = choose|at: int| 0 <= at < right.len() && right[at] == item;
        assert(both[at + left.len()] == item);
    }
}

/// The member's new badges are the persistent badges they held and the
/// computed badges, and nothing else: a badge that is neither is dropped,
/// even though the member held it.
pub proof fn lemma_target_membership(
    current: Seq<u64>,
    computed: Seq<Badge>,
    persistent: Seq<u64>,
    id: u64,
)
    ensures
        target(current, computed, persistent).contains(id) <==> (id != 0 && persistent.contains(
            id,
        ) && current.contains(id)) || badge_ids(computed).contains(id),
{
    lemma_filter_membership(persistent, |id: u64| id != 0 && current.contains(id), id);
    lemma_concat_membership(carried(current, persistent), badge_ids(computed), id);
}

/// The list that replaces the member's badges names badges only: the
/// identifier zero is not in it.
pub proof fn lemma_target_names_badges(
    current: Seq<u64>,
    computed: Seq<Badge>,
    persistent: Seq<u64>,
)
    ensures
        !target(current, computed, persistent).contains(0),
{
    lemma_target_membership(current, computed, persistent, 0);
    if badge_ids(computed).contains(0) {
        let at = choose|at: int| 0 <= at < computed.len() && badge_ids(computed)[at] == 0;
        lemma_badge_ids_are_distinct(computed[at], computed[at]);
    }
}

/// As a set, the list that replaces the member's badges is what the member
/// held of the persistent badges, together with the computed badges.
pub proof fn lemma_target_is_carried_and_computed(
    current: Seq<u64>,
    computed: Seq<Badge>,
    persistent: Seq<u64>,
)
    ensures
        target(current, computed, persistent).to_set() == target_set(
            current.to_set(),
            badge_ids(computed).to_set(),
            persistent.to_set(),
        ),
{
    let listed = target(current, computed, persistent).to_set();
    let wanted = target_set(current.to_set(), badge_ids(computed).to_set(), persistent.to_set());
    assert forall|id: u64| listed.contains(id) == wanted.contains(id) by {
        lemma_target_membership(current, computed, persistent, id);
    }
    assert(listed =~= wanted);
}

/// A badge is reported as gained exactly if it was computed and the member
/// did not hold it.
pub proof fn lemma_gained_membership(current: Seq<u64>, computed: Seq<Badge>, badge: Badge)
    ensures
        gained(current, computed).contains(badge) <==> computed.contains(badge)
            && !current.contains(badge.spec_id()),
{
    lemma_filter_membership(computed, |badge: Badge| !current.contains(badge.spec_id()), badge);
}

/// Reconciling a second time, against the badges that the first
/// reconciliation applied and with the same computed badges, gains nothing
/// and applies the same set of badges.
pub proof fn lemma_reconcile_is_idempotent(
    current: Seq<u64>,
    computed: Seq<Badge>,
    persistent: Seq<u64>,
)
    ensures
        gained(target(current, computed, persistent), computed) == Seq::<Badge>::empty(),
        target(target(current, computed, persistent), computed, persistent).to_set() == target(
            current,
            computed,
            persistent,
        ).to_set(),
{
    let first = target(current, computed, persistent);
    let second = target(first, computed, persistent);
    assert(gained(first, computed).len() == 0) by {
        if gained(first, computed).len() > 0 {
            let badge = gained(first, computed)[0];
            assert(gained(first, computed).contains(badge));
            lemma_gained_membership(first, computed, badge);
            let at = choose|at: int| 0 <= at < computed.len() && computed[at] == badge;
            assert(badge_ids(computed)[at] == badge.spec_id());
            lemma_target_membership(current, computed, persistent, badge.spec_id());
        }
    }
    assert forall|id: u64| second.to_set().contains(id) == first.to_set().contains(id) by {
        lemma_target_membership(current, computed, persistent, id);
        lemma_target_membership(first, computed, persistent, id);
    }
    assert(second.to_set() =~= first.to_set());
}

} // verus!
