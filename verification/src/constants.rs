//! The fixed tables the engine refers to: tier thresholds, badge identifiers
//! and the badges that are carried over untouched.

use vstd::prelude::*;

verus! {

/// The community server whose members are reconciled.
pub const C2SGUILD: u64 = 488478892873744385;

/// Metabits needed for each wealth tier, lowest tier first.
pub const REALITY_EXPLORER_METABITS: i64 = 1_000_000_000;

pub const REALITY_EXPERT_METABITS: i64 = 1_000_000_000_000;

pub const REALITY_LEGEND_METABITS: i64 = 100_000_000_000_000;

/// Dinosaur ranks that make up one prestige.
pub const RANKS_PER_PRESTIGE: i32 = 50;

/// The highest prestige tier; higher ranks are clamped to it.
pub const MAX_PRESTIGE: i32 = 10;

/// Dinosaur rank needed for the base paleontology badge.
pub const PALEONTOLOGIST_RANK: i32 = 26;

/// Prestige tier of the progressive paleontology badge.
pub const PROGRESSIVE_PALEONTOLOGIST_PRESTIGE: i32 = 1;

/// Prestige tier of the legend paleontology badge.
pub const PALEONTOLOGIST_LEGEND_PRESTIGE: i32 = 10;

/// Slowest singularity speedrun, in seconds, that still earns the sonic badge.
pub const SONIC_SPEEDSTER_SECONDS: u32 = 120;

/// Slowest singularity speedrun, in seconds, that still earns the speedster badge.
pub const SIMULATION_SPEEDSTER_SECONDS: u32 = 300;

/// Badge identifiers, as the membership service knows them.
pub const REALITY_EXPLORER: u64 = 499316778426433538;

pub const REALITY_EXPERT: u64 = 523951727721381888;

pub const REALITY_LEGEND: u64 = 892352619953172500;

pub const PALEONTOLOGIST: u64 = 657305968442474502;

pub const PROGRESSIVE_PALEONTOLOGIST: u64 = 892352893925130300;

pub const PALEONTOLOGIST_LEGEND: u64 = 892353085181792306;

pub const FINDER_OF_SEMBLANCE_SECRETS: u64 = 892355042541408266;

pub const SONIC_SPEEDSTER_OF_SIMULATIONS: u64 = 892355418367758416;

pub const SIMULATION_SPEEDSTER: u64 = 892355608805150791;

pub const SHARK_COLLECTOR: u64 = 892355822190366792;

pub const BETA_TESTER: u64 = 892356015174520862;

/// Badges outside the computed tracks that a member keeps when they hold
/// them: staff, supporters and other hand-given marks.
pub const PERSISTENT_ROLES: [u64; 8] = [
    493796775132528640,
    567039914294771742,
    535129309648781332,
    776980182070067211,
    799592206412574740,
    488483291621425152,
    585550233905594400,
    647223723494244372,
];

/// The persistent badges as a list.
pub fn persistent_roles() -> (roles: Vec<u64>)
    ensures
        roles@ == PERSISTENT_ROLES@,
{
    let mut roles: Vec<u64> = Vec::new();
    let mut next: usize = 0;
    while next < 8
        invariant
            next <= 8,
            roles@ == PERSISTENT_ROLES@.take(next as int),
        decreases 8 - next,
    {
        roles.push(PERSISTENT_ROLES[next]);
        next = next + 1;
    }
    roles
}

/// The kinds of operational log lines.
#[allow(non_camel_case_types)]
#[derive(Clone, Copy, Debug, PartialEq, Eq, Structural)]
pub enum LOG {
    SUCCESSFUL,
    INFORMATIONAL,
    FAILURE,
}

/// Whom a logged failure concerns.
#[derive(Clone, Debug)]
pub enum ErrorLogType {
    /// A request of the user with this identity token.
    USER(String),
    /// The service itself.
    INTERNAL,
}

/// Escape sequence that sets the background of a log line.
pub const BACKGROUND: &'static str = "\u{1b}[0;40m";

/// Escape sequences that colour the words of a log line.
pub const SUCCESSFUL: &'static str = "\u{1b}[1;32m";

pub const INFORMATIONAL: &'static str = "\u{1b}[1;34m";

pub const FAILURE: &'static str = "\u{1b}[1;31m";

} // verus!
