//! The records that travel between the store, the tier rules and the callers.

use crate::double::Double;
use vstd::prelude::*;
use vstd::std_specs::convert::FromSpecImpl;

verus! {

/// A point in time, counted from the Unix epoch.
#[derive(Clone, Copy, Debug, PartialEq, Eq, Structural)]
pub struct Timestamp {
    pub secs: u64,
    pub nanos: u32,
}

/// The progression record kept for one identity token.
#[derive(Clone, Debug)]
pub struct UserData {
    pub discord_id: String,
    pub token: String,
    pub beta_tester: bool,
    pub metabits: i64,
    pub dino_rank: i32,
    pub prestige_rank: i32,
    pub beyond_rank: i32,
    /// The best singularity speedrun in seconds; absent while none has been
    /// attempted.
    pub singularity_speedrun_time: Option<Double>,
    pub all_sharks_obtained: bool,
    pub all_hidden_achievements_obtained: bool,
    /// Stamped by the store on every write.
    pub edited_timestamp: Timestamp,
}

/// The progression fields of an update that carries the player token in its
/// body.
#[derive(Clone, Debug)]
pub struct OGUpdateUserData {
    pub player_token: String,
    pub beta_tester: bool,
    /// The count of metabits as the client sent it.
    pub metabits: Double,
    pub dino_rank: i32,
    pub prestige_rank: i32,
    pub beyond_rank: i32,
    pub singularity_speedrun_time: Option<Double>,
    pub all_sharks_obtained: bool,
    pub all_hidden_achievements_obtained: bool,
}

/// The progression fields that an update writes to the store.
#[derive(Clone, Debug)]
pub struct UpdateUserData {
    pub beta_tester: bool,
    /// The count of metabits as the client sent it.
    pub metabits: Double,
    pub dino_rank: i32,
    pub prestige_rank: i32,
    pub beyond_rank: i32,
    pub singularity_speedrun_time: Option<Double>,
    pub all_sharks_obtained: bool,
    pub all_hidden_achievements_obtained: bool,
}

impl UpdateUserData {
    /// The update that keeps every progression field of `data` and drops its
    /// player token.
    pub open spec fn of(data: OGUpdateUserData) -> UpdateUserData {
        UpdateUserData {
            beta_tester: data.beta_tester,
            metabits: data.metabits,
            dino_rank: data.dino_rank,
            prestige_rank: data.prestige_rank,
            beyond_rank: data.beyond_rank,
            singularity_speedrun_time: data.singularity_speedrun_time,
            all_sharks_obtained: data.all_sharks_obtained,
            all_hidden_achievements_obtained: data.all_hidden_achievements_obtained,
        }
    }
}

impl From<OGUpdateUserData> for UpdateUserData {
    fn from(data: OGUpdateUserData) -> (update: UpdateUserData) {
        UpdateUserData {
            beta_tester: data.beta_tester,
            metabits: data.metabits,
            dino_rank: data.dino_rank,
            prestige_rank: data.prestige_rank,
            beyond_rank: data.beyond_rank,
            singularity_speedrun_time: data.singularity_speedrun_time,
            all_sharks_obtained: data.all_sharks_obtained,
            all_hidden_achievements_obtained: data.all_hidden_achievements_obtained,
        }
    }
}

impl FromSpecImpl<OGUpdateUserData> for UpdateUserData {
    open spec fn obeys_from_spec() -> bool {
        true
    }

    open spec fn from_spec(data: OGUpdateUserData) -> UpdateUserData {
        UpdateUserData::of(data)
    }
}

/// The body of a request that links a new account.
#[derive(Clone, Debug)]
pub struct CreateUserData {
    pub discord_id: String,
    pub beta_tester: bool,
}

/// The body of a request that unlinks an account.
#[derive(Clone, Debug)]
pub struct DeleteUserData {
    pub discord_id: String,
}

/// The body of every answer: one user-facing message.
#[derive(Clone, Debug)]
pub struct MessageResponse {
    pub message: String,
}

/// What the game-saves service answers when asked for a save's metadata.
#[derive(Clone, Debug)]
pub struct GameSavesMetadataResponse {
    /// The kind of the answer; an answer that vouches for nothing has none.
    pub response_type: Option<String>,
    pub url: String,
    pub error: Option<String>,
    pub file_size: Option<i64>,
    pub date_updated: Option<i64>,
    pub play_time: Option<i64>,
}

/// The question put to the game-saves service.
#[derive(Clone, Debug)]
pub struct GameSavesMetadataRequest {
    /// Always `getmetadata`.
    pub action: String,
    /// The player's email.
    pub username: String,
    /// The player's access token.
    pub token: String,
}

} // verus!
