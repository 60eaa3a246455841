use userdata_api::models::{Timestamp, UserData};
use userdata_api::role_handling::{
    dino_prestige, handle_metabit_roles, handle_paleo_roles, handle_simulation_roles, resolve,
    Badge, Track,
};
use userdata_api::double::Double;

fn record() -> UserData {
    UserData {
        discord_id: "123456789".to_string(),
        token: "token".to_string(),
        beta_tester: false,
        metabits: 0,
        dino_rank: 0,
        prestige_rank: 0,
        beyond_rank: 0,
        singularity_speedrun_time: None,
        all_sharks_obtained: false,
        all_hidden_achievements_obtained: false,
        edited_timestamp: Timestamp { secs: 0, nanos: 0 },
    }
}

fn seconds(time: f64) -> Option<Double> {
    Some(Double::from_bits(time.to_bits()))
}

#[test]
fn empty_record_resolves_to_nothing() {
    let resolved = resolve(&record());
    assert!(resolved.metabit_wealth.is_empty());
    assert!(resolved.paleontology.is_empty());
    assert!(resolved.simulation_mastery.is_empty());
    assert!(resolved.beta_tester.is_empty());
    assert!(resolved.all().is_empty());
}

#[test]
fn a_billion_metabits_is_an_explorer_only() {
    let mut data = record();
    data.metabits = 1_000_000_000;
    let resolved = resolve(&data);
    assert_eq!(resolved.metabit_wealth, vec![Badge::RealityExplorer]);
    assert_eq!(resolved.all(), vec![Badge::RealityExplorer]);
}

#[test]
fn metabit_thresholds_are_inclusive() {
    let mut data = record();
    data.metabits = 999_999_999;
    assert_eq!(handle_metabit_roles(&data), vec![]);
    data.metabits = 1_000_000_000;
    assert_eq!(handle_metabit_roles(&data), vec![Badge::RealityExplorer]);
    data.metabits = 999_999_999_999;
    assert_eq!(handle_metabit_roles(&data), vec![Badge::RealityExplorer]);
    data.metabits = 1_000_000_000_000;
    assert_eq!(handle_metabit_roles(&data), vec![Badge::RealityExpert]);
    data.metabits = 99_999_999_999_999;
    assert_eq!(handle_metabit_roles(&data), vec![Badge::RealityExpert]);
    data.metabits = 100_000_000_000_000;
    assert_eq!(handle_metabit_roles(&data), vec![Badge::RealityLegend]);
}

#[test]
fn metabits_beyond_float_precision_compare_exactly() {
    let mut data = record();
    data.metabits = 9_007_199_254_740_993;
    assert_eq!(handle_metabit_roles(&data), vec![Badge::RealityLegend]);
    data.metabits = i64::MAX;
    assert_eq!(handle_metabit_roles(&data), vec![Badge::RealityLegend]);
    data.metabits = i64::MIN;
    assert_eq!(handle_metabit_roles(&data), vec![]);
}

#[test]
fn prestige_is_a_fiftieth_of_the_rank_clamped() {
    assert_eq!(dino_prestige(0), 0);
    assert_eq!(dino_prestige(49), 0);
    assert_eq!(dino_prestige(50), 1);
    assert_eq!(dino_prestige(99), 1);
    assert_eq!(dino_prestige(100), 2);
    assert_eq!(dino_prestige(499), 9);
    assert_eq!(dino_prestige(500), 10);
    assert_eq!(dino_prestige(501), 10);
    assert_eq!(dino_prestige(i32::MAX), 10);
    assert_eq!(dino_prestige(-1), 0);
    assert_eq!(dino_prestige(-60), 0);
    assert_eq!(dino_prestige(i32::MIN), 0);
}

#[test]
fn rank_five_hundred_is_a_legend() {
    let mut data = record();
    data.dino_rank = 500;
    assert_eq!(handle_paleo_roles(&data), vec![Badge::PaleontologistLegend]);
    data.dino_rank = 100_000;
    assert_eq!(handle_paleo_roles(&data), vec![Badge::PaleontologistLegend]);
    data.dino_rank = 499;
    assert_eq!(handle_paleo_roles(&data), vec![Badge::Paleontologist]);
}

#[test]
fn paleontology_tiers() {
    let mut data = record();
    data.dino_rank = 25;
    assert_eq!(handle_paleo_roles(&data), vec![]);
    data.dino_rank = 26;
    assert_eq!(handle_paleo_roles(&data), vec![Badge::Paleontologist]);
    data.dino_rank = 49;
    assert_eq!(handle_paleo_roles(&data), vec![Badge::Paleontologist]);
    data.dino_rank = 50;
    assert_eq!(handle_paleo_roles(&data), vec![Badge::ProgressivePaleontologist]);
    data.dino_rank = 99;
    assert_eq!(handle_paleo_roles(&data), vec![Badge::ProgressivePaleontologist]);
    data.dino_rank = 100;
    assert_eq!(handle_paleo_roles(&data), vec![Badge::Paleontologist]);
    data.dino_rank = -5;
    assert_eq!(handle_paleo_roles(&data), vec![]);
}

#[test]
fn hidden_achievements_override_speed_and_sharks() {
    let mut data = record();
    data.all_hidden_achievements_obtained = true;
    data.all_sharks_obtained = true;
    assert_eq!(handle_simulation_roles(&data), vec![Badge::FinderOfSemblanceSecrets]);
    data.singularity_speedrun_time = seconds(1.0);
    assert_eq!(handle_simulation_roles(&data), vec![Badge::FinderOfSemblanceSecrets]);
    let resolved = resolve(&data);
    assert_eq!(resolved.simulation_mastery, vec![Badge::FinderOfSemblanceSecrets]);
}

#[test]
fn speed_tiers() {
    let mut data = record();
    data.singularity_speedrun_time = seconds(119.5);
    assert_eq!(handle_simulation_roles(&data), vec![Badge::SonicSpeedsterOfSimulations]);
    data.singularity_speedrun_time = seconds(120.0);
    assert_eq!(handle_simulation_roles(&data), vec![Badge::SonicSpeedsterOfSimulations]);
    data.singularity_speedrun_time = seconds(120.00000000000001);
    assert_eq!(handle_simulation_roles(&data), vec![Badge::SimulationSpeedster]);
    data.singularity_speedrun_time = seconds(300.0);
    assert_eq!(handle_simulation_roles(&data), vec![Badge::SimulationSpeedster]);
    data.singularity_speedrun_time = seconds(300.00000000000006);
    assert_eq!(handle_simulation_roles(&data), vec![]);
    data.singularity_speedrun_time = seconds(1.0e300);
    assert_eq!(handle_simulation_roles(&data), vec![]);
}

#[test]
fn no_attempt_earns_no_speed_badge() {
    let mut data = record();
    data.singularity_speedrun_time = None;
    assert_eq!(handle_simulation_roles(&data), vec![]);
    data.singularity_speedrun_time = seconds(f64::NAN);
    assert_eq!(handle_simulation_roles(&data), vec![]);
    data.singularity_speedrun_time = seconds(f64::INFINITY);
    assert_eq!(handle_simulation_roles(&data), vec![]);
}

#[test]
fn speed_and_sharks_are_independent() {
    let mut data = record();
    data.all_sharks_obtained = true;
    assert_eq!(handle_simulation_roles(&data), vec![Badge::SharkCollector]);
    data.singularity_speedrun_time = seconds(200.0);
    assert_eq!(
        handle_simulation_roles(&data),
        vec![Badge::SimulationSpeedster, Badge::SharkCollector]
    );
    data.singularity_speedrun_time = seconds(60.0);
    assert_eq!(
        handle_simulation_roles(&data),
        vec![Badge::SonicSpeedsterOfSimulations, Badge::SharkCollector]
    );
}

#[test]
fn beta_is_evaluated_whatever_the_other_tracks_give() {
    let mut data = record();
    data.beta_tester = true;
    assert_eq!(resolve(&data).beta_tester, vec![Badge::BetaTester]);
    data.all_hidden_achievements_obtained = true;
    data.metabits = 100_000_000_000_000;
    data.dino_rank = 500;
    let resolved = resolve(&data);
    assert_eq!(
        resolved.all(),
        vec![
            Badge::RealityLegend,
            Badge::PaleontologistLegend,
            Badge::FinderOfSemblanceSecrets,
            Badge::BetaTester
        ]
    );
}

#[test]
fn exclusive_tracks_hold_at_most_one_badge() {
    let ranks = [-1, 0, 25, 26, 50, 99, 100, 499, 500, 9000];
    let wealth = [0, 999_999_999, 1_000_000_000, 1_000_000_000_000, 100_000_000_000_000];
    for rank in ranks {
        for metabits in wealth {
            let mut data = record();
            data.dino_rank = rank;
            data.metabits = metabits;
            let resolved = resolve(&data);
            assert!(resolved.metabit_wealth.len() <= 1);
            assert!(resolved.paleontology.len() <= 1);
        }
    }
}

#[test]
fn badges_know_their_track_name_and_identifier() {
    let badges = [
        Badge::RealityExplorer,
        Badge::RealityExpert,
        Badge::RealityLegend,
        Badge::Paleontologist,
        Badge::ProgressivePaleontologist,
        Badge::PaleontologistLegend,
        Badge::FinderOfSemblanceSecrets,
        Badge::SonicSpeedsterOfSimulations,
        Badge::SimulationSpeedster,
        Badge::SharkCollector,
        Badge::BetaTester,
    ];
    for (at, badge) in badges.iter().enumerate() {
        assert_ne!(badge.id(), 0);
        assert!(!badge.name().is_empty());
        for other in badges.iter().skip(at + 1) {
            assert_ne!(badge.id(), other.id());
            assert_ne!(badge.name(), other.name());
        }
    }
    assert_eq!(Badge::RealityLegend.track(), Track::MetabitWealth);
    assert_eq!(Badge::Paleontologist.track(), Track::Paleontology);
    assert_eq!(Badge::SharkCollector.track(), Track::SimulationMastery);
    assert_eq!(Badge::BetaTester.track(), Track::BetaTester);
    assert_eq!(Badge::FinderOfSemblanceSecrets.name(), "Finder of Semblance's Secrets");
    assert_eq!(Badge::RealityExplorer.name(), "Reality Explorer");
}
