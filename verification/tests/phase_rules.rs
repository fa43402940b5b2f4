use secret_santa::phase::phase_from_setting;
use secret_santa::phase::phase_in;
use secret_santa::phase::plan_phase_change;
use secret_santa::phase::same_text;
use secret_santa::phase::Phase;
use secret_santa::phase::PhaseChange;

#[test]
fn phase_names_round_trip() {
    for p in [Phase::Join, Phase::Swap, Phase::Read] {
        assert_eq!(Phase::from_str(p.as_str()), Some(p));
    }
    assert_eq!(Phase::Join.as_str(), "Join");
    assert_eq!(Phase::Swap.as_str(), "Swap");
    assert_eq!(Phase::Read.as_str(), "Read");
}

#[test]
fn unknown_phase_name_is_none() {
    assert_eq!(Phase::from_str("join"), None);
    assert_eq!(Phase::from_str(""), None);
    assert_eq!(Phase::from_str("Reading"), None);
}

#[test]
fn missing_or_unknown_setting_reads_as_join() {
    assert_eq!(phase_from_setting(None), Phase::Join);
    assert_eq!(phase_from_setting(Some("nonsense".to_string())), Phase::Join);
    assert_eq!(phase_from_setting(Some("Swap".to_string())), Phase::Swap);
    assert_eq!(phase_from_setting(Some("Read".to_string())), Phase::Read);
}

#[test]
fn phase_moves_only_forward_one_step() {
    assert_eq!(plan_phase_change(Phase::Join, Phase::Join), PhaseChange::AlreadyInPhase);
    assert_eq!(plan_phase_change(Phase::Swap, Phase::Swap), PhaseChange::AlreadyInPhase);
    assert_eq!(plan_phase_change(Phase::Read, Phase::Read), PhaseChange::AlreadyInPhase);
    assert_eq!(plan_phase_change(Phase::Join, Phase::Swap), PhaseChange::MatchThenSet);
    assert_eq!(plan_phase_change(Phase::Swap, Phase::Read), PhaseChange::SetOnly);
    assert_eq!(plan_phase_change(Phase::Read, Phase::Join), PhaseChange::ResetThenSet);
    assert_eq!(plan_phase_change(Phase::Swap, Phase::Join), PhaseChange::Refused);
    assert_eq!(plan_phase_change(Phase::Read, Phase::Swap), PhaseChange::Refused);
    assert_eq!(plan_phase_change(Phase::Join, Phase::Read), PhaseChange::Refused);
}

#[test]
fn phase_membership() {
    let allowed = vec![Phase::Swap, Phase::Read];
    assert!(phase_in(Phase::Swap, &allowed));
    assert!(phase_in(Phase::Read, &allowed));
    assert!(!phase_in(Phase::Join, &allowed));
    assert!(!phase_in(Phase::Join, &Vec::new()));
}

#[test]
fn text_comparison() {
    assert!(same_text("abc", "abc"));
    assert!(!same_text("abc", "abd"));
    assert!(!same_text("abc", "ab"));
}
