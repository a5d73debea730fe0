use tilegrid::loading::{check_asset_loading, group_load_state, AppState, AssetState, LoadAction};

use AssetState::{Failed, Loaded, Pending};

#[test]
fn app_starts_loading() {
    assert_eq!(AppState::default(), AppState::Loading);
}

#[test]
fn group_is_loaded_when_all_are() {
    assert_eq!(group_load_state(&vec![Loaded]), Loaded);
    assert_eq!(group_load_state(&vec![Loaded, Loaded, Loaded]), Loaded);
    assert_eq!(group_load_state(&Vec::new()), Loaded);
}

#[test]
fn group_is_pending_while_one_is() {
    assert_eq!(group_load_state(&vec![Pending]), Pending);
    assert_eq!(group_load_state(&vec![Loaded, Pending]), Pending);
    assert_eq!(group_load_state(&vec![Pending, Loaded, Loaded]), Pending);
}

#[test]
fn group_is_failed_when_one_failed() {
    assert_eq!(group_load_state(&vec![Failed]), Failed);
    assert_eq!(group_load_state(&vec![Loaded, Failed]), Failed);
    assert_eq!(group_load_state(&vec![Pending, Failed, Loaded]), Failed);
    assert_eq!(group_load_state(&vec![Failed, Pending]), Failed);
}

#[test]
fn game_starts_when_every_asset_is_loaded() {
    assert_eq!(
        check_asset_loading(AppState::Loading, &vec![Loaded, Loaded]),
        (AppState::Game, LoadAction::EnterGame)
    );
}

#[test]
fn loading_waits_while_an_asset_is_pending() {
    assert_eq!(
        check_asset_loading(AppState::Loading, &vec![Loaded, Pending]),
        (AppState::Loading, LoadAction::Wait)
    );
}

#[test]
fn loading_reports_a_failed_asset_and_goes_on() {
    assert_eq!(
        check_asset_loading(AppState::Loading, &vec![Loaded, Failed]),
        (AppState::Loading, LoadAction::ReportFailure)
    );
    assert_eq!(
        check_asset_loading(AppState::Loading, &vec![Failed, Pending]),
        (AppState::Loading, LoadAction::ReportFailure)
    );
}

#[test]
fn nothing_is_asked_once_in_the_game() {
    assert_eq!(
        check_asset_loading(AppState::Game, &vec![Loaded, Loaded]),
        (AppState::Game, LoadAction::Wait)
    );
    assert_eq!(
        check_asset_loading(AppState::Game, &vec![Failed]),
        (AppState::Game, LoadAction::Wait)
    );
    assert_eq!(
        check_asset_loading(AppState::Game, &vec![Pending]),
        (AppState::Game, LoadAction::Wait)
    );
}

#[test]
fn game_is_entered_exactly_once_over_many_ticks() {
    let frames = vec![
        vec![Pending, Pending],
        vec![Loaded, Pending],
        vec![Loaded, Loaded],
        vec![Loaded, Loaded],
        vec![Pending, Loaded],
        vec![Loaded, Loaded],
    ];
    let mut state = AppState::default();
    let mut fired = Vec::new();
    for (tick, frame) in frames.iter().enumerate() {
        let (next, action) = check_asset_loading(state, frame);
        if action == LoadAction::EnterGame {
            fired.push(tick);
        }
        state = next;
    }
    assert_eq!(fired, vec![2]);
    assert_eq!(state, AppState::Game);
}

#[test]
fn failed_asset_keeps_the_app_loading_for_good() {
    let mut state = AppState::default();
    for _ in 0..100 {
        let (next, action) = check_asset_loading(state, &vec![Loaded, Failed]);
        assert_eq!(action, LoadAction::ReportFailure);
        assert_eq!(next, AppState::Loading);
        state = next;
    }
    assert_eq!(state, AppState::Loading);
}
