//! The step from loading to play.
//!
//! The game starts in `Loading`. Every tick it looks at the load states of
//! the assets it waits for. Once all of them are loaded at the same time it
//! enters `Game`, and it does so once. An asset that failed keeps the game
//! in `Loading` for as long as it stays failed: nothing is retried.

use vstd::prelude::*;

verus! {

/// The two phases of the application.
#[derive(Clone, Copy, Debug, PartialEq, Eq, Hash, Structural)]
pub enum AppState {
    Loading,
    Game,
}

impl Default for AppState {
    fn default() -> (state: AppState)
        ensures
            state == AppState::Loading,
    {
        AppState::Loading
    }
}

/// How far the loading of an asset, or of a group of assets, has come.
#[derive(Clone, Copy, Debug, PartialEq, Eq, Hash, Structural)]
pub enum AssetState {
    Pending,
    Loaded,
    Failed,
}

/// What is to be done after a tick.
#[derive(Clone, Copy, Debug, PartialEq, Eq, Hash, Structural)]
pub enum LoadAction {
    /// Nothing to do.
    Wait,
    /// Every asset is loaded: enter the game.
    EnterGame,
    /// An asset failed to load: report it.
    ReportFailure,
}

/// Whether every asset is loaded.
pub open spec fn all_loaded(assets: Seq<AssetState>) -> bool {
    forall|i: int| 0 <= i < assets.len() ==> assets[i] == AssetState::Loaded
}

/// Whether some asset failed.
pub open spec fn any_failed(assets: Seq<AssetState>) -> bool {
    exists|i: int| 0 <= i < assets.len() && assets[i] == AssetState::Failed
}

/// The state of a group of assets: failed if one of them failed, loaded if
/// all of them are, pending otherwise.
pub open spec fn group_state_spec(assets: Seq<AssetState>) -> AssetState {
    if any_failed(assets) {
        AssetState::Failed
    } else if all_loaded(assets) {
        AssetState::Loaded
    } else {
        AssetState::Pending
    }
}

/// The next state and what is to be done, from the state and the state of
/// the group of assets waited for.
pub open spec fn loading_step_spec(state: AppState, group: AssetState) -> (AppState, LoadAction) {
    match state {
        AppState::Game => (AppState::Game, LoadAction::Wait),
        AppState::Loading => match group {
            AssetState::Loaded => (AppState::Game, LoadAction::EnterGame),
            AssetState::Failed => (AppState::Loading, LoadAction::ReportFailure),
            AssetState::Pending => (AppState::Loading, LoadAction::Wait),
        },
    }
}

/// The state after the ticks `frames`, each frame holding the asset states
/// seen in that tick, the first tick starting from `Loading`.
pub open spec fn state_after(frames: Seq<Seq<AssetState>>) -> AppState
    decreases frames.len(),
{
    if frames.len() == 0 {
        AppState::Loading
    } else {
        loading_step_spec(state_after(frames.drop_last()), group_state_spec(frames.last())).0
    }
}

/// What is to be done in tick `k` of `frames`.
pub open spec fn action_at(frames: Seq<Seq<AssetState>>, k: int) -> LoadAction {
    loading_step_spec(state_after(frames.take(k)), group_state_spec(frames[k])).1
}

/// The state of a group of assets.
pub fn group_load_state(assets: &Vec<AssetState>) -> (group: AssetState)
    ensures
        group == group_state_spec(assets@),
{
    let n: usize = assets.len();
    let mut pending: bool = false;
    let mut i: usize = 0;
    while i < n
        invariant
            n == assets@.len(),
            i <= n,
            forall|k: int| 0 <= k < i ==> assets@[k] != AssetState::Failed,
            pending <==> exists|k: int| 0 <= k < i && assets@[k] == AssetState::Pending,
        decreases n - i,
    {
        match assets[i] {
            AssetState::Failed => {
                return AssetState::Failed;
            },
            AssetState::Pending => {
                pending = true;
            },
            AssetState::Loaded => {},
        }
        i = i + 1;
    }
    if pending {
        AssetState::Pending
    } else {
        AssetState::Loaded
    }
}

/// One tick of loading: looks at the assets waited for and gives the next
/// state with what is to be done.
pub fn check_asset_loading(state: AppState, assets: &Vec<AssetState>) -> (next: (
    AppState,
    LoadAction,
))
    ensures
        next == loading_step_spec(state, group_state_spec(assets@)),
        next.1 == LoadAction::EnterGame <==> state == AppState::Loading && all_loaded(assets@),
        next.1 == LoadAction::ReportFailure <==> state == AppState::Loading && any_failed(assets@),
        next.0 == AppState::Game <==> state == AppState::Game || all_loaded(assets@),
{
    match state {
        AppState::Game => (AppState::Game, LoadAction::Wait),
        AppState::Loading => match group_load_state(assets) {
            AssetState::Loaded => (AppState::Game, LoadAction::EnterGame),
            AssetState::Failed => (AppState::Loading, LoadAction::ReportFailure),
            AssetState::Pending => (AppState::Loading, LoadAction::Wait),
        },
    }
}

/// Once in the game the state stays there.
pub proof fn lemma_game_is_kept(frames: Seq<Seq<AssetState>>, k: int)
    requires
        0 <= k <= frames.len(),
        state_after(frames.take(k)) == AppState::Game,
    ensures
        state_after(frames) == AppState::Game,
    decreases frames.len() - k,
{
    if k < frames.len() {
        assert(frames.take(k + 1).drop_last() =~= frames.take(k));
        lemma_game_is_kept(frames, k + 1);
    } else {
        assert(frames.take(k) =~= frames);
    }
}

/// The state is `Game` exactly when in some tick so far every asset was
/// loaded at once.
pub proof fn lemma_game_iff_all_loaded_once(frames: Seq<Seq<AssetState>>)
    ensures
        state_after(frames) == AppState::Game <==> exists|k: int|
            0 <= k < frames.len() && all_loaded(#[trigger] frames[k]),
    decreases frames.len(),
{
    if frames.len() > 0 {
        let earlier = frames.drop_last();
        lemma_game_iff_all_loaded_once(earlier);
        if state_after(frames) == AppState::Game {
            if state_after(earlier) == AppState::Game {
                let k = choose|k: int| 0 <= k < earlier.len() && all_loaded(#[trigger] earlier[k]);
                assert(frames[k] == earlier[k]);
            } else {
                assert(all_loaded(frames[frames.len() - 1]));
            }
        }
        if exists|k: int| 0 <= k < frames.len() && all_loaded(#[trigger] frames[k]) {
            let k = choose|k: int| 0 <= k < frames.len() && all_loaded(#[trigger] frames[k]);
            if k < earlier.len() {
                assert(earlier[k] == frames[k]);
            }
        }
    }
}

/// Entering the game is asked for in exactly one kind of tick: the first in
/// which every asset is loaded at once.
pub proof fn lemma_enter_game_when(frames: Seq<Seq<AssetState>>, k: int)
    requires
        0 <= k < frames.len(),
    ensures
        action_at(frames, k) == LoadAction::EnterGame <==> {
            &&& all_loaded(frames[k])
            &&& forall|j: int| 0 <= j < k ==> !all_loaded(#[trigger] frames[j])
        },
{
    let earlier = frames.take(k);
    lemma_game_iff_all_loaded_once(earlier);
    if state_after(earlier) == AppState::Game {
        let j = choose|j: int| 0 <= j < earlier.len() && all_loaded(#[trigger] earlier[j]);
        assert(frames[j] == earlier[j]);
    } else {
        assert forall|j: int| 0 <= j < k implies !all_loaded(#[trigger] frames[j]) by {
            assert(earlier[j] == frames[j]);
        }
    }
}

/// Entering the game is asked for at most once.
pub proof fn lemma_enter_game_once(frames: Seq<Seq<AssetState>>, j: int, k: int)
    requires
        0 <= j < frames.len(),
        0 <= k < frames.len(),
        action_at(frames, j) == LoadAction::EnterGame,
        action_at(frames, k) == LoadAction::EnterGame,
    ensures
        j == k,
{
    lemma_enter_game_when(frames, j);
    lemma_enter_game_when(frames, k);
}

/// While in every tick some asset has failed, the state stays `Loading`,
/// and each tick asks to report the failure, none to enter the game.
pub proof fn lemma_failure_keeps_loading(frames: Seq<Seq<AssetState>>, k: int)
    requires
        forall|j: int| 0 <= j < frames.len() ==> any_failed(#[trigger] frames[j]),
        0 <= k < frames.len(),
    ensures
        state_after(frames) == AppState::Loading,
        action_at(frames, k) == LoadAction::ReportFailure,
{
    lemma_game_iff_all_loaded_once(frames);
    lemma_enter_game_when(frames, k);
    assert(any_failed(frames[k]));
    lemma_game_iff_all_loaded_once(frames.take(k));
    if state_after(frames.take(k)) == AppState::Game {
        let j = choose|j: int|
            0 <= j < frames.take(k).len() && all_loaded(#[trigger] frames.take(k)[j]);
        assert(frames.take(k)[j] == frames[j]);
        assert(any_failed(frames[j]));
    }
    if state_after(frames) == AppState::Game {
        let j = choose|j: int| 0 <= j < frames.len() && all_loaded(#[trigger] frames[j]);
        assert(any_failed(frames[j]));
    }
}

} // verus!
