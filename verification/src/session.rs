//! The interactive session's state machine: the states the operator moves
//! through, the events the interface raises, and the pure transition the
//! backend worker applies. Performing the resulting action — a store call
//! or a save-file open — is the surrounding event loop's job.

use vstd::prelude::*;

use crate::save::SaveFile;
use crate::types::{Game, GameSave, GameSaveData};

verus! {

/// What the interface currently shows.
pub enum AppState {
    /// The list of registered saves, for selection or deletion.
    SaveSelection(Vec<GameSave>),
    /// The form for registering a new save.
    NewSave,
    /// One connected save, opened for editing.
    ConnectedSaveEdit(GameSaveData),
}

impl AppState {
    /// The state's name, for the log.
    pub fn name(&self) -> (r: &'static str)
        ensures
            self is SaveSelection ==> r@ == "save_selection"@,
            self is NewSave ==> r@ == "new_save"@,
            self is ConnectedSaveEdit ==> r@ == "connected_save_edit"@,
    {
        match self {
            AppState::SaveSelection(_) => "save_selection",
            AppState::NewSave => "new_save",
            AppState::ConnectedSaveEdit(_) => "connected_save_edit",
        }
    }
}

/// What the interface asks the backend to do.
pub enum AppEvent {
    /// Open the new-save form.
    AddNewSave,
    /// Edit the registered save with this id.
    SaveSelected(u64),
    /// Forget the registered save with this id.
    RequestDeleteSave(u64),
    /// A save file was opened from this path for this game; register it.
    NewSaveCreated(String, Game, SaveFile),
}

impl AppEvent {
    /// The event's name, for the log.
    pub fn name(&self) -> (r: &'static str)
        ensures
            self is AddNewSave ==> r@ == "new_save"@,
            self is SaveSelected ==> r@ == "save_selected"@,
            self is RequestDeleteSave ==> r@ == "request_delete_save"@,
            self is NewSaveCreated ==> r@ == "new_save_created"@,
    {
        match self {
            AppEvent::AddNewSave => "new_save",
            AppEvent::SaveSelected(_) => "save_selected",
            AppEvent::RequestDeleteSave(_) => "request_delete_save",
            AppEvent::NewSaveCreated(_, _, _) => "new_save_created",
        }
    }
}

/// The store call a transition asks the event loop to perform.
pub enum BackendAction {
    /// Delete the save row with this id.
    DeleteSave(u64),
    /// Register this save.
    AddSave(GameSaveData),
}

/// Apply one interface event to the session state. The transition is pure:
/// it hands back the next state together with the store call, if any, that
/// the event loop must perform. An event that does not fit the current
/// state leaves the state as it is.
pub fn handle_event(state: AppState, event: AppEvent) -> (r: (AppState, Option<BackendAction>))
    ensures
        state is SaveSelection && event is AddNewSave ==> r.0 is NewSave && r.1 is None,
        event matches AppEvent::RequestDeleteSave(id) ==> (state is SaveSelection ==> r.0
            is SaveSelection && r.1 == Some(BackendAction::DeleteSave(id))),
        state is NewSave && event is NewSaveCreated ==> (r.0 is ConnectedSaveEdit && r.1
            is Some) || (r.0 is NewSave && r.1 is None),
        state is ConnectedSaveEdit ==> r.1 is None,
        event is AddNewSave && !(state is SaveSelection) ==> r.1 is None,
{
    match (state, event) {
        (AppState::SaveSelection(_), AppEvent::AddNewSave) => (AppState::NewSave, None),
        (AppState::SaveSelection(saves), AppEvent::RequestDeleteSave(save_id)) => {
            let mut kept: Vec<GameSave> = Vec::new();
            let mut i: usize = 0;
            let n = saves.len();
            while i < n
                invariant
                    0 <= i <= n,
                    n == saves@.len(),
                    state is SaveSelection,
                    event == AppEvent::RequestDeleteSave(save_id),
                    forall|j: int| 0 <= j < kept@.len() ==> (#[trigger] kept@[j]).id != save_id,
                decreases n - i,
            {
                if saves[i].id != save_id {
                    let d = &saves[i].data;
                    kept.push(
                        GameSave {
                            id: saves[i].id,
                            data: GameSaveData {
                                id: d.id,
                                game: d.game,
                                trainer_name: d.trainer_name.clone(),
                                trainer_id: d.trainer_id,
                                secret_id: d.secret_id,
                                playtime: d.playtime,
                                connected: d.connected,
                                save_path: d.save_path.clone(),
                            },
                        },
                    );
                }
                i = i + 1;
            }
            (AppState::SaveSelection(kept), Some(BackendAction::DeleteSave(save_id)))
        },
        (AppState::SaveSelection(saves), AppEvent::SaveSelected(save_id)) => {
            let mut i: usize = 0;
            let n = saves.len();
            while i < n
                invariant
                    0 <= i <= n,
                    n == saves@.len(),
                    state is SaveSelection,
                    event == AppEvent::SaveSelected(save_id),
                decreases n - i,
            {
                if saves[i].id == save_id {
                    let d = &saves[i].data;
                    return (
                        AppState::ConnectedSaveEdit(
                            GameSaveData {
                                id: d.id,
                                game: d.game,
                                trainer_name: d.trainer_name.clone(),
                                trainer_id: d.trainer_id,
                                secret_id: d.secret_id,
                                playtime: d.playtime,
                                connected: d.connected,
                                save_path: d.save_path.clone(),
                            },
                        ),
                        None,
                    );
                }
                i = i + 1;
            }
            (AppState::SaveSelection(saves), None)
        },
        (AppState::NewSave, AppEvent::NewSaveCreated(save_path, game, save)) => {
            match GameSaveData::from_path(&save, game.to_u32(), save_path) {
                Ok(game_save_data) => {
                    let action = BackendAction::AddSave(
                        GameSaveData {
                            id: game_save_data.id,
                            game: game_save_data.game,
                            trainer_name: game_save_data.trainer_name.clone(),
                            trainer_id: game_save_data.trainer_id,
                            secret_id: game_save_data.secret_id,
                            playtime: game_save_data.playtime,
                            connected: game_save_data.connected,
                            save_path: game_save_data.save_path.clone(),
                        },
                    );
                    (AppState::ConnectedSaveEdit(game_save_data), Some(action))
                },
                Err(_) => (AppState::NewSave, None),
            }
        },
        (state, _) => (state, None),
    }
}

} // verus!
