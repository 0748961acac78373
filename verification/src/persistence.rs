//! What is decided around saving and loading the state, and the operations
//! on the store by which the rest of the bot reaches it. Reading and
//! writing the file itself is left to the caller.

use crate::conversation::{turns_of, ChatMessage};
use crate::personality::BotPersonality;
use crate::state::{capped, BotState, State, CURRENT_STATE_VERSION};
use vstd::prelude::*;

verus! {

/// What is put behind the state file's path to name the temporary file.
pub const TEMP_SUFFIX: &'static str = ".tmp";

/// Why the state could not be read.
#[derive(Debug)]
pub enum LoadError {
    /// The file could not be read.
    Io { detail: String },
    /// The file was read and does not hold a state.
    Corrupt { detail: String },
}

/// What an attempt to read the state file gave.
#[derive(Debug)]
pub enum LoadResult {
    /// The file held this state.
    Loaded(BotState),
    /// There is no state file.
    NotFound,
    /// Reading failed.
    Failed(LoadError),
}

/// How the bot starts after an attempt to read the state file.
#[derive(Debug)]
pub struct StartupPlan {
    /// The state to start with.
    pub state: BotState,
    /// Whether the storage directory has to be created for later saves.
    pub create_directory: bool,
    /// The error to report, if reading failed.
    pub error: Option<LoadError>,
}

/// The state to go on with after a state of any version was read: the state
/// itself in the current version, the initial state in any other.
pub open spec fn migrate(st: State) -> State {
    if st.version != CURRENT_STATE_VERSION {
        State::initial()
    } else {
        st
    }
}

/// The path of the temporary file that a save writes before it replaces the
/// state file.
pub open spec fn temp_path(path: Seq<char>) -> Seq<char> {
    path + TEMP_SUFFIX@
}

impl Clone for BotState {
    fn clone(&self) -> (r: Self)
        ensures
            r@ == self@,
    {
        let r = BotState {
            current_model: self.current_model.clone(),
            conversations: self.conversations.clone(),
            version: self.version,
            default_personality: self.default_personality.clone(),
        };
        assert(r@.conversations =~= self@.conversations);
        r
    }
}

/// Replaces a state of another version by the initial state.
pub fn reset_if_version_mismatch(state: &mut BotState)
    ensures
        final(state)@ == migrate(old(state)@),
{
    if state.version != CURRENT_STATE_VERSION {
        *state = BotState::default();
    }
}

/// Decides how to start. A state that was read is used, after the version
/// check. Without a state file the bot starts with the initial state and
/// has the storage directory created. After a failed read it starts with
/// the initial state and reports the error.
pub fn load_state(loaded: LoadResult) -> (plan: StartupPlan)
    ensures
        match loaded {
            LoadResult::Loaded(state) => plan.state@ == migrate(state@) && !plan.create_directory
                && plan.error is None,
            LoadResult::NotFound => plan.state@ == State::initial() && plan.create_directory
                && plan.error is None,
            LoadResult::Failed(e) => plan.state@ == State::initial() && !plan.create_directory
                && plan.error == Some(e),
        },
{
    match loaded {
        LoadResult::Loaded(state) => {
            let mut state = state;
            reset_if_version_mismatch(&mut state);
            StartupPlan { state, create_directory: false, error: None }
        },
        LoadResult::NotFound => StartupPlan {
            state: BotState::default(),
            create_directory: true,
            error: None,
        },
        LoadResult::Failed(e) => StartupPlan {
            state: BotState::default(),
            create_directory: false,
            error: Some(e),
        },
    }
}

/// The copy of the state that a save writes, taken so that the state is
/// free again while the file is written.
pub fn save_state(state: &BotState) -> (snapshot: BotState)
    ensures
        snapshot@ == state@,
{
    state.clone()
}

/// The path of the temporary file for the state file at `path`.
pub fn temp_path_for(path: &str) -> (r: String)
    ensures
        r@ == temp_path(path@),
{
    let mut r = path.to_owned();
    r.append(TEMP_SUFFIX);
    r
}

/// The transcript of a channel: the system turn, then the stored turns.
pub fn get_conversation_history(state: &BotState, channel_id: u64) -> (r: Vec<ChatMessage>)
    ensures
        turns_of(r@) == state@.transcript(channel_id),
{
    state.get_conversation(channel_id)
}

/// The personality in effect for a channel.
pub fn get_channel_personality(state: &BotState, channel_id: u64) -> (r: BotPersonality)
    ensures
        r@ == state@.resolved_personality(channel_id),
{
    state.get_channel_personality(channel_id).clone()
}

/// Binds `personality` to a channel.
pub fn set_channel_personality(state: &mut BotState, channel_id: u64, personality: BotPersonality)
    ensures
        final(state)@ == old(state)@.set_personality(channel_id, personality@),
{
    state.set_channel_personality(channel_id, personality);
}

/// Appends `message` to a channel's history.
pub fn add_message(state: &mut BotState, channel_id: u64, message: ChatMessage)
    ensures
        final(state)@ == old(state)@.append(channel_id, message@),
{
    state.add_message(channel_id, message);
}

/// Deletes a channel's entry.
pub fn remove_conversation(state: &mut BotState, channel_id: u64)
    ensures
        final(state)@ == old(state)@.remove(channel_id),
{
    state.remove_conversation(channel_id);
}

/// The channels that have an entry, each once, in no particular order.
pub fn get_channel_ids(state: &BotState) -> (r: Vec<u64>)
    ensures
        r@.no_duplicates(),
        r@.to_set() == state@.channel_ids(),
{
    state.get_channel_ids()
}

/// The number of stored turns over all channels; `usize::MAX` where the sum
/// is larger than that.
pub fn get_total_history_count(state: &BotState) -> (n: usize)
    ensures
        n == capped(state@.total_turn_count()),
{
    state.get_total_history_count()
}

/// The sentence that confirms a changed model.
pub open spec fn model_changed_reply(old_model: Seq<char>, new_model: Seq<char>) -> Seq<char> {
    "Model changed from "@ + old_model + " to "@ + new_model
}

/// Changes the model in use to `model_name` and says so.
pub fn change_model(state: &mut BotState, model_name: &str) -> (reply: String)
    ensures
        final(state)@ == old(state)@.with_model(model_name@),
        reply@ == model_changed_reply(old(state)@.current_model, model_name@),
{
    let old_model = state.get_current_model();
    state.change_model(model_name.to_owned());
    let mut reply = "Model changed from ".to_owned();
    reply.append(old_model.as_str());
    reply.append(" to ");
    reply.append(model_name);
    reply
}

/// The model in use.
pub fn get_current_model(state: &BotState) -> (r: String)
    ensures
        r@ == state@.current_model,
{
    state.get_current_model()
}

/// A state that was written in the current version comes back from a load
/// as it is; a state of any other version comes back as the initial state,
/// whatever it held.
pub proof fn lemma_migrate(st: State)
    ensures
        st.version == CURRENT_STATE_VERSION ==> migrate(st) == st,
        st.version != CURRENT_STATE_VERSION ==> migrate(st) == State::initial(),
        migrate(st).version == CURRENT_STATE_VERSION,
        migrate(migrate(st)) == migrate(st),
{
}

/// One step of a save.
#[derive(Debug)]
pub enum SaveAction {
    /// Make sure that the directory exists.
    CreateDirectory { path: String },
    /// Write a file, replacing what it held.
    WriteFile { path: String, contents: String },
    /// Give a file another name, replacing the file of that name, in one
    /// step.
    Rename { from: String, to: String },
}

/// The mathematical value of a step of a save.
pub enum Action {
    CreateDirectory { path: Seq<char> },
    WriteFile { path: Seq<char>, contents: Seq<char> },
    Rename { from: Seq<char>, to: Seq<char> },
}

impl View for SaveAction {
    type V = Action;

    open spec fn view(&self) -> Action {
        match self {
            SaveAction::CreateDirectory { path } => Action::CreateDirectory { path: path@ },
            SaveAction::WriteFile { path, contents } => Action::WriteFile {
                path: path@,
                contents: contents@,
            },
            SaveAction::Rename { from, to } => Action::Rename { from: from@, to: to@ },
        }
    }
}

/// The values of a sequence of steps.
pub open spec fn actions_of(steps: Seq<SaveAction>) -> Seq<Action> {
    Seq::new(steps.len(), |i: int| steps[i]@)
}

/// The steps of a save: the directory is made sure of, the contents are
/// written to the temporary file, and the temporary file takes the name of
/// the state file.
pub open spec fn save_steps(directory: Seq<char>, path: Seq<char>, contents: Seq<char>) -> Seq<
    Action,
> {
    seq![
        Action::CreateDirectory { path: directory },
        Action::WriteFile { path: temp_path(path), contents },
        Action::Rename { from: temp_path(path), to: path },
    ]
}

/// The files of a disk: what each path holds.
pub type Disk = Map<Seq<char>, Seq<char>>;

/// The disk after a step that ran to its end.
pub open spec fn perform(disk: Disk, action: Action) -> Disk {
    match action {
        Action::CreateDirectory { path } => disk,
        Action::WriteFile { path, contents } => disk.insert(path, contents),
        Action::Rename { from, to } => if disk.contains_key(from) {
            disk.remove(from).insert(to, disk[from])
        } else {
            disk
        },
    }
}

/// The disk after a step that was cut short and left `partial` behind where
/// it was writing. Only the writing of a file can be cut short: the other
/// steps happen whole or not at all.
pub open spec fn interrupt(disk: Disk, action: Action, partial: Seq<char>) -> Disk {
    match action {
        Action::WriteFile { path, contents } => disk.insert(path, partial),
        _ => disk,
    }
}

/// The disk after the first `n` of `steps` ran to their end.
pub open spec fn perform_all(disk: Disk, steps: Seq<Action>, n: nat) -> Disk
    decreases n,
{
    if n == 0 {
        disk
    } else {
        perform(perform_all(disk, steps, (n - 1) as nat), steps[n - 1])
    }
}

/// The steps of a save of `contents` to the state file at `path` in
/// `directory`.
pub fn save_plan(directory: &str, path: &str, contents: String) -> (steps: Vec<SaveAction>)
    ensures
        actions_of(steps@) == save_steps(directory@, path@, contents@),
{
    let mut steps: Vec<SaveAction> = Vec::new();
    steps.push(SaveAction::CreateDirectory { path: directory.to_owned() });
    steps.push(SaveAction::WriteFile { path: temp_path_for(path), contents });
    steps.push(SaveAction::Rename { from: temp_path_for(path), to: path.to_owned() });
    assert(actions_of(steps@) =~= save_steps(directory@, path@, contents@));
    steps
}

/// The temporary file is never the state file.
pub proof fn lemma_temp_path_differs(path: Seq<char>)
    ensures
        temp_path(path) != path,
{
    reveal_strlit(".tmp");
    assert(temp_path(path).len() == path.len() + 4);
}

/// On the disk of this model, a save never shows a half-written state
/// file. However many of its steps ran, and whatever a step that was cut
/// short left behind, the state file holds what it held before, until the
/// last step has run; from then on it holds the new contents.
pub proof fn lemma_save_is_atomic(
    disk: Disk,
    directory: Seq<char>,
    path: Seq<char>,
    contents: Seq<char>,
    done: nat,
    partial: Seq<char>,
)
    requires
        done <= 3,
    ensures
        done < 3 ==> perform_all(disk, save_steps(directory, path, contents), done).contains_key(
            path,
        ) == disk.contains_key(path),
        done < 3 && disk.contains_key(path) ==> perform_all(
            disk,
            save_steps(directory, path, contents),
            done,
        )[path] == disk[path],
        done < 3 ==> interrupt(
            perform_all(disk, save_steps(directory, path, contents), done),
            save_steps(directory, path, contents)[done as int],
            partial,
        ).contains_key(path) == disk.contains_key(path),
        done < 3 && disk.contains_key(path) ==> interrupt(
            perform_all(disk, save_steps(directory, path, contents), done),
            save_steps(directory, path, contents)[done as int],
            partial,
        )[path] == disk[path],
        done == 3 ==> perform_all(disk, save_steps(directory, path, contents), done).contains_key(
            path,
        ) && perform_all(disk, save_steps(directory, path, contents), done)[path] == contents,
{
    lemma_temp_path_differs(path);
    let steps = save_steps(directory, path, contents);
    reveal_with_fuel(perform_all, 4);
    assert(perform_all(disk, steps, 0) == disk);
    assert(perform_all(disk, steps, 1) == disk);
    assert(perform_all(disk, steps, 2) == disk.insert(temp_path(path), contents));
}

} // verus!
