//! The playback controller: what the screen shows (playing, waiting for
//! the next commit, menu, overlays, finished), pausing and stepping, the
//! history of played commits, and when to ask the repository for the next
//! commit. The animation engine and the repository are driven by the
//! caller: the controller queues engine commands and answers with the
//! repository request to make.

use vstd::prelude::*;
use crate::cli::PlaybackOrder;
use crate::commit::CommitMetadata;
use crate::player::{CommitRequest, CommitRequestView, DiffMode, order_request, request_for_order};
use crate::theme::Theme;

verus! {

/// What the screen shows.
#[derive(Debug, Clone, Copy, PartialEq, Eq, Structural)]
pub enum UIState {
    Playing,
    /// A commit finished; the next one starts at `resume_at` (milliseconds
    /// on the caller's monotonic clock).
    WaitingForNext { resume_at: u64 },
    Menu,
    KeyBindings,
    About,
    Finished,
}

/// Whether playback runs or is paused by the user.
#[derive(Debug, Clone, Copy, PartialEq, Eq, Structural)]
pub enum PlaybackState {
    Playing,
    Paused,
}

/// Manual stepping unit of the animation.
#[derive(Debug, Clone, Copy, PartialEq, Eq, Structural)]
pub enum StepMode {
    Line,
    Change,
}

/// A command for the animation engine.
#[derive(Debug, Clone, Copy, PartialEq, Eq, Structural)]
pub enum EngineCommand {
    Pause,
    Resume,
    /// Start animating the history entry at this position.
    LoadCommit(usize),
    ManualStep(StepMode),
    RestoreLineCheckpoint,
    RestoreChangeCheckpoint,
}

/// A key of the keyboard, as the controller sees it.
#[derive(Debug, Clone, Copy, PartialEq, Eq, Structural)]
pub enum KeyCode {
    Esc,
    Enter,
    Up,
    Down,
    Left,
    Right,
    Char(char),
    Other,
}

/// A key press: the key and whether Control was held.
#[derive(Debug, Clone, Copy, PartialEq, Eq, Structural)]
pub struct KeyEvent {
    pub code: KeyCode,
    pub ctrl: bool,
}

/// A terminal event: a key press, or anything else (resize, mouse...).
#[derive(Debug, Clone, Copy, PartialEq, Eq, Structural)]
pub enum Event {
    Key(KeyEvent),
    Other,
}

/// Where the next commit comes from.
#[derive(Debug, PartialEq, Eq)]
pub enum CommitSource {
    /// The working tree's diff.
    WorkingTree(DiffMode),
    /// The repository, with this request.
    Repository(CommitRequest),
}

/// What the caller does next to advance playback.
#[derive(Debug, PartialEq, Eq)]
pub enum AdvanceStep {
    /// Nothing to fetch.
    Idle,
    /// Fetch a commit from the source and report it with `complete_advance`.
    Fetch(CommitSource),
    /// Reset the repository's iteration, fetch again and report it.
    ResetAndRetry(CommitSource),
    /// Advancing ended: `true` when a commit was loaded.
    Done(bool),
}

/// Mathematical form of a commit source.
pub enum CommitSourceView {
    WorkingTree(DiffMode),
    Repository(CommitRequestView),
}

/// Mathematical form of an advance step.
pub enum AdvanceStepView {
    Idle,
    Fetch(CommitSourceView),
    ResetAndRetry(CommitSourceView),
    Done(bool),
}

impl View for CommitSource {
    type V = CommitSourceView;

    open spec fn view(&self) -> CommitSourceView {
        match self {
            CommitSource::WorkingTree(m) => CommitSourceView::WorkingTree(*m),
            CommitSource::Repository(r) => CommitSourceView::Repository(r@),
        }
    }
}

impl View for AdvanceStep {
    type V = AdvanceStepView;

    open spec fn view(&self) -> AdvanceStepView {
        match self {
            AdvanceStep::Idle => AdvanceStepView::Idle,
            AdvanceStep::Fetch(s) => AdvanceStepView::Fetch(s@),
            AdvanceStep::ResetAndRetry(s) => AdvanceStepView::ResetAndRetry(s@),
            AdvanceStep::Done(b) => AdvanceStepView::Done(*b),
        }
    }
}

/// The playback controller.
pub struct UI {
    state: UIState,
    speed_ms: u64,
    has_repo: bool,
    theme: Theme,
    order: PlaybackOrder,
    loop_playback: bool,
    commit_spec: Option<String>,
    is_range_mode: bool,
    diff_mode: Option<DiffMode>,
    playback_state: PlaybackState,
    history: Vec<CommitMetadata>,
    history_index: Option<usize>,
    menu_index: usize,
    prev_state: Option<UIState>,
    engine_commands: Vec<EngineCommand>,
}

/// Mathematical form of the controller.
pub struct UIView {
    pub state: UIState,
    pub speed_ms: u64,
    pub has_repo: bool,
    pub theme: Theme,
    pub order: PlaybackOrder,
    pub loop_playback: bool,
    pub commit_spec: Option<Seq<char>>,
    pub is_range_mode: bool,
    pub diff_mode: Option<DiffMode>,
    pub playback_state: PlaybackState,
    pub history: Seq<CommitMetadata>,
    pub history_index: Option<usize>,
    pub menu_index: usize,
    pub prev_state: Option<UIState>,
    pub engine_commands: Seq<EngineCommand>,
}

impl View for UI {
    type V = UIView;

    closed spec fn view(&self) -> UIView {
        UIView {
            state: self.state,
            speed_ms: self.speed_ms,
            has_repo: self.has_repo,
            theme: self.theme,
            order: self.order,
            loop_playback: self.loop_playback,
            commit_spec: match self.commit_spec {
                Some(s) => Some(s@),
                None => None,
            },
            is_range_mode: self.is_range_mode,
            diff_mode: self.diff_mode,
            playback_state: self.playback_state,
            history: self.history@,
            history_index: self.history_index,
            menu_index: self.menu_index,
            prev_state: self.prev_state,
            engine_commands: self.engine_commands@,
        }
    }
}

/// The controller's invariant: the history position is inside the history
/// and the menu selection is one of its three items.
pub open spec fn ui_inv(v: UIView) -> bool {
    &&& (v.history_index matches Some(i) ==> i < v.history.len())
    &&& v.menu_index <= 2
}

/// The engine command that matches the playback state.
pub open spec fn playback_command(p: PlaybackState) -> EngineCommand {
    match p {
        PlaybackState::Playing => EngineCommand::Resume,
        PlaybackState::Paused => EngineCommand::Pause,
    }
}

/// The history after recording a new commit: the entries after the
/// current position are dropped, then the commit is appended.
pub open spec fn recorded_history(h: Seq<CommitMetadata>, index: Option<usize>, m: CommitMetadata) -> Seq<CommitMetadata> {
    match index {
        Some(i) => if i + 1 < h.len() { h.take(i + 1).push(m) } else { h.push(m) },
        None => seq![m],
    }
}

/// The state the menu returns to: the one it was opened from (a pending
/// wait for the next commit becomes playing), playing when unknown.
pub open spec fn restored_state(prev: Option<UIState>) -> UIState {
    match prev {
        Some(UIState::WaitingForNext { .. }) => UIState::Playing,
        Some(s) => s,
        None => UIState::Playing,
    }
}

/// The menu item a selection opens: key bindings, about, or exit.
pub open spec fn menu_target(index: usize) -> UIState {
    if index == 0 {
        UIState::KeyBindings
    } else if index == 1 {
        UIState::About
    } else {
        UIState::Finished
    }
}

/// Control-C.
pub open spec fn ctrl_c(key: KeyEvent) -> bool {
    key.code == KeyCode::Char('c') && key.ctrl
}

/// A key that quits: `q` or Control-C.
pub open spec fn quit_key(key: KeyEvent) -> bool {
    key.code == KeyCode::Char('q') || ctrl_c(key)
}

/// The repository request of the controller's configuration.
pub open spec fn fetch_request_of(v: UIView) -> CommitRequestView {
    if v.is_range_mode {
        order_request(v.order, true)
    } else {
        match v.commit_spec {
            Some(s) => CommitRequestView::Specific(s),
            None => order_request(v.order, false),
        }
    }
}

/// Where the next commit comes from, or `None` when there is nowhere.
pub open spec fn next_source(v: UIView) -> Option<CommitSourceView> {
    match v.diff_mode {
        Some(m) => if v.has_repo { Some(CommitSourceView::WorkingTree(m)) } else { None },
        None => if v.has_repo { Some(CommitSourceView::Repository(fetch_request_of(v))) } else { None },
    }
}

/// The controller with the screen finished.
pub open spec fn finished(v: UIView) -> UIView {
    UIView { state: UIState::Finished, ..v }
}

/// The controller after opening the menu.
pub open spec fn menu_opened(v: UIView) -> UIView {
    UIView {
        state: UIState::Menu,
        prev_state: Some(v.state),
        menu_index: 0,
        engine_commands: v.engine_commands.push(EngineCommand::Pause),
        ..v
    }
}

/// The controller after closing the menu.
pub open spec fn menu_closed(v: UIView) -> UIView {
    UIView {
        state: restored_state(v.prev_state),
        prev_state: None,
        engine_commands: if v.playback_state == PlaybackState::Playing {
            v.engine_commands.push(EngineCommand::Resume)
        } else {
            v.engine_commands
        },
        ..v
    }
}

/// The controller after starting to play history entry `index`.
pub open spec fn entry_played(v: UIView, index: usize) -> UIView {
    UIView {
        state: UIState::Playing,
        history_index: Some(index),
        engine_commands: v.engine_commands.push(EngineCommand::LoadCommit(index)).push(
            playback_command(v.playback_state),
        ),
        ..v
    }
}

/// The controller after recording `m` in the history and playing it.
pub open spec fn commit_loaded(v: UIView, m: CommitMetadata) -> UIView {
    let h = recorded_history(v.history, v.history_index, m);
    entry_played(UIView { history: h, ..v }, (h.len() - 1) as usize)
}

/// The playback state after a toggle.
pub open spec fn toggled(p: PlaybackState) -> PlaybackState {
    match p {
        PlaybackState::Playing => PlaybackState::Paused,
        PlaybackState::Paused => PlaybackState::Playing,
    }
}

/// The controller after the user toggles pause.
pub open spec fn pause_toggled(v: UIView) -> UIView {
    UIView {
        playback_state: toggled(v.playback_state),
        engine_commands: v.engine_commands.push(playback_command(toggled(v.playback_state))),
        ..v
    }
}

/// The controller paused for manual stepping (the engine is told only when
/// it was playing).
pub open spec fn manually_paused(v: UIView) -> UIView {
    if v.playback_state == PlaybackState::Paused {
        v
    } else {
        UIView {
            playback_state: PlaybackState::Paused,
            engine_commands: v.engine_commands.push(EngineCommand::Pause),
            ..v
        }
    }
}

/// The controller after a manual step `cmd`, which pauses first.
pub open spec fn stepped(v: UIView, cmd: EngineCommand) -> UIView {
    let p = manually_paused(v);
    UIView { engine_commands: p.engine_commands.push(cmd), ..p }
}

/// The controller after "previous commit": the entry before the current
/// one, when there is one.
pub open spec fn went_back(v: UIView) -> UIView {
    match v.history_index {
        Some(i) => if i > 0 { entry_played(v, (i - 1) as usize) } else { v },
        None => v,
    }
}

/// The first step of advancing to a new commit: what to fetch, or the end.
pub open spec fn advance_started(v: UIView) -> (UIView, AdvanceStepView) {
    match next_source(v) {
        Some(src) => (v, AdvanceStepView::Fetch(src)),
        None => (finished(v), AdvanceStepView::Done(false)),
    }
}

/// The controller after "next commit": the entry after the current one
/// when the history has it; otherwise a new commit, when there is a source.
pub open spec fn went_forward(v: UIView) -> (UIView, AdvanceStepView) {
    match v.history_index {
        Some(i) if i + 1 < v.history.len() => (entry_played(v, (i + 1) as usize), AdvanceStepView::Idle),
        _ => if !v.has_repo && v.diff_mode is None {
            (v, AdvanceStepView::Idle)
        } else {
            advance_started(v)
        },
    }
}

/// What a fetched commit (or its absence) does: a working-tree diff plays
/// only when it changes something; a missing commit restarts the
/// repository's iteration once when looping, and otherwise ends playback.
pub open spec fn advance_completed(v: UIView, after_reset: bool, fetched: Option<CommitMetadata>) -> (
    UIView,
    AdvanceStepView,
) {
    match v.diff_mode {
        Some(_) => match fetched {
            Some(m) => if m.changes@.len() > 0 {
                (commit_loaded(v, m), AdvanceStepView::Done(true))
            } else {
                (finished(v), AdvanceStepView::Done(false))
            },
            None => (finished(v), AdvanceStepView::Done(false)),
        },
        None => match fetched {
            Some(m) => (commit_loaded(v, m), AdvanceStepView::Done(true)),
            None => if v.loop_playback && !after_reset {
                (v, AdvanceStepView::ResetAndRetry(CommitSourceView::Repository(fetch_request_of(v))))
            } else {
                (finished(v), AdvanceStepView::Done(false))
            },
        },
    }
}

/// A key in the menu: Esc closes it, Up/k and Down/j move the selection
/// within its three items, Enter opens the selected item.
pub open spec fn menu_key(v: UIView, code: KeyCode) -> UIView {
    match code {
        KeyCode::Esc => menu_closed(v),
        KeyCode::Up | KeyCode::Char('k') => UIView {
            menu_index: if v.menu_index == 0 { 0 } else { (v.menu_index - 1) as usize },
            ..v
        },
        KeyCode::Down | KeyCode::Char('j') => UIView {
            menu_index: if v.menu_index + 1 < 2 { (v.menu_index + 1) as usize } else { 2 },
            ..v
        },
        KeyCode::Enter => UIView { state: menu_target(v.menu_index), ..v },
        _ => v,
    }
}

/// A key on the key-bindings or about overlay: Esc, Enter or q go back to
/// the menu.
pub open spec fn overlay_key(v: UIView, code: KeyCode) -> UIView {
    match code {
        KeyCode::Esc | KeyCode::Enter | KeyCode::Char('q') => UIView { state: UIState::Menu, ..v },
        _ => v,
    }
}

/// A key while playing or waiting: Esc opens the menu, Space toggles
/// pause, q and Control-C quit, h/l step a line back/forward, H/L a
/// change, p/n go to the previous/next commit.
pub open spec fn playback_key(v: UIView, key: KeyEvent) -> (UIView, AdvanceStepView) {
    if key.code == KeyCode::Esc {
        (menu_opened(v), AdvanceStepView::Idle)
    } else if key.code == KeyCode::Char(' ') {
        (pause_toggled(v), AdvanceStepView::Idle)
    } else if ctrl_c(key) || key.code == KeyCode::Char('q') {
        (finished(v), AdvanceStepView::Idle)
    } else if key.code == KeyCode::Char('h') {
        (stepped(v, EngineCommand::RestoreLineCheckpoint), AdvanceStepView::Idle)
    } else if key.code == KeyCode::Char('l') {
        (stepped(v, EngineCommand::ManualStep(StepMode::Line)), AdvanceStepView::Idle)
    } else if key.code == KeyCode::Char('H') {
        (stepped(v, EngineCommand::RestoreChangeCheckpoint), AdvanceStepView::Idle)
    } else if key.code == KeyCode::Char('L') {
        (stepped(v, EngineCommand::ManualStep(StepMode::Change)), AdvanceStepView::Idle)
    } else if key.code == KeyCode::Char('p') {
        (went_back(v), AdvanceStepView::Idle)
    } else if key.code == KeyCode::Char('n') {
        went_forward(v)
    } else {
        (v, AdvanceStepView::Idle)
    }
}

/// What a key press does, by what the screen shows. On the finished
/// screen nothing changes (quit keys leave it finished).
pub open spec fn key_transition(v: UIView, key: KeyEvent) -> (UIView, AdvanceStepView) {
    match v.state {
        UIState::Menu => (menu_key(v, key.code), AdvanceStepView::Idle),
        UIState::KeyBindings | UIState::About => (overlay_key(v, key.code), AdvanceStepView::Idle),
        UIState::Finished => (v, AdvanceStepView::Idle),
        _ => playback_key(v, key),
    }
}

/// One tick of the main loop at time `now`: a finished animation waits
/// `speed_ms * 100` milliseconds for the next commit (or ends without a
/// repository); a wait that is over and not paused advances; the first
/// component is `false` once the screen is finished.
pub open spec fn tick_transition(v: UIView, now: u64, engine_finished: bool) -> (bool, UIView, AdvanceStepView) {
    match v.state {
        UIState::Playing => if engine_finished {
            if v.has_repo {
                (
                    true,
                    UIView { state: UIState::WaitingForNext { resume_at: (now + v.speed_ms * 100) as u64 }, ..v },
                    AdvanceStepView::Idle,
                )
            } else {
                (true, finished(v), AdvanceStepView::Idle)
            }
        } else {
            (true, v, AdvanceStepView::Idle)
        },
        UIState::WaitingForNext { resume_at } => if now >= resume_at && v.playback_state != PlaybackState::Paused {
            let (w, s) = advance_started(v);
            (true, w, s)
        } else {
            (true, v, AdvanceStepView::Idle)
        },
        UIState::Finished => (false, v, AdvanceStepView::Idle),
        _ => (true, v, AdvanceStepView::Idle),
    }
}

/// The tick at `now` can compute its resume time without overflow (needed
/// only when a finished animation starts the wait).
pub open spec fn tick_fits(v: UIView, now: u64) -> bool {
    now + v.speed_ms * 100 <= u64::MAX
}

/// Going back one commit and then forward one returns to the same history
/// entry, with the history unchanged and nothing to fetch.
pub proof fn lemma_back_then_forward(v: UIView)
    requires
        ui_inv(v),
        v.history_index matches Some(i) && i > 0,
    ensures
        went_forward(went_back(v)).0.history_index == v.history_index,
        went_forward(went_back(v)).0.history == v.history,
        went_forward(went_back(v)).1 == AdvanceStepView::Idle,
{
}

/// Loading a commit keeps the history up to the current entry, drops the
/// entries after it, and appends the commit, which becomes current.
pub proof fn lemma_load_drops_future(v: UIView, m: CommitMetadata)
    requires
        ui_inv(v),
        v.history_index matches Some(i),
    ensures
        commit_loaded(v, m).history == v.history.take(v.history_index->0 + 1).push(m),
        commit_loaded(v, m).history_index == Some((v.history_index->0 + 1) as usize),
        commit_loaded(v, m).state == UIState::Playing,
{
    let i = v.history_index->0;
    if i + 1 >= v.history.len() {
        assert(v.history.take(i + 1) =~= v.history);
    }
}

/// Toggling pause twice restores the playback state and leaves all but
/// the engine queue unchanged.
pub proof fn lemma_toggle_twice(v: UIView)
    ensures
        pause_toggled(pause_toggled(v)) == (UIView {
            engine_commands: pause_toggled(pause_toggled(v)).engine_commands,
            ..v
        }),
{
}

/// Opening and closing the menu returns to the state it was opened from
/// (a wait for the next commit comes back as playing), with the selection
/// on the first item.
pub proof fn lemma_menu_round_trip(v: UIView)
    ensures
        menu_closed(menu_opened(v)).state == restored_state(Some(v.state)),
        !(v.state is WaitingForNext) ==> menu_closed(menu_opened(v)).state == v.state,
        menu_closed(menu_opened(v)).prev_state is None,
        menu_closed(menu_opened(v)).menu_index == 0,
        menu_closed(menu_opened(v)).history == v.history,
        menu_closed(menu_opened(v)).playback_state == v.playback_state,
{
}

/// Every key keeps the controller's invariant.
pub proof fn lemma_key_keeps_invariant(v: UIView, key: KeyEvent)
    requires
        ui_inv(v),
    ensures
        ui_inv(key_transition(v, key).0),
{
}

/// While playing or waiting, `q` and Control-C finish the screen.
pub proof fn lemma_quit_keys_finish(v: UIView, key: KeyEvent)
    requires
        v.state is Playing || v.state is WaitingForNext,
        quit_key(key),
    ensures
        key_transition(v, key).0.state == UIState::Finished,
{
}

/// The finished screen is final: keys change nothing and the main loop
/// stops.
pub proof fn lemma_finished_is_final(v: UIView, key: KeyEvent, now: u64, engine_finished: bool)
    requires
        v.state == UIState::Finished,
    ensures
        key_transition(v, key).0 == v,
        !tick_transition(v, now, engine_finished).0,
        tick_transition(v, now, engine_finished).1 == v,
{
}

/// A paused controller never starts fetching on a tick.
pub proof fn lemma_paused_tick_fetches_nothing(v: UIView, now: u64, engine_finished: bool)
    requires
        v.playback_state == PlaybackState::Paused,
    ensures
        tick_transition(v, now, engine_finished).2 == AdvanceStepView::Idle,
{
}

/// What a tick does, by screen: the finished screen stops the loop and
/// stays; the menu and its boxes stay; a wait that is not over, or is
/// paused, stays; a wait that is over starts a fetch (or finishes when
/// there is no source), and completing that fetch either plays the commit
/// as a new last history entry, finishes with the history unchanged, or
/// asks for a reset and retry with nothing changed.
pub proof fn lemma_tick_outcomes(v: UIView, now: u64, engine_finished: bool, fetched: Option<CommitMetadata>)
    requires
        ui_inv(v),
    ensures
        v.state == UIState::Finished ==> !tick_transition(v, now, engine_finished).0
            && tick_transition(v, now, engine_finished).1 == v,
        v.state != UIState::Finished ==> tick_transition(v, now, engine_finished).0,
        (v.state is Menu || v.state is KeyBindings || v.state is About) ==> tick_transition(
            v,
            now,
            engine_finished,
        ).1 == v,
        (v.state matches UIState::WaitingForNext { resume_at } && (now < resume_at || v.playback_state
            == PlaybackState::Paused)) ==> tick_transition(v, now, engine_finished).1 == v
            && tick_transition(v, now, engine_finished).2 == AdvanceStepView::Idle,
        (v.state matches UIState::WaitingForNext { resume_at } && now >= resume_at && v.playback_state
            == PlaybackState::Playing) ==> {
            let t = tick_transition(v, now, engine_finished);
            let c = advance_completed(t.1, false, fetched);
            &&& (t.2 is Fetch && t.1 == v) || (t.2 == AdvanceStepView::Done(false) && t.1.state
                == UIState::Finished && t.1.history == v.history)
            &&& t.2 is Fetch ==> ((c.1 == AdvanceStepView::Done(true) && c.0.state == UIState::Playing
                && fetched is Some && c.0.history == recorded_history(v.history, v.history_index, fetched->0)
                && c.0.history_index == Some((c.0.history.len() - 1) as usize)) || (c.1
                == AdvanceStepView::Done(false) && c.0.state == UIState::Finished && c.0.history == v.history)
                || (c.1 is ResetAndRetry && c.0 == v))
        },
{
}

/// The commands a manual step queues: a pause first when playback was
/// running, then the step itself.
pub open spec fn step_commands(v: UIView, cmd: EngineCommand) -> Seq<EngineCommand> {
    v.engine_commands + (if v.playback_state == PlaybackState::Playing {
        seq![EngineCommand::Pause]
    } else {
        Seq::<EngineCommand>::empty()
    }) + seq![cmd]
}

/// While a commit plays or the next one is awaited, the stepping keys of
/// the key-bindings help step the animation, pausing playback first and
/// changing nothing else: `l` one line forward, `h` one line back, `L`
/// one change forward, `H` one change back (Control held or not).
pub proof fn lemma_step_keys(v: UIView, ctrl: bool)
    requires
        v.state is Playing || v.state is WaitingForNext,
    ensures
        key_transition(v, KeyEvent { code: KeyCode::Char('l'), ctrl }) == (
            UIView {
                playback_state: PlaybackState::Paused,
                engine_commands: step_commands(v, EngineCommand::ManualStep(StepMode::Line)),
                ..v
            },
            AdvanceStepView::Idle,
        ),
        key_transition(v, KeyEvent { code: KeyCode::Char('h'), ctrl }) == (
            UIView {
                playback_state: PlaybackState::Paused,
                engine_commands: step_commands(v, EngineCommand::RestoreLineCheckpoint),
                ..v
            },
            AdvanceStepView::Idle,
        ),
        key_transition(v, KeyEvent { code: KeyCode::Char('L'), ctrl }) == (
            UIView {
                playback_state: PlaybackState::Paused,
                engine_commands: step_commands(v, EngineCommand::ManualStep(StepMode::Change)),
                ..v
            },
            AdvanceStepView::Idle,
        ),
        key_transition(v, KeyEvent { code: KeyCode::Char('H'), ctrl }) == (
            UIView {
                playback_state: PlaybackState::Paused,
                engine_commands: step_commands(v, EngineCommand::RestoreChangeCheckpoint),
                ..v
            },
            AdvanceStepView::Idle,
        ),
{
    assert(step_commands(v, EngineCommand::ManualStep(StepMode::Line)) =~= stepped(
        v,
        EngineCommand::ManualStep(StepMode::Line),
    ).engine_commands);
    assert(step_commands(v, EngineCommand::RestoreLineCheckpoint) =~= stepped(
        v,
        EngineCommand::RestoreLineCheckpoint,
    ).engine_commands);
    assert(step_commands(v, EngineCommand::ManualStep(StepMode::Change)) =~= stepped(
        v,
        EngineCommand::ManualStep(StepMode::Change),
    ).engine_commands);
    assert(step_commands(v, EngineCommand::RestoreChangeCheckpoint) =~= stepped(
        v,
        EngineCommand::RestoreChangeCheckpoint,
    ).engine_commands);
}

/// While a commit plays or the next one is awaited, Space flips between
/// playing and paused and tells the engine (pause when it was playing,
/// resume when it was paused), changing nothing else; Esc opens the menu
/// over the current screen with playback paused; `p` plays the previous
/// history entry when there is one and changes nothing otherwise.
pub proof fn lemma_playback_keys(v: UIView, ctrl: bool)
    requires
        v.state is Playing || v.state is WaitingForNext,
    ensures
        key_transition(v, KeyEvent { code: KeyCode::Char(' '), ctrl }) == (
            UIView {
                playback_state: if v.playback_state == PlaybackState::Playing {
                    PlaybackState::Paused
                } else {
                    PlaybackState::Playing
                },
                engine_commands: v.engine_commands.push(
                    if v.playback_state == PlaybackState::Playing {
                        EngineCommand::Pause
                    } else {
                        EngineCommand::Resume
                    },
                ),
                ..v
            },
            AdvanceStepView::Idle,
        ),
        key_transition(v, KeyEvent { code: KeyCode::Esc, ctrl }).0.state == UIState::Menu,
        key_transition(v, KeyEvent { code: KeyCode::Esc, ctrl }).0.prev_state == Some(v.state),
        key_transition(v, KeyEvent { code: KeyCode::Esc, ctrl }).0.engine_commands == v.engine_commands.push(
            EngineCommand::Pause,
        ),
        (v.history_index matches Some(i) && i > 0) ==> {
            let w = key_transition(v, KeyEvent { code: KeyCode::Char('p'), ctrl }).0;
            let j = (v.history_index->0 - 1) as usize;
            &&& w.history_index == Some(j)
            &&& w.history == v.history
            &&& w.state == UIState::Playing
            &&& w.engine_commands.len() == v.engine_commands.len() + 2
            &&& w.engine_commands[v.engine_commands.len() as int] == EngineCommand::LoadCommit(j)
        },
        !(v.history_index matches Some(i) && i > 0) ==> key_transition(
            v,
            KeyEvent { code: KeyCode::Char('p'), ctrl },
        ).0 == v,
{
}

impl UI {
    /// A controller that plays, with an empty history.
    pub fn new(
        speed_ms: u64,
        has_repo: bool,
        theme: Theme,
        order: PlaybackOrder,
        loop_playback: bool,
        commit_spec: Option<String>,
        is_range_mode: bool,
    ) -> (ui: UI)
        ensures
            ui_inv(ui@),
            ui@ == (UIView {
                state: UIState::Playing,
                speed_ms,
                has_repo,
                theme,
                order,
                loop_playback,
                commit_spec: match commit_spec {
                    Some(s) => Some(s@),
                    None => None,
                },
                is_range_mode,
                diff_mode: None,
                playback_state: PlaybackState::Playing,
                history: Seq::empty(),
                history_index: None,
                menu_index: 0,
                prev_state: None,
                engine_commands: Seq::empty(),
            }),
    {
        UI {
            state: UIState::Playing,
            speed_ms,
            has_repo,
            theme,
            order,
            loop_playback,
            commit_spec,
            is_range_mode,
            diff_mode: None,
            playback_state: PlaybackState::Playing,
            history: Vec::new(),
            history_index: None,
            menu_index: 0,
            prev_state: None,
            engine_commands: Vec::new(),
        }
    }

    /// Sets the working-tree diff mode (`None` plays commits).
    pub fn set_diff_mode(&mut self, mode: Option<DiffMode>)
        ensures
            final(self)@ == (UIView { diff_mode: mode, ..old(self)@ }),
    {
        self.diff_mode = mode;
    }

    /// Opens the menu on its first item, remembering the current state, and
    /// pauses the engine.
    pub fn open_menu(&mut self)
        ensures
            final(self)@ == menu_opened(old(self)@),
    {
        self.prev_state = Some(self.state);
        self.menu_index = 0;
        self.state = UIState::Menu;
        self.engine_commands.push(EngineCommand::Pause);
    }

    /// Closes the menu: back to `restored_state`, resuming the engine
    /// unless the user paused playback.
    pub fn close_menu(&mut self)
        ensures
            final(self)@ == menu_closed(old(self)@),
    {
        let restored = match self.prev_state {
            Some(s) => s,
            None => UIState::Playing,
        };
        self.prev_state = None;
        self.state = match restored {
            UIState::WaitingForNext { .. } => UIState::Playing,
            other => other,
        };
        if self.playback_state == PlaybackState::Playing {
            self.engine_commands.push(EngineCommand::Resume);
        }
    }

    /// Records `metadata` in the history and starts playing it.
    pub fn load_commit(&mut self, metadata: CommitMetadata)
        requires
            ui_inv(old(self)@),
        ensures
            ui_inv(final(self)@),
            final(self)@ == commit_loaded(old(self)@, metadata),
    {
        self.record_history(metadata);
        let index = self.history.len() - 1;
        self.play_entry(index);
    }

    fn record_history(&mut self, metadata: CommitMetadata)
        requires
            ui_inv(old(self)@),
        ensures
            final(self)@ == (UIView {
                history: recorded_history(old(self)@.history, old(self)@.history_index, metadata),
                history_index: Some(
                    (recorded_history(old(self)@.history, old(self)@.history_index, metadata).len() - 1) as usize,
                ),
                ..old(self)@
            }),
            final(self)@.history.len() > 0,
    {
        match self.history_index {
            Some(index) => {
                let len = self.history.len();
                assert(self@.history_index == Some(index));
                if index + 1 < len {
                    self.history.truncate(index + 1);
                }
            },
            None => {
                self.history.clear();
            },
        }
        self.history.push(metadata);
        self.history_index = Some(self.history.len() - 1);
        proof {
            match old(self)@.history_index {
                Some(i) => {},
                None => {
                    assert(self.history@ =~= seq![metadata]);
                },
            }
        }
    }

    fn play_entry(&mut self, index: usize)
        requires
            index < old(self)@.history.len(),
        ensures
            final(self)@ == entry_played(old(self)@, index),
    {
        self.history_index = Some(index);
        self.engine_commands.push(EngineCommand::LoadCommit(index));
        match self.playback_state {
            PlaybackState::Playing => self.engine_commands.push(EngineCommand::Resume),
            PlaybackState::Paused => self.engine_commands.push(EngineCommand::Pause),
        }
        self.state = UIState::Playing;
    }

    /// Plays history entry `index` again, without recording it; `false`
    /// (and nothing changes) when there is no such entry.
    pub fn play_history_commit(&mut self, index: usize) -> (played: bool)
        requires
            ui_inv(old(self)@),
        ensures
            ui_inv(final(self)@),
            played == (index < old(self)@.history.len()),
            played ==> final(self)@ == entry_played(old(self)@, index),
            !played ==> final(self)@ == old(self)@,
    {
        if index < self.history.len() {
            self.play_entry(index);
            true
        } else {
            false
        }
    }

    /// Pauses a playing animation or resumes a paused one.
    pub fn toggle_pause(&mut self)
        ensures
            final(self)@ == pause_toggled(old(self)@),
    {
        match self.playback_state {
            PlaybackState::Playing => {
                self.playback_state = PlaybackState::Paused;
                self.engine_commands.push(EngineCommand::Pause);
            },
            PlaybackState::Paused => {
                self.playback_state = PlaybackState::Playing;
                self.engine_commands.push(EngineCommand::Resume);
            },
        }
    }

    /// Pauses playback before a manual step (nothing when already paused).
    pub fn ensure_manual_pause(&mut self)
        ensures
            final(self)@ == manually_paused(old(self)@),
    {
        if self.playback_state != PlaybackState::Paused {
            self.playback_state = PlaybackState::Paused;
            self.engine_commands.push(EngineCommand::Pause);
        }
    }

    fn step(&mut self, cmd: EngineCommand)
        ensures
            final(self)@ == stepped(old(self)@, cmd),
    {
        self.ensure_manual_pause();
        self.engine_commands.push(cmd);
    }

    /// Steps the animation one line forward, pausing playback.
    pub fn step_line(&mut self)
        ensures
            final(self)@ == stepped(old(self)@, EngineCommand::ManualStep(StepMode::Line)),
    {
        self.step(EngineCommand::ManualStep(StepMode::Line));
    }

    /// Steps the animation one change forward, pausing playback.
    pub fn step_change(&mut self)
        ensures
            final(self)@ == stepped(old(self)@, EngineCommand::ManualStep(StepMode::Change)),
    {
        self.step(EngineCommand::ManualStep(StepMode::Change));
    }

    /// Steps the animation one line back, pausing playback.
    pub fn step_line_back(&mut self)
        ensures
            final(self)@ == stepped(old(self)@, EngineCommand::RestoreLineCheckpoint),
    {
        self.step(EngineCommand::RestoreLineCheckpoint);
    }

    /// Steps the animation one change back, pausing playback.
    pub fn step_change_back(&mut self)
        ensures
            final(self)@ == stepped(old(self)@, EngineCommand::RestoreChangeCheckpoint),
    {
        self.step(EngineCommand::RestoreChangeCheckpoint);
    }

    /// Plays the previous history entry, when there is one.
    pub fn handle_prev(&mut self)
        requires
            ui_inv(old(self)@),
        ensures
            ui_inv(final(self)@),
            final(self)@ == went_back(old(self)@),
    {
        match self.history_index {
            Some(index) => {
                if index > 0 {
                    self.play_entry(index - 1);
                }
            },
            None => {},
        }
    }

    /// Plays the next history entry when there is one; otherwise starts
    /// advancing to a new commit, and says what to fetch.
    pub fn handle_next(&mut self) -> (step: AdvanceStep)
        requires
            ui_inv(old(self)@),
        ensures
            ui_inv(final(self)@),
            (final(self)@, step@) == went_forward(old(self)@),
    {
        match self.history_index {
            Some(index) => {
                let len = self.history.len();
                assert(self@.history_index == Some(index));
                if index + 1 < len {
                    self.play_entry(index + 1);
                    return AdvanceStep::Idle;
                }
            },
            None => {},
        }
        if !self.has_repo && self.diff_mode.is_none() {
            return AdvanceStep::Idle;
        }
        self.advance_to_next_commit()
    }

    /// The repository request for the next commit: the range's order in
    /// range mode, else the named commit, else the configured order.
    pub fn fetch_request(&self) -> (r: CommitRequest)
        ensures
            r@ == fetch_request_of(self@),
    {
        if self.is_range_mode {
            return request_for_order(self.order, true);
        }
        match &self.commit_spec {
            Some(spec) => CommitRequest::Specific(spec.clone()),
            None => request_for_order(self.order, false),
        }
    }

    /// Starts advancing to a new commit: says where to fetch it from, or
    /// finishes when there is no source.
    pub fn advance_to_next_commit(&mut self) -> (step: AdvanceStep)
        requires
            ui_inv(old(self)@),
        ensures
            ui_inv(final(self)@),
            (final(self)@, step@) == advance_started(old(self)@),
    {
        match self.diff_mode {
            Some(mode) => {
                if self.has_repo {
                    AdvanceStep::Fetch(CommitSource::WorkingTree(mode))
                } else {
                    self.state = UIState::Finished;
                    AdvanceStep::Done(false)
                }
            },
            None => {
                if self.has_repo {
                    let request = self.fetch_request();
                    AdvanceStep::Fetch(CommitSource::Repository(request))
                } else {
                    self.state = UIState::Finished;
                    AdvanceStep::Done(false)
                }
            },
        }
    }

    /// Finishes an advance with what the source gave (`None` for an
    /// error); `after_reset` tells that this was the fetch after a reset.
    pub fn complete_advance(&mut self, after_reset: bool, fetched: Option<CommitMetadata>) -> (step: AdvanceStep)
        requires
            ui_inv(old(self)@),
        ensures
            ui_inv(final(self)@),
            (final(self)@, step@) == advance_completed(old(self)@, after_reset, fetched),
    {
        match self.diff_mode {
            Some(_) => match fetched {
                Some(metadata) => {
                    if metadata.changes.len() > 0 {
                        self.load_commit(metadata);
                        AdvanceStep::Done(true)
                    } else {
                        self.state = UIState::Finished;
                        AdvanceStep::Done(false)
                    }
                },
                None => {
                    self.state = UIState::Finished;
                    AdvanceStep::Done(false)
                },
            },
            None => match fetched {
                Some(metadata) => {
                    self.load_commit(metadata);
                    AdvanceStep::Done(true)
                },
                None => {
                    if self.loop_playback && !after_reset {
                        let request = self.fetch_request();
                        AdvanceStep::ResetAndRetry(CommitSource::Repository(request))
                    } else {
                        self.state = UIState::Finished;
                        AdvanceStep::Done(false)
                    }
                },
            },
        }
    }

    fn select_menu_item(&mut self)
        ensures
            final(self)@ == (UIView { state: menu_target(old(self)@.menu_index), ..old(self)@ }),
    {
        self.state = if self.menu_index == 0 {
            UIState::KeyBindings
        } else if self.menu_index == 1 {
            UIState::About
        } else {
            UIState::Finished
        };
    }

    fn handle_menu_key(&mut self, code: KeyCode)
        requires
            ui_inv(old(self)@),
        ensures
            final(self)@ == menu_key(old(self)@, code),
    {
        match code {
            KeyCode::Esc => self.close_menu(),
            KeyCode::Up | KeyCode::Char('k') => {
                self.menu_index = if self.menu_index == 0 { 0 } else { self.menu_index - 1 };
            },
            KeyCode::Down | KeyCode::Char('j') => {
                self.menu_index = if self.menu_index + 1 < 2 { self.menu_index + 1 } else { 2 };
            },
            KeyCode::Enter => self.select_menu_item(),
            _ => {},
        }
    }

    fn handle_overlay_key(&mut self, code: KeyCode)
        ensures
            final(self)@ == overlay_key(old(self)@, code),
    {
        match code {
            KeyCode::Esc | KeyCode::Enter | KeyCode::Char('q') => {
                self.state = UIState::Menu;
            },
            _ => {},
        }
    }

    fn handle_playback_key(&mut self, key: KeyEvent) -> (step: AdvanceStep)
        requires
            ui_inv(old(self)@),
        ensures
            ui_inv(final(self)@),
            (final(self)@, step@) == playback_key(old(self)@, key),
    {
        if key.code == KeyCode::Esc {
            self.open_menu();
        } else if key.code == KeyCode::Char(' ') {
            self.toggle_pause();
        } else if Self::is_ctrl_c(key) || key.code == KeyCode::Char('q') {
            self.state = UIState::Finished;
        } else if key.code == KeyCode::Char('h') {
            self.step_line_back();
        } else if key.code == KeyCode::Char('l') {
            self.step_line();
        } else if key.code == KeyCode::Char('H') {
            self.step_change_back();
        } else if key.code == KeyCode::Char('L') {
            self.step_change();
        } else if key.code == KeyCode::Char('p') {
            self.handle_prev();
        } else if key.code == KeyCode::Char('n') {
            return self.handle_next();
        }
        AdvanceStep::Idle
    }

    /// Handles a key press by what the screen shows; says what to fetch
    /// when the key starts advancing to a new commit.
    pub fn handle_key_event(&mut self, key: KeyEvent) -> (step: AdvanceStep)
        requires
            ui_inv(old(self)@),
        ensures
            ui_inv(final(self)@),
            (final(self)@, step@) == key_transition(old(self)@, key),
    {
        match self.state {
            UIState::Menu => {
                self.handle_menu_key(key.code);
                AdvanceStep::Idle
            },
            UIState::KeyBindings | UIState::About => {
                self.handle_overlay_key(key.code);
                AdvanceStep::Idle
            },
            UIState::Finished => AdvanceStep::Idle,
            _ => self.handle_playback_key(key),
        }
    }

    /// Handles a terminal event: keys as `handle_key_event`, anything else
    /// is ignored.
    pub fn handle_event(&mut self, event: Event) -> (step: AdvanceStep)
        requires
            ui_inv(old(self)@),
        ensures
            ui_inv(final(self)@),
            (final(self)@, step@) == match event {
                Event::Key(key) => key_transition(old(self)@, key),
                Event::Other => (old(self)@, AdvanceStepView::Idle),
            },
    {
        match event {
            Event::Key(key) => self.handle_key_event(key),
            Event::Other => AdvanceStep::Idle,
        }
    }

    /// Control-C.
    pub fn is_ctrl_c(key: KeyEvent) -> (r: bool)
        ensures
            r == ctrl_c(key),
    {
        key.code == KeyCode::Char('c') && key.ctrl
    }

    /// `q` or Control-C.
    pub fn is_quit_key(key: KeyEvent) -> (r: bool)
        ensures
            r == quit_key(key),
    {
        key.code == KeyCode::Char('q') || Self::is_ctrl_c(key)
    }

    /// One tick of the main loop at `now` (milliseconds), given whether the
    /// animation has finished; returns whether the loop goes on, and what to
    /// fetch when the tick starts advancing.
    pub fn advance_state_after_tick(&mut self, now: u64, engine_finished: bool) -> (r: (bool, AdvanceStep))
        requires
            ui_inv(old(self)@),
            old(self)@.state == UIState::Playing && engine_finished && old(self)@.has_repo ==> tick_fits(
                old(self)@,
                now,
            ),
        ensures
            ui_inv(final(self)@),
            (r.0, final(self)@, r.1@) == tick_transition(old(self)@, now, engine_finished),
    {
        match self.state {
            UIState::Playing => {
                if engine_finished {
                    if self.has_repo {
                        self.state = UIState::WaitingForNext { resume_at: now + self.speed_ms * 100 };
                    } else {
                        self.state = UIState::Finished;
                    }
                }
                (true, AdvanceStep::Idle)
            },
            UIState::WaitingForNext { resume_at } => {
                if now >= resume_at && self.playback_state != PlaybackState::Paused {
                    let step = self.advance_to_next_commit();
                    (true, step)
                } else {
                    (true, AdvanceStep::Idle)
                }
            },
            UIState::Finished => (false, AdvanceStep::Idle),
            _ => (true, AdvanceStep::Idle),
        }
    }

    /// Finishes the screen once an exit was requested from outside.
    pub fn sync_exit_state(&mut self, exit_requested: bool)
        ensures
            final(self)@ == if exit_requested { finished(old(self)@) } else { old(self)@ },
    {
        if exit_requested {
            self.state = UIState::Finished;
        }
    }

    /// Hands out the queued engine commands, oldest first, and empties the
    /// queue.
    pub fn take_engine_commands(&mut self) -> (cmds: Vec<EngineCommand>)
        ensures
            cmds@ == old(self)@.engine_commands,
            final(self)@ == (UIView { engine_commands: Seq::empty(), ..old(self)@ }),
    {
        let mut cmds: Vec<EngineCommand> = Vec::new();
        std::mem::swap(&mut cmds, &mut self.engine_commands);
        cmds
    }

    /// What the screen shows.
    pub fn state(&self) -> (s: UIState)
        ensures
            s == self@.state,
    {
        self.state
    }

    /// Whether playback runs or is paused.
    pub fn playback_state(&self) -> (p: PlaybackState)
        ensures
            p == self@.playback_state,
    {
        self.playback_state
    }

    /// The position of the playing commit in the history.
    pub fn history_index(&self) -> (i: Option<usize>)
        ensures
            i == self@.history_index,
    {
        self.history_index
    }

    /// The selected menu item.
    pub fn menu_index(&self) -> (i: usize)
        ensures
            i == self@.menu_index,
    {
        self.menu_index
    }

    /// The state the menu was opened from.
    pub fn prev_state(&self) -> (s: Option<UIState>)
        ensures
            s == self@.prev_state,
    {
        self.prev_state
    }

    /// The played commits, oldest first.
    pub fn history(&self) -> (h: &Vec<CommitMetadata>)
        ensures
            h@ == self@.history,
    {
        &self.history
    }

    /// The colours the screen is drawn with.
    pub fn theme(&self) -> (t: Theme)
        ensures
            t == self@.theme,
    {
        self.theme
    }
}

} // verus!
