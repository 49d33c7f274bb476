use gitlogue::cli::PlaybackOrder;
use gitlogue::commit::{CommitMetadata, FileChange, FileStatus};
use gitlogue::player::{CommitRequest, DiffMode};
use gitlogue::theme::{Color, Theme};
use gitlogue::ui::{
    AdvanceStep, CommitSource, EngineCommand, Event, KeyCode, KeyEvent, PlaybackState, StepMode,
    UIState, UI,
};

fn theme() -> Theme {
    Theme {
        background_left: Color::Indexed(0),
        background_right: Color::Indexed(1),
        editor_line_number: Color::Indexed(2),
        editor_line_number_cursor: Color::Indexed(3),
        editor_separator: Color::Indexed(4),
        editor_cursor_char_bg: Color::Indexed(5),
        editor_cursor_char_fg: Color::Indexed(6),
        editor_cursor_line_bg: Color::Indexed(7),
        file_tree_added: Color::Indexed(8),
        file_tree_deleted: Color::Indexed(9),
        file_tree_modified: Color::Indexed(10),
        file_tree_renamed: Color::Indexed(11),
        file_tree_directory: Color::Indexed(12),
        file_tree_current_file_bg: Color::Indexed(13),
        file_tree_current_file_fg: Color::Indexed(14),
        file_tree_default: Color::Indexed(15),
        file_tree_stats_added: Color::Indexed(16),
        file_tree_stats_deleted: Color::Indexed(17),
        terminal_command: Color::Indexed(18),
        terminal_output: Color::Indexed(19),
        terminal_cursor_bg: Color::Indexed(20),
        terminal_cursor_fg: Color::Indexed(21),
        status_hash: Color::Indexed(22),
        status_author: Color::Indexed(23),
        status_date: Color::Indexed(24),
        status_message: Color::Indexed(25),
        status_no_commit: Color::Indexed(26),
        separator: Color::Indexed(27),
        syntax_keyword: Color::Indexed(28),
        syntax_type: Color::Indexed(29),
        syntax_function: Color::Indexed(30),
        syntax_variable: Color::Indexed(31),
        syntax_string: Color::Indexed(32),
        syntax_number: Color::Indexed(33),
        syntax_comment: Color::Indexed(34),
        syntax_operator: Color::Indexed(35),
        syntax_punctuation: Color::Indexed(36),
        syntax_constant: Color::Indexed(37),
        syntax_parameter: Color::Indexed(38),
        syntax_property: Color::Indexed(39),
        syntax_label: Color::Indexed(40),
    }
}

fn metadata(hash: &str, message: &str) -> CommitMetadata {
    CommitMetadata {
        hash: hash.to_string(),
        author: "Author".to_string(),
        date: 1_704_067_200,
        message: message.to_string(),
        changes: vec![],
    }
}

fn with_change(mut m: CommitMetadata) -> CommitMetadata {
    m.changes.push(FileChange { path: "src/lib.rs".to_string(), status: FileStatus::Modified, hunks: vec![] });
    m
}

fn test_ui_with_repo(has_repo: bool) -> UI {
    UI::new(16, has_repo, theme(), PlaybackOrder::Asc, false, None, false)
}

fn test_ui() -> UI {
    test_ui_with_repo(false)
}

fn key_event(code: KeyCode) -> KeyEvent {
    KeyEvent { code, ctrl: false }
}

fn ctrl_key_event(ch: char) -> KeyEvent {
    KeyEvent { code: KeyCode::Char(ch), ctrl: true }
}

fn hashes(ui: &UI) -> Vec<String> {
    ui.history().iter().map(|m| m.hash.clone()).collect()
}

#[test]
fn load_commit_tracks_history_navigation_and_truncates_future_entries() {
    let mut ui = test_ui();
    ui.load_commit(metadata("1111111", "first"));
    ui.load_commit(metadata("2222222", "second"));

    assert_eq!(ui.state(), UIState::Playing);
    assert_eq!(ui.history_index(), Some(1));
    assert_eq!(hashes(&ui), vec!["1111111", "2222222"]);

    ui.handle_prev();
    assert_eq!(ui.history_index(), Some(0));

    assert_eq!(ui.handle_next(), AdvanceStep::Idle);
    assert_eq!(ui.history_index(), Some(1));

    ui.handle_prev();
    ui.load_commit(metadata("3333333", "third"));
    assert_eq!(ui.history_index(), Some(1));
    assert_eq!(hashes(&ui), vec!["1111111", "3333333"]);
}

#[test]
fn load_commit_queues_engine_commands() {
    let mut ui = test_ui();
    ui.load_commit(metadata("1", "a"));
    assert_eq!(ui.take_engine_commands(), vec![EngineCommand::LoadCommit(0), EngineCommand::Resume]);
    ui.toggle_pause();
    ui.load_commit(metadata("2", "b"));
    assert_eq!(
        ui.take_engine_commands(),
        vec![EngineCommand::Pause, EngineCommand::LoadCommit(1), EngineCommand::Pause]
    );
    assert!(ui.take_engine_commands().is_empty());
}

#[test]
fn menu_round_trip_restores_playing_state_from_waiting() {
    let mut ui = test_ui_with_repo(true);
    ui.load_commit(metadata("1", "a"));
    assert_eq!(ui.advance_state_after_tick(1_000, true), (true, AdvanceStep::Idle));
    assert_eq!(ui.state(), UIState::WaitingForNext { resume_at: 1_000 + 1_600 });

    ui.handle_key_event(key_event(KeyCode::Esc));
    assert_eq!(ui.state(), UIState::Menu);
    assert_eq!(ui.menu_index(), 0);
    assert!(matches!(ui.prev_state(), Some(UIState::WaitingForNext { .. })));

    ui.handle_key_event(key_event(KeyCode::Esc));
    assert_eq!(ui.state(), UIState::Playing);
    assert!(ui.prev_state().is_none());
}

#[test]
fn close_menu_restores_previous_state_without_resuming_paused_playback() {
    let mut ui = test_ui();
    ui.toggle_pause();
    ui.open_menu();
    ui.handle_key_event(key_event(KeyCode::Down));
    ui.handle_key_event(key_event(KeyCode::Enter));
    assert_eq!(ui.state(), UIState::About);
    ui.open_menu();
    assert_eq!(ui.prev_state(), Some(UIState::About));
    ui.take_engine_commands();

    ui.close_menu();

    assert_eq!(ui.state(), UIState::About);
    assert!(ui.prev_state().is_none());
    assert_eq!(ui.playback_state(), PlaybackState::Paused);
    assert!(ui.take_engine_commands().is_empty());
}

#[test]
fn sync_exit_state_marks_ui_finished_only_after_signal_flag_is_set() {
    let mut ui = test_ui();

    ui.sync_exit_state(false);
    assert_eq!(ui.state(), UIState::Playing);

    ui.sync_exit_state(true);
    assert_eq!(ui.state(), UIState::Finished);
}

#[test]
fn handle_event_dispatches_keys_and_ignores_non_key_events() {
    let mut ignored_ui = test_ui();
    ignored_ui.handle_event(Event::Other);
    assert_eq!(ignored_ui.state(), UIState::Playing);

    let mut quit_ui = test_ui();
    quit_ui.handle_event(Event::Key(key_event(KeyCode::Char('q'))));
    assert_eq!(quit_ui.state(), UIState::Finished);
}

#[test]
fn handle_key_event_navigates_menu_and_dialogs() {
    let mut ui = test_ui();
    ui.open_menu();

    ui.handle_key_event(key_event(KeyCode::Down));
    ui.handle_key_event(key_event(KeyCode::Char('j')));
    ui.handle_key_event(key_event(KeyCode::Down));
    assert_eq!(ui.menu_index(), 2);

    ui.handle_key_event(key_event(KeyCode::Up));
    ui.handle_key_event(key_event(KeyCode::Char('k')));
    assert_eq!(ui.menu_index(), 0);
    ui.handle_key_event(key_event(KeyCode::Up));
    assert_eq!(ui.menu_index(), 0);

    ui.handle_key_event(key_event(KeyCode::Enter));
    assert_eq!(ui.state(), UIState::KeyBindings);

    ui.handle_key_event(key_event(KeyCode::Char('q')));
    assert_eq!(ui.state(), UIState::Menu);

    ui.handle_key_event(key_event(KeyCode::Down));
    ui.handle_key_event(key_event(KeyCode::Enter));
    assert_eq!(ui.state(), UIState::About);

    ui.handle_key_event(key_event(KeyCode::Enter));
    assert_eq!(ui.state(), UIState::Menu);

    ui.handle_key_event(key_event(KeyCode::Down));
    ui.handle_key_event(key_event(KeyCode::Enter));
    assert_eq!(ui.state(), UIState::Finished);
}

#[test]
fn handle_key_event_ignores_irrelevant_menu_overlay_and_finished_keys() {
    let mut menu_ui = test_ui();
    menu_ui.open_menu();
    menu_ui.handle_key_event(key_event(KeyCode::Down));
    menu_ui.handle_key_event(key_event(KeyCode::Left));
    assert_eq!(menu_ui.menu_index(), 1);

    let mut overlay_ui = test_ui();
    overlay_ui.open_menu();
    overlay_ui.handle_key_event(key_event(KeyCode::Down));
    overlay_ui.handle_key_event(key_event(KeyCode::Enter));
    overlay_ui.handle_key_event(key_event(KeyCode::Left));
    assert_eq!(overlay_ui.state(), UIState::About);

    let mut finished_ui = test_ui();
    finished_ui.sync_exit_state(true);
    finished_ui.handle_key_event(key_event(KeyCode::Left));
    assert_eq!(finished_ui.state(), UIState::Finished);
}

#[test]
fn toggle_pause_and_manual_pause_update_playback_state() {
    let mut ui = test_ui();

    ui.toggle_pause();
    assert_eq!(ui.playback_state(), PlaybackState::Paused);

    ui.ensure_manual_pause();
    assert_eq!(ui.playback_state(), PlaybackState::Paused);

    ui.toggle_pause();
    assert_eq!(ui.playback_state(), PlaybackState::Playing);
    assert_eq!(ui.take_engine_commands(), vec![EngineCommand::Pause, EngineCommand::Resume]);
}

#[test]
fn step_helpers_pause_playback_without_needing_checkpoints() {
    let mut ui = test_ui();

    ui.step_line();
    ui.step_change();
    ui.step_line_back();
    ui.step_change_back();

    assert_eq!(ui.playback_state(), PlaybackState::Paused);
    assert_eq!(ui.state(), UIState::Playing);
    assert_eq!(
        ui.take_engine_commands(),
        vec![
            EngineCommand::Pause,
            EngineCommand::ManualStep(StepMode::Line),
            EngineCommand::ManualStep(StepMode::Change),
            EngineCommand::RestoreLineCheckpoint,
            EngineCommand::RestoreChangeCheckpoint,
        ]
    );
}

#[test]
fn advance_to_next_commit_without_repo_finishes_ui() {
    let mut default_ui = test_ui();
    assert_eq!(default_ui.advance_to_next_commit(), AdvanceStep::Done(false));
    assert_eq!(default_ui.state(), UIState::Finished);

    let mut diff_ui = test_ui();
    diff_ui.set_diff_mode(Some(DiffMode::Staged));
    assert_eq!(diff_ui.advance_to_next_commit(), AdvanceStep::Done(false));
    assert_eq!(diff_ui.state(), UIState::Finished);
}

#[test]
fn history_navigation_bounds_are_noops_without_targets() {
    let mut ui = test_ui();

    assert!(!ui.play_history_commit(0));

    ui.load_commit(metadata("1111111", "only"));
    ui.handle_prev();
    assert_eq!(ui.handle_next(), AdvanceStep::Idle);

    assert_eq!(ui.history_index(), Some(0));
    assert_eq!(ui.state(), UIState::Playing);
}

#[test]
fn handle_prev_without_history_and_manual_shortcuts_are_safe() {
    let mut ui = test_ui();
    ui.handle_prev();
    ui.handle_key_event(key_event(KeyCode::Char('h')));
    ui.handle_key_event(key_event(KeyCode::Char('H')));
    ui.handle_key_event(key_event(KeyCode::Char('L')));
    ui.handle_key_event(key_event(KeyCode::Char('x')));
    ui.handle_key_event(key_event(KeyCode::Up));

    assert_eq!(ui.playback_state(), PlaybackState::Paused);
    assert_eq!(ui.state(), UIState::Playing);
    assert!(ui.history_index().is_none());
}

#[test]
fn handle_key_event_maps_playback_shortcuts() {
    let mut ui = test_ui();
    ui.load_commit(metadata("1111111", "first"));
    ui.load_commit(metadata("2222222", "second"));

    ui.handle_key_event(key_event(KeyCode::Char(' ')));
    assert_eq!(ui.playback_state(), PlaybackState::Paused);

    ui.handle_key_event(key_event(KeyCode::Char('p')));
    assert_eq!(ui.history_index(), Some(0));

    ui.handle_key_event(key_event(KeyCode::Char('n')));
    assert_eq!(ui.history_index(), Some(1));

    ui.handle_key_event(key_event(KeyCode::Char('l')));
    assert_eq!(ui.playback_state(), PlaybackState::Paused);

    ui.handle_key_event(key_event(KeyCode::Esc));
    assert_eq!(ui.state(), UIState::Menu);
}

#[test]
fn handle_key_event_quit_shortcuts_finish_ui() {
    let mut playing_ui = test_ui();
    playing_ui.handle_key_event(ctrl_key_event('c'));
    assert_eq!(playing_ui.state(), UIState::Finished);

    let mut quit_ui = test_ui();
    quit_ui.handle_key_event(key_event(KeyCode::Char('q')));
    assert_eq!(quit_ui.state(), UIState::Finished);

    let mut finished_ui = test_ui();
    finished_ui.sync_exit_state(true);
    finished_ui.handle_key_event(ctrl_key_event('c'));
    assert_eq!(finished_ui.state(), UIState::Finished);
}

#[test]
fn key_helpers_only_treat_expected_inputs_as_quit_shortcuts() {
    assert!(UI::is_ctrl_c(ctrl_key_event('c')));
    assert!(!UI::is_ctrl_c(key_event(KeyCode::Char('c'))));
    assert!(!UI::is_ctrl_c(ctrl_key_event('x')));

    assert!(UI::is_quit_key(key_event(KeyCode::Char('q'))));
    assert!(UI::is_quit_key(ctrl_key_event('c')));
    assert!(!UI::is_quit_key(key_event(KeyCode::Enter)));
}

#[test]
fn advance_uses_repo_order_and_finishes_after_last_commit() {
    let mut ui = test_ui_with_repo(true);
    assert_eq!(
        ui.advance_to_next_commit(),
        AdvanceStep::Fetch(CommitSource::Repository(CommitRequest::NextAsc))
    );
    assert_eq!(ui.complete_advance(false, Some(metadata("a", "first"))), AdvanceStep::Done(true));
    assert_eq!(hashes(&ui), vec!["a"]);
    assert_eq!(ui.complete_advance(false, None), AdvanceStep::Done(false));
    assert_eq!(ui.state(), UIState::Finished);
}

#[test]
fn advance_restarts_from_beginning_when_looping() {
    let mut ui = UI::new(16, true, theme(), PlaybackOrder::Desc, true, None, false);
    assert_eq!(
        ui.advance_to_next_commit(),
        AdvanceStep::Fetch(CommitSource::Repository(CommitRequest::NextDesc))
    );
    assert_eq!(ui.complete_advance(false, Some(metadata("only", "only"))), AdvanceStep::Done(true));
    assert_eq!(
        ui.complete_advance(false, None),
        AdvanceStep::ResetAndRetry(CommitSource::Repository(CommitRequest::NextDesc))
    );
    assert_eq!(ui.complete_advance(true, Some(metadata("only", "only"))), AdvanceStep::Done(true));
    assert_eq!(hashes(&ui), vec!["only", "only"]);
    assert_eq!(ui.state(), UIState::Playing);
}

#[test]
fn advance_finishes_when_loop_reset_cannot_fetch() {
    let mut ui = UI::new(16, true, theme(), PlaybackOrder::Asc, true, Some("missing".to_string()), false);
    assert_eq!(
        ui.advance_to_next_commit(),
        AdvanceStep::Fetch(CommitSource::Repository(CommitRequest::Specific("missing".to_string())))
    );
    assert!(matches!(ui.complete_advance(false, None), AdvanceStep::ResetAndRetry(_)));
    assert_eq!(ui.complete_advance(true, None), AdvanceStep::Done(false));
    assert_eq!(ui.state(), UIState::Finished);
}

#[test]
fn fetch_request_supports_random_commit_specs_and_ranges() {
    let random_ui = UI::new(16, true, theme(), PlaybackOrder::Random, false, None, false);
    assert_eq!(random_ui.fetch_request(), CommitRequest::Random);
    let commit_ui = UI::new(16, true, theme(), PlaybackOrder::Random, false, Some("abc".to_string()), false);
    assert_eq!(commit_ui.fetch_request(), CommitRequest::Specific("abc".to_string()));
    let range_random = UI::new(16, true, theme(), PlaybackOrder::Random, false, Some("a..b".to_string()), true);
    assert_eq!(range_random.fetch_request(), CommitRequest::RandomInRange);
    let range_asc = UI::new(16, true, theme(), PlaybackOrder::Asc, false, Some("a..b".to_string()), true);
    assert_eq!(range_asc.fetch_request(), CommitRequest::NextInRangeAsc);
    let range_desc = UI::new(16, true, theme(), PlaybackOrder::Desc, false, Some("a..b".to_string()), true);
    assert_eq!(range_desc.fetch_request(), CommitRequest::NextInRangeDesc);
}

#[test]
fn diff_mode_refreshes_working_tree_and_finishes_when_clean() {
    let mut clean_ui = test_ui_with_repo(true);
    clean_ui.set_diff_mode(Some(DiffMode::Staged));
    assert_eq!(
        clean_ui.advance_to_next_commit(),
        AdvanceStep::Fetch(CommitSource::WorkingTree(DiffMode::Staged))
    );
    assert_eq!(clean_ui.complete_advance(false, Some(metadata("working-tree", "Staged changes"))), AdvanceStep::Done(false));
    assert_eq!(clean_ui.state(), UIState::Finished);

    let mut dirty_ui = test_ui_with_repo(true);
    dirty_ui.set_diff_mode(Some(DiffMode::Staged));
    dirty_ui.advance_to_next_commit();
    assert_eq!(
        dirty_ui.complete_advance(false, Some(with_change(metadata("working-tree", "Staged changes")))),
        AdvanceStep::Done(true)
    );
    let last = dirty_ui.history().last().unwrap();
    assert_eq!((last.hash.as_str(), last.message.as_str()), ("working-tree", "Staged changes"));

    let mut failed_ui = test_ui_with_repo(true);
    failed_ui.set_diff_mode(Some(DiffMode::Unstaged));
    assert_eq!(failed_ui.complete_advance(false, None), AdvanceStep::Done(false));
    assert_eq!(failed_ui.state(), UIState::Finished);
}

#[test]
fn handle_next_advances_repo_when_history_has_no_future() {
    let mut ui = test_ui_with_repo(true);
    assert_eq!(
        ui.handle_next(),
        AdvanceStep::Fetch(CommitSource::Repository(CommitRequest::NextAsc))
    );
    ui.complete_advance(false, Some(metadata("first", "first")));
    assert_eq!(hashes(&ui), vec!["first"]);
    assert_eq!(ui.state(), UIState::Playing);
}

#[test]
fn advance_state_after_tick_transitions_finished_playback_to_waiting_or_finished() {
    let mut standalone_ui = test_ui();
    assert_eq!(standalone_ui.advance_state_after_tick(500, true), (true, AdvanceStep::Idle));
    assert_eq!(standalone_ui.state(), UIState::Finished);

    let mut repo_ui = test_ui_with_repo(true);
    assert_eq!(repo_ui.advance_state_after_tick(500, false), (true, AdvanceStep::Idle));
    assert_eq!(repo_ui.state(), UIState::Playing);
    assert_eq!(repo_ui.advance_state_after_tick(500, true), (true, AdvanceStep::Idle));
    assert_eq!(repo_ui.state(), UIState::WaitingForNext { resume_at: 500 + 16 * 100 });
}

#[test]
fn advance_state_after_tick_waits_while_paused_and_advances_when_resumed() {
    let mut ui = test_ui_with_repo(true);
    ui.advance_state_after_tick(0, true);
    ui.toggle_pause();

    assert_eq!(ui.advance_state_after_tick(5_000, false), (true, AdvanceStep::Idle));
    assert!(matches!(ui.state(), UIState::WaitingForNext { .. }));
    assert!(ui.history().is_empty());

    ui.toggle_pause();
    assert_eq!(
        ui.advance_state_after_tick(5_000, false),
        (true, AdvanceStep::Fetch(CommitSource::Repository(CommitRequest::NextAsc)))
    );
    ui.complete_advance(false, Some(metadata("first", "first")));
    assert_eq!(ui.state(), UIState::Playing);
    assert_eq!(hashes(&ui), vec!["first"]);
}

#[test]
fn advance_state_after_tick_keeps_waiting_before_resume_deadline() {
    let mut ui = test_ui_with_repo(true);
    ui.advance_state_after_tick(1_000, true);
    assert_eq!(ui.advance_state_after_tick(2_599, false), (true, AdvanceStep::Idle));
    assert!(matches!(ui.state(), UIState::WaitingForNext { .. }));
    assert!(ui.history().is_empty());
}

#[test]
fn advance_state_after_tick_stops_loop_once_ui_is_finished() {
    let mut ui = test_ui();
    ui.sync_exit_state(true);

    assert_eq!(ui.advance_state_after_tick(0, false), (false, AdvanceStep::Idle));
}
