use seat_sync::design_commands::{
    add_phase, add_rnbo_file, add_sheet_file, assign_selected_file_to_seat, clear_current_phase,
    clear_selected_file, edit_phase, get_assignments_for_phase, get_current_phase, get_rnbo_item,
    get_selected_file, get_session_config, get_sheet_item, load_session_from_file, remove_phase,
    remove_rnbo_file, remove_sheet_file, save_session_to_file, select_palette_file,
    set_current_phase, set_session_config, unassign_file_from_seat,
};
use seat_sync::state::{
    AppState, PhaseInit, PhaseUpdate, RNBOPaletteItem, SessionConfig, SheetPaletteItem,
};
use seat_sync::text::is_blank;

fn config(rows: usize, columns: usize) -> SessionConfig {
    SessionConfig { name: "show".to_string(), path: "/tmp/show.json".to_string(), rows, columns }
}

fn init(id: &str, name: &str) -> PhaseInit {
    PhaseInit { id: id.to_string(), name: name.to_string(), bpm: 100, count_in: 2, index: 1 }
}

fn patch(id: &str, label: &str) -> RNBOPaletteItem {
    RNBOPaletteItem {
        id: id.to_string(),
        label: label.to_string(),
        color: "red".to_string(),
        path: format!("/patches/{}", label),
    }
}

fn sheet(id: &str, label: &str) -> SheetPaletteItem {
    SheetPaletteItem {
        id: id.to_string(),
        label: label.to_string(),
        color: "blue".to_string(),
        path: format!("/sheets/{}", label),
    }
}

fn state_with_grid() -> AppState {
    let mut state = AppState::default();
    set_session_config(&mut state, config(2, 3));
    state
}

#[test]
fn default_state_is_empty() {
    let state = AppState::default();
    assert!(state.session.is_none());
    assert!(state.selected_file.is_none());
    assert!(state.rnbo_patches.is_empty());
    assert!(state.sheet_music.is_empty());
    assert_eq!(state.phases.len(), 0);
    assert!(state.current_phase_id.is_none());
    assert!(get_session_config(&state).is_none());
    assert!(get_current_phase(&state).is_none());
    assert!(get_selected_file(&state).is_none());
}

#[test]
fn session_config_is_set_and_read() {
    let state = state_with_grid();
    let read = get_session_config(&state).unwrap();
    assert_eq!(read.name, "show");
    assert_eq!(read.path, "/tmp/show.json");
    assert_eq!((read.rows, read.columns), (2, 3));
}

#[test]
fn add_phase_gives_every_seat_an_empty_assignment() {
    let mut state = state_with_grid();
    assert_eq!(add_phase(&mut state, init("opening", "Opening")), Ok(()));
    assert_eq!(state.phases.len(), 1);
    let phase = state.phases.get("opening").unwrap();
    assert_eq!(phase.name, "Opening");
    assert_eq!((phase.bpm, phase.count_in, phase.index), (100, 2, 1));
    assert_eq!(phase.assignments.len(), 6);
    assert!(phase.assignments.iter().all(|a| a.rnbo_id.is_none() && a.sheet_id.is_none()));
}

#[test]
fn add_phase_fails_for_a_used_id_and_without_session() {
    let mut state = AppState::default();
    assert_eq!(
        add_phase(&mut state, init("opening", "x")).unwrap_err(),
        "Session config is not set yet."
    );
    set_session_config(&mut state, config(1, 1));
    assert_eq!(add_phase(&mut state, init("opening", "x")), Ok(()));
    assert_eq!(
        add_phase(&mut state, init("opening", "y")).unwrap_err(),
        "Phase already exists with that ID"
    );
    assert_eq!(state.phases.get("opening").unwrap().name, "x");
    state.session = None;
    assert_eq!(
        add_phase(&mut state, init("opening", "z")).unwrap_err(),
        "Phase already exists with that ID"
    );
}

#[test]
fn remove_phase_clears_the_current_phase_only_if_it_was_current() {
    let mut state = state_with_grid();
    add_phase(&mut state, init("a", "A")).unwrap();
    add_phase(&mut state, init("b", "B")).unwrap();
    add_phase(&mut state, init("c", "C")).unwrap();
    set_current_phase(&mut state, "b").unwrap();
    assert_eq!(remove_phase(&mut state, "a"), Ok(()));
    assert_eq!(get_current_phase(&state).as_deref(), Some("b"));
    assert_eq!(remove_phase(&mut state, "a").unwrap_err(), "Phase not found.");
    assert_eq!(remove_phase(&mut state, "b"), Ok(()));
    assert_eq!(get_current_phase(&state), None);
    assert_eq!(state.phases.len(), 1);
    assert_eq!(state.phases.key_at(0), "c");
}

#[test]
fn edit_phase_changes_what_the_update_names() {
    let mut state = state_with_grid();
    add_phase(&mut state, init("a", "A")).unwrap();
    add_phase(&mut state, init("b", "B")).unwrap();
    let update = PhaseUpdate { name: Some("Finale".to_string()), bpm: None, count_in: Some(8) };
    assert_eq!(edit_phase(&mut state, "a", update), Ok(()));
    let phase = state.phases.get("a").unwrap();
    assert_eq!(phase.name, "Finale");
    assert_eq!((phase.bpm, phase.count_in, phase.index), (100, 8, 1));
    assert_eq!(phase.assignments.len(), 6);
    let update = PhaseUpdate { name: None, bpm: Some(72), count_in: None };
    assert_eq!(edit_phase(&mut state, "a", update), Ok(()));
    let phase = state.phases.get("a").unwrap();
    assert_eq!(phase.name, "Finale");
    assert_eq!((phase.bpm, phase.count_in), (72, 8));
    assert_eq!(state.phases.get("b").unwrap().name, "B");
    assert_eq!(state.phases.key_at(0), "a");
    let update = PhaseUpdate { name: None, bpm: None, count_in: None };
    assert_eq!(edit_phase(&mut state, "zz", update).unwrap_err(), "Phase not found.");
}

#[test]
fn edit_phase_replaces_a_blank_name() {
    let mut state = state_with_grid();
    add_phase(&mut state, init("a", "A")).unwrap();
    for blank in ["", "   ", "\t\n", "\u{a0}\u{2003}\u{3000}"] {
        let update = PhaseUpdate { name: Some(blank.to_string()), bpm: None, count_in: None };
        edit_phase(&mut state, "a", update).unwrap();
        assert_eq!(state.phases.get("a").unwrap().name, "(untitled phase)");
    }
    let update = PhaseUpdate { name: Some("  x ".to_string()), bpm: None, count_in: None };
    edit_phase(&mut state, "a", update).unwrap();
    assert_eq!(state.phases.get("a").unwrap().name, "  x ");
}

#[test]
fn is_blank_agrees_with_trim() {
    for code in 0u32..0x3100 {
        if let Some(c) = char::from_u32(code) {
            let text = c.to_string();
            assert_eq!(is_blank(&text), text.trim().is_empty(), "code point {:x}", code);
            assert_eq!(is_blank(&text), c.is_whitespace(), "code point {:x}", code);
        }
    }
    assert!(is_blank(""));
    assert!(!is_blank(" a "));
    assert!(!is_blank("\u{200b}"));
    assert!(!is_blank("\u{feff}"));
}

#[test]
fn current_phase_is_set_cleared_and_checked() {
    let mut state = state_with_grid();
    add_phase(&mut state, init("a", "A")).unwrap();
    assert_eq!(set_current_phase(&mut state, "b").unwrap_err(), "Phase ID not found.");
    assert_eq!(get_current_phase(&state), None);
    assert_eq!(set_current_phase(&mut state, "a"), Ok(()));
    assert_eq!(get_current_phase(&state).as_deref(), Some("a"));
    clear_current_phase(&mut state);
    assert_eq!(get_current_phase(&state), None);
}

#[test]
fn palette_items_are_added_in_order_and_found_first() {
    let mut state = AppState::default();
    add_rnbo_file(&mut state, patch("r1", "one"));
    add_rnbo_file(&mut state, patch("r2", "two"));
    add_rnbo_file(&mut state, patch("r1", "again"));
    add_sheet_file(&mut state, sheet("s1", "score"));
    assert_eq!(state.rnbo_patches.len(), 3);
    assert_eq!(get_rnbo_item(&state, "r1").unwrap().label, "one");
    assert_eq!(get_rnbo_item(&state, "r2").unwrap().path, "/patches/two");
    assert_eq!(get_rnbo_item(&state, "s1").unwrap_err(), "No RNBO item found with id s1");
    assert_eq!(get_sheet_item(&state, "s1").unwrap().label, "score");
    assert_eq!(get_sheet_item(&state, "r1").unwrap_err(), "No sheet item found with id r1");
    assert_eq!(get_sheet_item(&state, "").unwrap_err(), "No sheet item found with id ");
}

#[test]
fn select_palette_file_picks_up_the_first_item() {
    let mut state = AppState::default();
    add_rnbo_file(&mut state, patch("x", "patch x"));
    add_rnbo_file(&mut state, patch("x", "second x"));
    add_sheet_file(&mut state, sheet("x", "sheet x"));
    assert_eq!(select_palette_file(&mut state, "x", "rnbo"), Ok(()));
    let selected = get_selected_file(&state).unwrap();
    assert_eq!(selected.id, "x");
    assert_eq!(selected.label, "patch x");
    assert_eq!(selected.path, "/patches/patch x");
    assert_eq!(selected.color, "red");
    assert_eq!(selected.file_type, "rnbo");
    assert_eq!(select_palette_file(&mut state, "x", "sheet"), Ok(()));
    let selected = get_selected_file(&state).unwrap();
    assert_eq!(selected.label, "sheet x");
    assert_eq!(selected.color, "blue");
    assert_eq!(selected.file_type, "sheet");
    assert_eq!(select_palette_file(&mut state, "y", "rnbo").unwrap_err(), "RNBO file not found");
    assert_eq!(select_palette_file(&mut state, "y", "sheet").unwrap_err(), "Sheet file not found");
    assert_eq!(select_palette_file(&mut state, "x", "patch").unwrap_err(), "Invalid type");
    assert_eq!(get_selected_file(&state).unwrap().label, "sheet x");
    clear_selected_file(&mut state);
    assert!(get_selected_file(&state).is_none());
}

#[test]
fn assignments_are_set_and_taken_away() {
    let mut state = state_with_grid();
    add_phase(&mut state, init("a", "A")).unwrap();
    add_phase(&mut state, init("b", "B")).unwrap();
    assert_eq!(assign_selected_file_to_seat(&mut state, "a", 2, "r1", "rnbo"), Ok(()));
    assert_eq!(assign_selected_file_to_seat(&mut state, "a", 2, "s1", "sheet"), Ok(()));
    assert_eq!(assign_selected_file_to_seat(&mut state, "a", 5, "s9", "sheet"), Ok(()));
    let seats = get_assignments_for_phase(&state, "a").unwrap();
    assert_eq!(seats.len(), 6);
    assert_eq!(seats[2].rnbo_id.as_deref(), Some("r1"));
    assert_eq!(seats[2].sheet_id.as_deref(), Some("s1"));
    assert_eq!(seats[5].rnbo_id, None);
    assert_eq!(seats[5].sheet_id.as_deref(), Some("s9"));
    assert!(seats[0].rnbo_id.is_none() && seats[0].sheet_id.is_none());
    let other = get_assignments_for_phase(&state, "b").unwrap();
    assert!(other.iter().all(|a| a.rnbo_id.is_none() && a.sheet_id.is_none()));

    assert_eq!(unassign_file_from_seat(&mut state, "a", 2, "rnbo"), Ok(()));
    let seats = get_assignments_for_phase(&state, "a").unwrap();
    assert_eq!(seats[2].rnbo_id, None);
    assert_eq!(seats[2].sheet_id.as_deref(), Some("s1"));
    assert_eq!(unassign_file_from_seat(&mut state, "a", 2, "sheet"), Ok(()));
    assert_eq!(get_assignments_for_phase(&state, "a").unwrap()[2].sheet_id, None);
}

#[test]
fn assignment_errors_come_in_order() {
    let mut state = state_with_grid();
    add_phase(&mut state, init("a", "A")).unwrap();
    assert_eq!(
        assign_selected_file_to_seat(&mut state, "zz", 99, "r", "video").unwrap_err(),
        "Phase not found"
    );
    assert_eq!(
        assign_selected_file_to_seat(&mut state, "a", 6, "r", "video").unwrap_err(),
        "Invalid seat index"
    );
    assert_eq!(
        assign_selected_file_to_seat(&mut state, "a", 5, "r", "video").unwrap_err(),
        "Invalid file type"
    );
    assert_eq!(unassign_file_from_seat(&mut state, "zz", 0, "rnbo").unwrap_err(), "Phase not found");
    assert_eq!(
        unassign_file_from_seat(&mut state, "a", usize::MAX, "rnbo").unwrap_err(),
        "Invalid seat index"
    );
    assert_eq!(unassign_file_from_seat(&mut state, "a", 0, "").unwrap_err(), "Invalid file type");
    assert_eq!(get_assignments_for_phase(&state, "zz").unwrap_err(), "Phase not found");
    let seats = get_assignments_for_phase(&state, "a").unwrap();
    assert!(seats.iter().all(|a| a.rnbo_id.is_none() && a.sheet_id.is_none()));
}

#[test]
fn removing_a_palette_item_clears_it_from_every_phase() {
    let mut state = state_with_grid();
    add_rnbo_file(&mut state, patch("r1", "one"));
    add_rnbo_file(&mut state, patch("r2", "two"));
    add_rnbo_file(&mut state, patch("r1", "one again"));
    add_sheet_file(&mut state, sheet("r1", "a sheet with the same id"));
    add_phase(&mut state, init("a", "A")).unwrap();
    add_phase(&mut state, init("b", "B")).unwrap();
    assign_selected_file_to_seat(&mut state, "a", 0, "r1", "rnbo").unwrap();
    assign_selected_file_to_seat(&mut state, "a", 0, "r1", "sheet").unwrap();
    assign_selected_file_to_seat(&mut state, "a", 1, "r2", "rnbo").unwrap();
    assign_selected_file_to_seat(&mut state, "b", 4, "r1", "rnbo").unwrap();
    remove_rnbo_file(&mut state, "r1");
    let labels: Vec<&str> = state.rnbo_patches.iter().map(|p| p.label.as_str()).collect();
    assert_eq!(labels, vec!["two"]);
    assert_eq!(state.sheet_music.len(), 1);
    let a = get_assignments_for_phase(&state, "a").unwrap();
    assert_eq!(a[0].rnbo_id, None);
    assert_eq!(a[0].sheet_id.as_deref(), Some("r1"));
    assert_eq!(a[1].rnbo_id.as_deref(), Some("r2"));
    let b = get_assignments_for_phase(&state, "b").unwrap();
    assert_eq!(b[4].rnbo_id, None);
    assert_eq!(state.phases.get("a").unwrap().name, "A");
    assert_eq!(state.phases.key_at(1), "b");

    remove_sheet_file(&mut state, "r1");
    assert!(state.sheet_music.is_empty());
    let a = get_assignments_for_phase(&state, "a").unwrap();
    assert_eq!(a[0].sheet_id, None);
    assert_eq!(a[1].rnbo_id.as_deref(), Some("r2"));
    remove_sheet_file(&mut state, "never there");
    assert_eq!(state.rnbo_patches.len(), 1);
}

#[test]
fn saving_needs_a_session_and_loading_restores_it() {
    let mut state = AppState::default();
    assert_eq!(save_session_to_file(&state).map(|_| ()).unwrap_err(), "No session loaded");
    set_session_config(&mut state, config(1, 2));
    add_rnbo_file(&mut state, patch("r1", "one"));
    add_sheet_file(&mut state, sheet("s1", "score"));
    add_phase(&mut state, init("a", "A")).unwrap();
    add_phase(&mut state, init("b", "B")).unwrap();
    assign_selected_file_to_seat(&mut state, "b", 1, "r1", "rnbo").unwrap();
    set_current_phase(&mut state, "b").unwrap();
    select_palette_file(&mut state, "s1", "sheet").unwrap();

    let saved = save_session_to_file(&state).unwrap();
    assert_eq!(saved.config.path, "/tmp/show.json");
    assert_eq!(saved.selected_file.as_ref().unwrap().id, "s1");
    assert_eq!(saved.rnbo_patches.len(), 1);
    assert_eq!(saved.sheet_music.len(), 1);
    assert_eq!(saved.phases.len(), 2);
    assert_eq!(saved.phases.key_at(0), "a");
    assert_eq!(saved.phases.get("b").unwrap().assignments[1].rnbo_id.as_deref(), Some("r1"));
    assert_eq!(saved.current_phase_id.as_deref(), Some("b"));

    let mut fresh = AppState::default();
    add_rnbo_file(&mut fresh, patch("old", "old"));
    load_session_from_file(&mut fresh, saved);
    assert_eq!(get_session_config(&fresh).unwrap().name, "show");
    assert!(get_selected_file(&fresh).is_none());
    assert_eq!(fresh.rnbo_patches.len(), 1);
    assert_eq!(fresh.rnbo_patches[0].id, "r1");
    assert_eq!(fresh.sheet_music[0].id, "s1");
    assert_eq!(fresh.phases.len(), 2);
    assert_eq!(get_current_phase(&fresh).as_deref(), Some("b"));
    assert_eq!(
        get_assignments_for_phase(&fresh, "b").unwrap()[1].rnbo_id.as_deref(),
        Some("r1")
    );
}
