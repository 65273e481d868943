//! The designer's commands: each takes the design state and changes or reads
//! it. A command that fails says why and leaves the state as it was.

use vstd::prelude::*;
use vstd::string::StringExecFns;
use crate::content::ContentKind;
use crate::state::{clone_assignments, clone_optional_text, clone_phases, clone_rnbo_palette,
    clone_selected, clone_session, clone_sheet_palette, lemma_keys_seen, phases_view, AppState,
    AppStateView,
    PaletteItemView, Phase, PhaseInit, PhaseUpdate, PhaseView, RNBOPaletteItem, SeatAssignment,
    SeatAssignmentView, SelectedFile, SelectedFileView, SessionConfig, SessionSaveState,
    SessionSaveStateView, SheetPaletteItem};
use crate::text::{blank, is_blank, str_eq};
use crate::text_map::{has_key, position_of, value_of, without, TextMap};

verus! {

/// What a session saves of the design state.
pub open spec fn saved_view(state: AppStateView) -> SessionSaveStateView
    recommends
        state.session is Some,
{
    SessionSaveStateView {
        config: state.session->0,
        selected_file: state.selected_file,
        rnbo_patches: state.rnbo_patches,
        sheet_music: state.sheet_music,
        phases: state.phases,
        current_phase_id: state.current_phase_id,
    }
}

/// Gathers what is to be written to the session's file. Fails where no
/// session is loaded.
pub fn save_session_to_file(state: &AppState) -> (saved: Result<SessionSaveState, String>)
    ensures
        match saved {
            Ok(snapshot) => state@.session is Some && snapshot@ == saved_view(state@),
            Err(message) => state@.session is None && message@ == "No session loaded"@,
        },
{
    let config = match &state.session {
        Some(config) => config.clone(),
        None => {
            return Err(String::from_str("No session loaded"));
        },
    };
    Ok(
        SessionSaveState {
            config,
            selected_file: clone_selected(&state.selected_file),
            rnbo_patches: clone_rnbo_palette(&state.rnbo_patches),
            sheet_music: clone_sheet_palette(&state.sheet_music),
            phases: clone_phases(&state.phases),
            current_phase_id: clone_optional_text(&state.current_phase_id),
        },
    )
}

/// Puts what was read from a session's file in place of the design state.
/// Nothing is picked up afterwards, whatever the file says.
pub fn load_session_from_file(state: &mut AppState, parsed: SessionSaveState)
    ensures
        final(state)@ == (AppStateView {
            session: Some(parsed@.config),
            selected_file: None,
            rnbo_patches: parsed@.rnbo_patches,
            sheet_music: parsed@.sheet_music,
            phases: parsed@.phases,
            current_phase_id: parsed@.current_phase_id,
        }),
{
    state.session = Some(parsed.config);
    state.selected_file = None;
    state.rnbo_patches = parsed.rnbo_patches;
    state.sheet_music = parsed.sheet_music;
    state.phases = parsed.phases;
    state.current_phase_id = parsed.current_phase_id;
}

/// Sets the session's configuration.
pub fn set_session_config(state: &mut AppState, config: SessionConfig)
    ensures
        final(state)@ == (AppStateView { session: Some(config@), ..old(state)@ }),
{
    state.session = Some(config);
}

/// The session's configuration, if one is set.
pub fn get_session_config(state: &AppState) -> (config: Option<SessionConfig>)
    ensures
        config.deep_view() == state@.session,
{
    clone_session(&state.session)
}

/// The assignments of a new phase: nothing for any of `seats` seats.
pub open spec fn empty_assignments(seats: int) -> Seq<SeatAssignmentView> {
    Seq::new(seats as nat, |i: int| SeatAssignmentView { rnbo_id: None, sheet_id: None })
}

/// The phase that `data` asks for, in a session with `seats` seats.
pub open spec fn new_phase(data: PhaseInit, seats: int) -> PhaseView {
    PhaseView {
        name: data.name@,
        assignments: empty_assignments(seats),
        bpm: data.bpm,
        count_in: data.count_in,
        index: data.index,
    }
}

/// Adds a phase with nothing assigned to any seat of the session's grid.
/// Fails where a phase has the identifier already, and otherwise where no
/// session is configured.
pub fn add_phase(state: &mut AppState, data: PhaseInit) -> (added: Result<(), String>)
    requires
        old(state).session matches Some(config) ==> config.rows * config.columns <= usize::MAX,
    ensures
        match added {
            Ok(()) => !has_key(old(state)@.phases, data.id@) && (
            old(state)@.session matches Some(config) && final(state)@ == (AppStateView {
                phases: old(state)@.phases.push(
                    (data.id@, new_phase(data, config.rows * config.columns)),
                ),
                ..old(state)@
            })),
            Err(message) => final(state)@ == old(state)@ && if has_key(
                old(state)@.phases,
                data.id@,
            ) {
                message@ == "Phase already exists with that ID"@
            } else {
                old(state)@.session is None && message@ == "Session config is not set yet."@
            },
        },
{
    let present = state.phases.contains_key(data.id.as_str());
    proof {
        lemma_keys_seen(state.phases@, data.id@);
    }
    if present {
        return Err(String::from_str("Phase already exists with that ID"));
    }
    let total_seats = match &state.session {
        Some(config) => config.rows * config.columns,
        None => {
            return Err(String::from_str("Session config is not set yet."));
        },
    };
    let mut assignments: Vec<SeatAssignment> = Vec::new();
    let mut i: usize = 0;
    while i < total_seats
        invariant
            i <= total_seats,
            assignments@.len() == i,
            forall|j: int|
                0 <= j < i ==> (#[trigger] assignments@[j])@ == (SeatAssignmentView {
                    rnbo_id: None,
                    sheet_id: None,
                }),
        decreases total_seats - i,
    {
        assignments.push(SeatAssignment { rnbo_id: None, sheet_id: None });
        i += 1;
    }
    assert(assignments.deep_view() =~= empty_assignments(total_seats as int));
    let ghost before = state.phases@;
    let phase = Phase {
        name: data.name,
        bpm: data.bpm,
        count_in: data.count_in,
        assignments,
        index: data.index,
    };
    state.phases.insert(data.id, phase);
    assert(phases_view(state.phases@) =~= phases_view(before).push((data.id@, phase@)));
    Ok(())
}

/// Removes a phase; where it was the current one, no phase is current
/// afterwards. Fails where the store has no such phase.
pub fn remove_phase(state: &mut AppState, phase_id: &str) -> (removed: Result<(), String>)
    ensures
        match removed {
            Ok(()) => has_key(old(state)@.phases, phase_id@) && final(state)@ == (AppStateView {
                phases: without(old(state)@.phases, phase_id@),
                current_phase_id: if old(state)@.current_phase_id == Some(phase_id@) {
                    None
                } else {
                    old(state)@.current_phase_id
                },
                ..old(state)@
            }),
            Err(message) => !has_key(old(state)@.phases, phase_id@) && final(state)@ == old(state)@
                && message@ == "Phase not found."@,
        },
{
    let ghost before = state.phases@;
    let taken = state.phases.remove(phase_id);
    proof {
        lemma_keys_seen(before, phase_id@);
    }
    if taken.is_none() {
        return Err(String::from_str("Phase not found."));
    }
    assert(phases_view(state.phases@) =~= without(phases_view(before), phase_id@));
    let is_current = match &state.current_phase_id {
        Some(current) => str_eq(current.as_str(), phase_id),
        None => false,
    };
    if is_current {
        state.current_phase_id = None;
    }
    Ok(())
}

/// The name that an edit gives a phase: the name asked for, or a stand-in
/// where that is nothing but white space.
pub open spec fn edited_name(name: Seq<char>) -> Seq<char> {
    if blank(name) {
        "(untitled phase)"@
    } else {
        name
    }
}

/// A phase after an edit: each field that the update names is replaced.
pub open spec fn edited(phase: PhaseView, updates: PhaseUpdate) -> PhaseView {
    PhaseView {
        name: match updates.name {
            Some(name) => edited_name(name@),
            None => phase.name,
        },
        bpm: match updates.bpm {
            Some(bpm) => bpm,
            None => phase.bpm,
        },
        count_in: match updates.count_in {
            Some(count_in) => count_in,
            None => phase.count_in,
        },
        ..phase
    }
}

/// The store of phases with the phase at `place` replaced.
pub open spec fn with_phase(phases: Seq<(Seq<char>, PhaseView)>, place: int, phase: PhaseView) -> Seq<
    (Seq<char>, PhaseView),
> {
    phases.update(place, (phases[place].0, phase))
}

/// Changes the name, the tempo and the count-in of a phase, as far as the
/// update names them. Fails where the store has no such phase.
pub fn edit_phase(state: &mut AppState, phase_id: &str, updates: PhaseUpdate) -> (done: Result<
    (),
    String,
>)
    ensures
        match done {
            Ok(()) => has_key(old(state)@.phases, phase_id@) && final(state)@ == (AppStateView {
                phases: with_phase(
                    old(state)@.phases,
                    position_of(old(state)@.phases, phase_id@),
                    edited(value_of(old(state)@.phases, phase_id@), updates),
                ),
                ..old(state)@
            }),
            Err(message) => !has_key(old(state)@.phases, phase_id@) && final(state)@ == old(state)@
                && message@ == "Phase not found."@,
        },
{
    let ghost before = state.phases@;
    let found = state.phases.find(phase_id);
    proof {
        lemma_keys_seen(before, phase_id@);
    }
    let place = match found {
        Some(place) => place,
        None => {
            return Err(String::from_str("Phase not found."));
        },
    };
    let mut phase = state.phases.value_at(place).clone();
    let ghost unedited = phase@;
    match updates.name {
        Some(name) => {
            phase.name = if is_blank(name.as_str()) {
                String::from_str("(untitled phase)")
            } else {
                name
            };
        },
        None => {},
    }
    match updates.bpm {
        Some(bpm) => {
            phase.bpm = bpm;
        },
        None => {},
    }
    match updates.count_in {
        Some(count_in) => {
            phase.count_in = count_in;
        },
        None => {},
    }
    assert(phase@ == edited(unedited, updates));
    state.phases.set_value_at(place, phase);
    assert(phases_view(state.phases@) =~= with_phase(
        phases_view(before),
        place as int,
        edited(unedited, updates),
    ));
    Ok(())
}

/// Makes a phase the current one. Fails where the store has no such phase.
pub fn set_current_phase(state: &mut AppState, phase_id: &str) -> (done: Result<(), String>)
    ensures
        match done {
            Ok(()) => has_key(old(state)@.phases, phase_id@) && final(state)@ == (AppStateView {
                current_phase_id: Some(phase_id@),
                ..old(state)@
            }),
            Err(message) => !has_key(old(state)@.phases, phase_id@) && final(state)@ == old(state)@
                && message@ == "Phase ID not found."@,
        },
{
    let present = state.phases.contains_key(phase_id);
    proof {
        lemma_keys_seen(state.phases@, phase_id@);
    }
    if !present {
        return Err(String::from_str("Phase ID not found."));
    }
    state.current_phase_id = Some(phase_id.to_owned());
    Ok(())
}

/// The identifier of the current phase, if one is current.
pub fn get_current_phase(state: &AppState) -> (current: Option<String>)
    ensures
        current.deep_view() == state@.current_phase_id,
{
    clone_optional_text(&state.current_phase_id)
}

/// Leaves no phase current.
pub fn clear_current_phase(state: &mut AppState)
    ensures
        final(state)@ == (AppStateView { current_phase_id: None, ..old(state)@ }),
{
    state.current_phase_id = None;
}

/// Puts a patch on the palette, after those that are there.
pub fn add_rnbo_file(state: &mut AppState, item: RNBOPaletteItem)
    ensures
        final(state)@ == (AppStateView {
            rnbo_patches: old(state)@.rnbo_patches.push(item@),
            ..old(state)@
        }),
{
    let ghost before = state.rnbo_patches.deep_view();
    state.rnbo_patches.push(item);
    assert(state.rnbo_patches.deep_view() =~= before.push(item@));
}

/// Puts a sheet on the palette, after those that are there.
pub fn add_sheet_file(state: &mut AppState, item: SheetPaletteItem)
    ensures
        final(state)@ == (AppStateView {
            sheet_music: old(state)@.sheet_music.push(item@),
            ..old(state)@
        }),
{
    let ghost before = state.sheet_music.deep_view();
    state.sheet_music.push(item);
    assert(state.sheet_music.deep_view() =~= before.push(item@));
}

/// The palette without the items that have the identifier `id`.
pub open spec fn without_item(palette: Seq<PaletteItemView>, id: Seq<char>) -> Seq<PaletteItemView>
    decreases palette.len(),
{
    if palette.len() == 0 {
        Seq::empty()
    } else if palette.last().id == id {
        without_item(palette.drop_last(), id)
    } else {
        without_item(palette.drop_last(), id).push(palette.last())
    }
}

/// An assignment that no longer names the content `id` of the kind `kind`.
pub open spec fn unassigned(assignment: SeatAssignmentView, id: Seq<char>, kind: ContentKind)
    -> SeatAssignmentView {
    match kind {
        ContentKind::Patch => SeatAssignmentView {
            rnbo_id: if assignment.rnbo_id == Some(id) {
                None
            } else {
                assignment.rnbo_id
            },
            ..assignment
        },
        ContentKind::Sheet => SeatAssignmentView {
            sheet_id: if assignment.sheet_id == Some(id) {
                None
            } else {
                assignment.sheet_id
            },
            ..assignment
        },
    }
}

/// A phase in which no seat names the content `id` of the kind `kind`.
pub open spec fn phase_without(phase: PhaseView, id: Seq<char>, kind: ContentKind) -> PhaseView {
    PhaseView {
        assignments: Seq::new(
            phase.assignments.len(),
            |i: int| unassigned(phase.assignments[i], id, kind),
        ),
        ..phase
    }
}

/// The phases, none of which names the content `id` of the kind `kind`.
pub open spec fn phases_without(phases: Seq<(Seq<char>, PhaseView)>, id: Seq<char>, kind: ContentKind)
    -> Seq<(Seq<char>, PhaseView)> {
    Seq::new(phases.len(), |i: int| (phases[i].0, phase_without(phases[i].1, id, kind)))
}

fn names(text: &Option<String>, id: &str) -> (yes: bool)
    ensures
        yes == (text.deep_view() == Some(id@)),
{
    match text {
        Some(s) => str_eq(s.as_str(), id),
        None => false,
    }
}

fn forget_content(phases: &mut TextMap<Phase>, id: &str, kind: ContentKind)
    ensures
        phases_view(final(phases)@) == phases_without(phases_view(old(phases)@), id@, kind),
{
    let ghost before = phases_view(phases@);
    let n = phases.len();
    let mut i: usize = 0;
    while i < n
        invariant
            i <= n,
            n == phases@.len(),
            n == before.len(),
            forall|j: int|
                0 <= j < i ==> (#[trigger] phases_view(phases@)[j]) == (
                    before[j].0,
                    phase_without(before[j].1, id@, kind),
                ),
            forall|j: int| i <= j < n ==> (#[trigger] phases_view(phases@)[j]) == before[j],
        decreases n - i,
    {
        let phase = phases.value_at(i);
        let ghost seen = phase@;
        let ghost earlier = phases_view(phases@);
        assert(earlier[i as int] == before[i as int]);
        assert(seen == before[i as int].1);
        let mut assignments: Vec<SeatAssignment> = Vec::new();
        let mut k: usize = 0;
        while k < phase.assignments.len()
            invariant
                k <= phase.assignments@.len(),
                seen == phase@,
                assignments@.len() == k,
                forall|j: int|
                    0 <= j < k ==> (#[trigger] assignments@[j])@ == unassigned(
                        seen.assignments[j],
                        id@,
                        kind,
                    ),
            decreases phase.assignments@.len() - k,
        {
            let seat = &phase.assignments[k];
            assert(seat@ == seen.assignments[k as int]);
            let cleared = match kind {
                ContentKind::Patch => SeatAssignment {
                    rnbo_id: if names(&seat.rnbo_id, id) {
                        None
                    } else {
                        clone_optional_text(&seat.rnbo_id)
                    },
                    sheet_id: clone_optional_text(&seat.sheet_id),
                },
                ContentKind::Sheet => SeatAssignment {
                    rnbo_id: clone_optional_text(&seat.rnbo_id),
                    sheet_id: if names(&seat.sheet_id, id) {
                        None
                    } else {
                        clone_optional_text(&seat.sheet_id)
                    },
                },
            };
            assignments.push(cleared);
            k += 1;
        }
        let replacement = Phase {
            name: phase.name.clone(),
            assignments,
            bpm: phase.bpm,
            count_in: phase.count_in,
            index: phase.index,
        };
        assert(replacement@.assignments =~= phase_without(seen, id@, kind).assignments);
        assert(replacement@ == phase_without(seen, id@, kind));
        phases.set_value_at(i, replacement);
        assert forall|j: int| 0 <= j < n && j != i implies (#[trigger] phases_view(phases@)[j])
            == earlier[j] by {}
        assert(phases_view(phases@)[i as int] == (
            before[i as int].0,
            phase_without(before[i as int].1, id@, kind),
        ));
        i += 1;
    }
    assert(phases_view(phases@) =~= phases_without(before, id@, kind));
}

/// Takes every patch with the identifier `id` off the palette, and the
/// patch out of every seat of every phase that names it.
pub fn remove_rnbo_file(state: &mut AppState, id: &str)
    ensures
        final(state)@ == (AppStateView {
            rnbo_patches: without_item(old(state)@.rnbo_patches, id@),
            phases: phases_without(old(state)@.phases, id@, ContentKind::Patch),
            ..old(state)@
        }),
{
    let ghost all = state.rnbo_patches.deep_view();
    let mut kept: Vec<RNBOPaletteItem> = Vec::new();
    let mut i: usize = 0;
    assert(all.take(0) =~= Seq::empty());
    assert(kept.deep_view() =~= Seq::empty());
    while i < state.rnbo_patches.len()
        invariant
            i <= state.rnbo_patches@.len(),
            all == state.rnbo_patches.deep_view(),
            *state == *old(state),
            kept.deep_view() == without_item(all.take(i as int), id@),
        decreases state.rnbo_patches@.len() - i,
    {
        proof {
            assert(all.take(i + 1).drop_last() =~= all.take(i as int));
            assert(all.take(i + 1).last() == state.rnbo_patches@[i as int]@);
        }
        if !str_eq(state.rnbo_patches[i].id.as_str(), id) {
            let ghost before = kept.deep_view();
            let item = state.rnbo_patches[i].clone();
            kept.push(item);
            assert(kept.deep_view() =~= before.push(item@));
        }
        i += 1;
    }
    assert(all.take(state.rnbo_patches@.len() as int) =~= all);
    state.rnbo_patches = kept;
    forget_content(&mut state.phases, id, ContentKind::Patch);
}

/// Takes every sheet with the identifier `id` off the palette, and the
/// sheet out of every seat of every phase that names it.
pub fn remove_sheet_file(state: &mut AppState, id: &str)
    ensures
        final(state)@ == (AppStateView {
            sheet_music: without_item(old(state)@.sheet_music, id@),
            phases: phases_without(old(state)@.phases, id@, ContentKind::Sheet),
            ..old(state)@
        }),
{
    let ghost all = state.sheet_music.deep_view();
    let mut kept: Vec<SheetPaletteItem> = Vec::new();
    let mut i: usize = 0;
    assert(all.take(0) =~= Seq::empty());
    assert(kept.deep_view() =~= Seq::empty());
    while i < state.sheet_music.len()
        invariant
            i <= state.sheet_music@.len(),
            all == state.sheet_music.deep_view(),
            *state == *old(state),
            kept.deep_view() == without_item(all.take(i as int), id@),
        decreases state.sheet_music@.len() - i,
    {
        proof {
            assert(all.take(i + 1).drop_last() =~= all.take(i as int));
            assert(all.take(i + 1).last() == state.sheet_music@[i as int]@);
        }
        if !str_eq(state.sheet_music[i].id.as_str(), id) {
            let ghost before = kept.deep_view();
            let item = state.sheet_music[i].clone();
            kept.push(item);
            assert(kept.deep_view() =~= before.push(item@));
        }
        i += 1;
    }
    assert(all.take(state.sheet_music@.len() as int) =~= all);
    state.sheet_music = kept;
    forget_content(&mut state.phases, id, ContentKind::Sheet);
}

/// What is picked up, if anything is.
pub fn get_selected_file(state: &AppState) -> (selected: Option<SelectedFile>)
    ensures
        selected.deep_view() == state@.selected_file,
{
    clone_selected(&state.selected_file)
}

/// The first item of a palette with the identifier `id`.
pub open spec fn first_item(palette: Seq<PaletteItemView>, id: Seq<char>) -> Option<PaletteItemView>
    decreases palette.len(),
{
    if palette.len() == 0 {
        None
    } else {
        match first_item(palette.drop_last(), id) {
            Some(item) => Some(item),
            None => if palette.last().id == id {
                Some(palette.last())
            } else {
                None
            },
        }
    }
}

proof fn lemma_first_item_stays(palette: Seq<PaletteItemView>, k: int, id: Seq<char>)
    requires
        0 <= k <= palette.len(),
        first_item(palette.take(k), id) is Some,
    ensures
        first_item(palette, id) == first_item(palette.take(k), id),
    decreases palette.len() - k,
{
    if k == palette.len() {
        assert(palette.take(k) =~= palette);
    } else {
        assert(palette.take(k + 1).drop_last() =~= palette.take(k));
        lemma_first_item_stays(palette, k + 1, id);
    }
}

fn find_rnbo_item<'a>(palette: &'a Vec<RNBOPaletteItem>, id: &str) -> (found: Option<
    &'a RNBOPaletteItem,
>)
    ensures
        match found {
            Some(item) => first_item(palette.deep_view(), id@) == Some(item@),
            None => first_item(palette.deep_view(), id@) is None,
        },
{
    let ghost all = palette.deep_view();
    let mut i: usize = 0;
    assert(all.take(0) =~= Seq::empty());
    while i < palette.len()
        invariant
            i <= palette@.len(),
            all == palette.deep_view(),
            first_item(all.take(i as int), id@) is None,
        decreases palette@.len() - i,
    {
        proof {
            assert(all.take(i + 1).drop_last() =~= all.take(i as int));
            assert(all.take(i + 1).last() == palette@[i as int]@);
        }
        if str_eq(palette[i].id.as_str(), id) {
            proof {
                lemma_first_item_stays(all, i + 1, id@);
            }
            return Some(&palette[i]);
        }
        i += 1;
    }
    assert(all.take(palette@.len() as int) =~= all);
    None
}

fn find_sheet_item<'a>(palette: &'a Vec<SheetPaletteItem>, id: &str) -> (found: Option<
    &'a SheetPaletteItem,
>)
    ensures
        match found {
            Some(item) => first_item(palette.deep_view(), id@) == Some(item@),
            None => first_item(palette.deep_view(), id@) is None,
        },
{
    let ghost all = palette.deep_view();
    let mut i: usize = 0;
    assert(all.take(0) =~= Seq::empty());
    while i < palette.len()
        invariant
            i <= palette@.len(),
            all == palette.deep_view(),
            first_item(all.take(i as int), id@) is None,
        decreases palette@.len() - i,
    {
        proof {
            assert(all.take(i + 1).drop_last() =~= all.take(i as int));
            assert(all.take(i + 1).last() == palette@[i as int]@);
        }
        if str_eq(palette[i].id.as_str(), id) {
            proof {
                lemma_first_item_stays(all, i + 1, id@);
            }
            return Some(&palette[i]);
        }
        i += 1;
    }
    assert(all.take(palette@.len() as int) =~= all);
    None
}

/// A palette item as something picked up, under the name of its palette.
pub open spec fn picked_up(item: PaletteItemView, file_type: Seq<char>) -> SelectedFileView {
    SelectedFileView {
        id: item.id,
        label: item.label,
        path: item.path,
        color: item.color,
        file_type,
    }
}

/// What picking up the item `id` of the palette `file_type` comes to: the
/// item, or why there is none.
pub open spec fn selection(state: AppStateView, id: Seq<char>, file_type: Seq<char>) -> Result<
    SelectedFileView,
    Seq<char>,
> {
    if file_type == "rnbo"@ {
        match first_item(state.rnbo_patches, id) {
            Some(item) => Ok(picked_up(item, "rnbo"@)),
            None => Err("RNBO file not found"@),
        }
    } else if file_type == "sheet"@ {
        match first_item(state.sheet_music, id) {
            Some(item) => Ok(picked_up(item, "sheet"@)),
            None => Err("Sheet file not found"@),
        }
    } else {
        Err("Invalid type"@)
    }
}

/// Picks up the first item with the identifier `id` of the palette that
/// `file_type` names, `rnbo` or `sheet`. Fails where `file_type` names no
/// palette or the palette has no such item.
pub fn select_palette_file(state: &mut AppState, id: &str, file_type: &str) -> (done: Result<
    (),
    String,
>)
    ensures
        match done {
            Ok(()) => selection(old(state)@, id@, file_type@) matches Ok(selected) && final(state)@
                == (AppStateView { selected_file: Some(selected), ..old(state)@ }),
            Err(message) => selection(old(state)@, id@, file_type@) == Err::<
                SelectedFileView,
                Seq<char>,
            >(message@) && final(state)@ == old(state)@,
        },
{
    let selected = if str_eq(file_type, "rnbo") {
        match find_rnbo_item(&state.rnbo_patches, id) {
            Some(file) => SelectedFile {
                id: file.id.clone(),
                label: file.label.clone(),
                path: file.path.clone(),
                color: file.color.clone(),
                file_type: String::from_str("rnbo"),
            },
            None => {
                return Err(String::from_str("RNBO file not found"));
            },
        }
    } else if str_eq(file_type, "sheet") {
        match find_sheet_item(&state.sheet_music, id) {
            Some(file) => SelectedFile {
                id: file.id.clone(),
                label: file.label.clone(),
                path: file.path.clone(),
                color: file.color.clone(),
                file_type: String::from_str("sheet"),
            },
            None => {
                return Err(String::from_str("Sheet file not found"));
            },
        }
    } else {
        return Err(String::from_str("Invalid type"));
    };
    state.selected_file = Some(selected);
    Ok(())
}

/// Puts down what is picked up.
pub fn clear_selected_file(state: &mut AppState)
    ensures
        final(state)@ == (AppStateView { selected_file: None, ..old(state)@ }),
{
    state.selected_file = None;
}

/// An assignment with one of its two places set to `content`; `file_type`
/// is `rnbo` or `sheet`.
pub open spec fn reassigned(
    assignment: SeatAssignmentView,
    file_type: Seq<char>,
    content: Option<Seq<char>>,
) -> SeatAssignmentView {
    if file_type == "rnbo"@ {
        SeatAssignmentView { rnbo_id: content, ..assignment }
    } else {
        SeatAssignmentView { sheet_id: content, ..assignment }
    }
}

/// What changing the content of one place of one seat of one phase comes
/// to: the phases afterwards, or why nothing changes.
pub open spec fn reassignment(
    phases: Seq<(Seq<char>, PhaseView)>,
    phase_id: Seq<char>,
    seat_index: int,
    file_type: Seq<char>,
    content: Option<Seq<char>>,
) -> Result<Seq<(Seq<char>, PhaseView)>, Seq<char>> {
    if !has_key(phases, phase_id) {
        Err("Phase not found"@)
    } else {
        let place = position_of(phases, phase_id);
        let phase = phases[place].1;
        if !(0 <= seat_index < phase.assignments.len()) {
            Err("Invalid seat index"@)
        } else if file_type != "rnbo"@ && file_type != "sheet"@ {
            Err("Invalid file type"@)
        } else {
            Ok(
                with_phase(
                    phases,
                    place,
                    PhaseView {
                        assignments: phase.assignments.update(
                            seat_index,
                            reassigned(phase.assignments[seat_index], file_type, content),
                        ),
                        ..phase
                    },
                ),
            )
        }
    }
}

fn reassign(
    state: &mut AppState,
    phase_id: &str,
    seat_index: usize,
    file_type: &str,
    content: Option<String>,
) -> (done: Result<(), String>)
    ensures
        match done {
            Ok(()) => reassignment(
                old(state)@.phases,
                phase_id@,
                seat_index as int,
                file_type@,
                content.deep_view(),
            ) matches Ok(phases) && final(state)@ == (AppStateView { phases, ..old(state)@ }),
            Err(message) => reassignment(
                old(state)@.phases,
                phase_id@,
                seat_index as int,
                file_type@,
                content.deep_view(),
            ) == Err::<Seq<(Seq<char>, PhaseView)>, Seq<char>>(message@) && final(state)@ == old(
                state,
            )@,
        },
{
    let ghost before = state.phases@;
    let found = state.phases.find(phase_id);
    proof {
        lemma_keys_seen(before, phase_id@);
    }
    let place = match found {
        Some(place) => place,
        None => {
            return Err(String::from_str("Phase not found"));
        },
    };
    let phase = state.phases.value_at(place);
    let ghost seen = phase@;
    if seat_index >= phase.assignments.len() {
        return Err(String::from_str("Invalid seat index"));
    }
    let seat = &phase.assignments[seat_index];
    assert(seat@ == seen.assignments[seat_index as int]);
    let changed = if str_eq(file_type, "rnbo") {
        SeatAssignment { rnbo_id: content, sheet_id: clone_optional_text(&seat.sheet_id) }
    } else if str_eq(file_type, "sheet") {
        SeatAssignment { rnbo_id: clone_optional_text(&seat.rnbo_id), sheet_id: content }
    } else {
        return Err(String::from_str("Invalid file type"));
    };
    assert(changed@ == reassigned(seen.assignments[seat_index as int], file_type@, content.deep_view()));
    let mut assignments = clone_assignments(&phase.assignments);
    let ghost copied = assignments.deep_view();
    assignments.set(seat_index, changed);
    assert(assignments.deep_view() =~= copied.update(seat_index as int, changed@));
    let replacement = Phase {
        name: phase.name.clone(),
        assignments,
        bpm: phase.bpm,
        count_in: phase.count_in,
        index: phase.index,
    };
    state.phases.set_value_at(place, replacement);
    assert(phases_view(state.phases@) =~= with_phase(phases_view(before), place as int, replacement@));
    Ok(())
}

/// Gives a seat of a phase the content `file_id`, as its patch where
/// `file_type` is `rnbo` and as its sheet where it is `sheet`. Fails where the
/// store has no such phase, else where the phase has no such seat, else
/// where `file_type` is neither.
pub fn assign_selected_file_to_seat(
    state: &mut AppState,
    phase_id: &str,
    seat_index: usize,
    file_id: &str,
    file_type: &str,
) -> (done: Result<(), String>)
    ensures
        match done {
            Ok(()) => reassignment(
                old(state)@.phases,
                phase_id@,
                seat_index as int,
                file_type@,
                Some(file_id@),
            ) matches Ok(phases) && final(state)@ == (AppStateView { phases, ..old(state)@ }),
            Err(message) => reassignment(
                old(state)@.phases,
                phase_id@,
                seat_index as int,
                file_type@,
                Some(file_id@),
            ) == Err::<Seq<(Seq<char>, PhaseView)>, Seq<char>>(message@) && final(state)@ == old(
                state,
            )@,
        },
{
    reassign(state, phase_id, seat_index, file_type, Some(file_id.to_owned()))
}

/// Takes the patch, where `file_type` is `rnbo`, or the sheet, where it is
/// `sheet`, away from a seat of a phase. Fails as an assignment does.
pub fn unassign_file_from_seat(
    state: &mut AppState,
    phase_id: &str,
    seat_index: usize,
    file_type: &str,
) -> (done: Result<(), String>)
    ensures
        match done {
            Ok(()) => reassignment(
                old(state)@.phases,
                phase_id@,
                seat_index as int,
                file_type@,
                None,
            ) matches Ok(phases) && final(state)@ == (AppStateView { phases, ..old(state)@ }),
            Err(message) => reassignment(
                old(state)@.phases,
                phase_id@,
                seat_index as int,
                file_type@,
                None,
            ) == Err::<Seq<(Seq<char>, PhaseView)>, Seq<char>>(message@) && final(state)@ == old(
                state,
            )@,
        },
{
    reassign(state, phase_id, seat_index, file_type, None)
}

/// What each seat of a phase is given. Fails where the store has no such
/// phase.
pub fn get_assignments_for_phase(state: &AppState, phase_id: &str) -> (assignments: Result<
    Vec<SeatAssignment>,
    String,
>)
    ensures
        match assignments {
            Ok(list) => has_key(state@.phases, phase_id@) && list.deep_view() == value_of(
                state@.phases,
                phase_id@,
            ).assignments,
            Err(message) => !has_key(state@.phases, phase_id@) && message@ == "Phase not found"@,
        },
{
    let found = state.phases.get(phase_id);
    proof {
        lemma_keys_seen(state.phases@, phase_id@);
    }
    match found {
        Some(phase) => Ok(clone_assignments(&phase.assignments)),
        None => Err(String::from_str("Phase not found")),
    }
}

/// The first patch of the palette with the identifier `id`. Fails where
/// there is none.
pub fn get_rnbo_item(state: &AppState, id: &str) -> (item: Result<RNBOPaletteItem, String>)
    ensures
        match item {
            Ok(found) => first_item(state@.rnbo_patches, id@) == Some(found@),
            Err(message) => first_item(state@.rnbo_patches, id@) is None && message@
                == "No RNBO item found with id "@ + id@,
        },
{
    match find_rnbo_item(&state.rnbo_patches, id) {
        Some(found) => Ok(found.clone()),
        None => {
            let mut message = String::from_str("No RNBO item found with id ");
            message.append(id);
            Err(message)
        },
    }
}

/// The first sheet of the palette with the identifier `id`. Fails where
/// there is none.
pub fn get_sheet_item(state: &AppState, id: &str) -> (item: Result<SheetPaletteItem, String>)
    ensures
        match item {
            Ok(found) => first_item(state@.sheet_music, id@) == Some(found@),
            Err(message) => first_item(state@.sheet_music, id@) is None && message@
                == "No sheet item found with id "@ + id@,
        },
{
    match find_sheet_item(&state.sheet_music, id) {
        Some(found) => Ok(found.clone()),
        None => {
            let mut message = String::from_str("No sheet item found with id ");
            message.append(id);
            Err(message)
        },
    }
}

} // verus!
