//! The design state of a session: its grid of seats, the two content
//! palettes, the phases and what each phase assigns to each seat.

use vstd::prelude::*;
use crate::text_map::{distinct_keys, has_key, lemma_position_unique, position_of, value_of,
    TextMap};

verus! {

/// A session's name, the file it is saved to and the size of its seat grid.
#[derive(Debug)]
pub struct SessionConfig {
    pub name: String,
    pub path: String,
    pub rows: usize,
    pub columns: usize,
}

pub struct SessionConfigView {
    pub name: Seq<char>,
    pub path: Seq<char>,
    pub rows: usize,
    pub columns: usize,
}

impl DeepView for SessionConfig {
    type V = SessionConfigView;

    open spec fn deep_view(&self) -> SessionConfigView {
        SessionConfigView {
            name: self.name@,
            path: self.path@,
            rows: self.rows,
            columns: self.columns,
        }
    }
}

impl View for SessionConfig {
    type V = SessionConfigView;

    open spec fn view(&self) -> SessionConfigView {
        self.deep_view()
    }
}

impl Clone for SessionConfig {
    fn clone(&self) -> (copy: Self)
        ensures
            copy@ == self@,
    {
        SessionConfig {
            name: self.name.clone(),
            path: self.path.clone(),
            rows: self.rows,
            columns: self.columns,
        }
    }
}

/// An audio patch on the palette.
#[derive(Debug)]
pub struct RNBOPaletteItem {
    pub id: String,
    pub label: String,
    pub color: String,
    /// Where the file lies, absolute or relative.
    pub path: String,
}

/// A sheet of notation on the palette.
#[derive(Debug)]
pub struct SheetPaletteItem {
    pub id: String,
    pub label: String,
    pub color: String,
    /// Where the file lies, absolute or relative.
    pub path: String,
}

/// What the contracts see of a palette item of either kind.
pub struct PaletteItemView {
    pub id: Seq<char>,
    pub label: Seq<char>,
    pub color: Seq<char>,
    pub path: Seq<char>,
}

impl DeepView for RNBOPaletteItem {
    type V = PaletteItemView;

    open spec fn deep_view(&self) -> PaletteItemView {
        PaletteItemView { id: self.id@, label: self.label@, color: self.color@, path: self.path@ }
    }
}

impl View for RNBOPaletteItem {
    type V = PaletteItemView;

    open spec fn view(&self) -> PaletteItemView {
        self.deep_view()
    }
}

impl Clone for RNBOPaletteItem {
    fn clone(&self) -> (copy: Self)
        ensures
            copy@ == self@,
    {
        RNBOPaletteItem {
            id: self.id.clone(),
            label: self.label.clone(),
            color: self.color.clone(),
            path: self.path.clone(),
        }
    }
}

impl DeepView for SheetPaletteItem {
    type V = PaletteItemView;

    open spec fn deep_view(&self) -> PaletteItemView {
        PaletteItemView { id: self.id@, label: self.label@, color: self.color@, path: self.path@ }
    }
}

impl View for SheetPaletteItem {
    type V = PaletteItemView;

    open spec fn view(&self) -> PaletteItemView {
        self.deep_view()
    }
}

impl Clone for SheetPaletteItem {
    fn clone(&self) -> (copy: Self)
        ensures
            copy@ == self@,
    {
        SheetPaletteItem {
            id: self.id.clone(),
            label: self.label.clone(),
            color: self.color.clone(),
            path: self.path.clone(),
        }
    }
}

/// The palette item that the designer has picked up.
#[derive(Debug)]
pub struct SelectedFile {
    pub id: String,
    pub label: String,
    pub path: String,
    pub color: String,
    /// `rnbo` or `sheet`.
    pub file_type: String,
}

pub struct SelectedFileView {
    pub id: Seq<char>,
    pub label: Seq<char>,
    pub path: Seq<char>,
    pub color: Seq<char>,
    pub file_type: Seq<char>,
}

impl DeepView for SelectedFile {
    type V = SelectedFileView;

    open spec fn deep_view(&self) -> SelectedFileView {
        SelectedFileView {
            id: self.id@,
            label: self.label@,
            path: self.path@,
            color: self.color@,
            file_type: self.file_type@,
        }
    }
}

impl View for SelectedFile {
    type V = SelectedFileView;

    open spec fn view(&self) -> SelectedFileView {
        self.deep_view()
    }
}

impl Clone for SelectedFile {
    fn clone(&self) -> (copy: Self)
        ensures
            copy@ == self@,
    {
        SelectedFile {
            id: self.id.clone(),
            label: self.label.clone(),
            path: self.path.clone(),
            color: self.color.clone(),
            file_type: self.file_type.clone(),
        }
    }
}

/// What one seat plays in one phase: a patch, a sheet, both or neither.
#[derive(Debug)]
pub struct SeatAssignment {
    pub rnbo_id: Option<String>,
    pub sheet_id: Option<String>,
}

pub struct SeatAssignmentView {
    pub rnbo_id: Option<Seq<char>>,
    pub sheet_id: Option<Seq<char>>,
}

impl DeepView for SeatAssignment {
    type V = SeatAssignmentView;

    open spec fn deep_view(&self) -> SeatAssignmentView {
        SeatAssignmentView {
            rnbo_id: self.rnbo_id.deep_view(),
            sheet_id: self.sheet_id.deep_view(),
        }
    }
}

impl View for SeatAssignment {
    type V = SeatAssignmentView;

    open spec fn view(&self) -> SeatAssignmentView {
        self.deep_view()
    }
}

/// A copy of an optional string.
pub fn clone_optional_text(text: &Option<String>) -> (copy: Option<String>)
    ensures
        copy.deep_view() == text.deep_view(),
{
    match text {
        Some(s) => Some(s.clone()),
        None => None,
    }
}

impl Clone for SeatAssignment {
    fn clone(&self) -> (copy: Self)
        ensures
            copy@ == self@,
    {
        SeatAssignment {
            rnbo_id: clone_optional_text(&self.rnbo_id),
            sheet_id: clone_optional_text(&self.sheet_id),
        }
    }
}

/// What the designer gives to create a phase.
#[derive(Debug)]
pub struct PhaseInit {
    pub id: String,
    pub name: String,
    pub bpm: u32,
    pub count_in: u32,
    pub index: usize,
}

/// The changes to a phase; a field left out stays as it is.
#[derive(Debug)]
pub struct PhaseUpdate {
    pub name: Option<String>,
    pub bpm: Option<u32>,
    pub count_in: Option<u32>,
}

/// A named step of the performance: its tempo, its count-in, its place in
/// the order of phases and one assignment for each seat.
#[derive(Debug)]
pub struct Phase {
    pub name: String,
    pub assignments: Vec<SeatAssignment>,
    pub bpm: u32,
    pub count_in: u32,
    pub index: usize,
}

pub struct PhaseView {
    pub name: Seq<char>,
    pub assignments: Seq<SeatAssignmentView>,
    pub bpm: u32,
    pub count_in: u32,
    pub index: usize,
}

impl DeepView for Phase {
    type V = PhaseView;

    open spec fn deep_view(&self) -> PhaseView {
        PhaseView {
            name: self.name@,
            assignments: self.assignments.deep_view(),
            bpm: self.bpm,
            count_in: self.count_in,
            index: self.index,
        }
    }
}

impl View for Phase {
    type V = PhaseView;

    open spec fn view(&self) -> PhaseView {
        self.deep_view()
    }
}

/// A copy of a list of assignments.
pub fn clone_assignments(assignments: &Vec<SeatAssignment>) -> (copy: Vec<SeatAssignment>)
    ensures
        copy.deep_view() == assignments.deep_view(),
{
    let mut copy: Vec<SeatAssignment> = Vec::new();
    let mut i: usize = 0;
    while i < assignments.len()
        invariant
            i <= assignments@.len(),
            copy@.len() == i,
            forall|j: int| 0 <= j < i ==> (#[trigger] copy@[j])@ == assignments@[j]@,
        decreases assignments@.len() - i,
    {
        copy.push(assignments[i].clone());
        i += 1;
    }
    assert(copy.deep_view() =~= assignments.deep_view());
    copy
}

impl Clone for Phase {
    fn clone(&self) -> (copy: Self)
        ensures
            copy@ == self@,
    {
        Phase {
            name: self.name.clone(),
            assignments: clone_assignments(&self.assignments),
            bpm: self.bpm,
            count_in: self.count_in,
            index: self.index,
        }
    }
}

/// The phases as the contracts see them: each key with the view of its
/// phase, in the order of the store.
pub open spec fn phases_view(phases: Seq<(Seq<char>, Phase)>) -> Seq<(Seq<char>, PhaseView)> {
    Seq::new(phases.len(), |i: int| (phases[i].0, phases[i].1@))
}

/// The whole design state. One value of it is shared by the designer's
/// commands and by the server, which only reads it.
pub struct AppState {
    pub session: Option<SessionConfig>,
    pub selected_file: Option<SelectedFile>,
    pub rnbo_patches: Vec<RNBOPaletteItem>,
    pub sheet_music: Vec<SheetPaletteItem>,
    pub phases: TextMap<Phase>,
    pub current_phase_id: Option<String>,
}

pub struct AppStateView {
    pub session: Option<SessionConfigView>,
    pub selected_file: Option<SelectedFileView>,
    pub rnbo_patches: Seq<PaletteItemView>,
    pub sheet_music: Seq<PaletteItemView>,
    pub phases: Seq<(Seq<char>, PhaseView)>,
    pub current_phase_id: Option<Seq<char>>,
}

impl View for AppState {
    type V = AppStateView;

    open spec fn view(&self) -> AppStateView {
        AppStateView {
            session: self.session.deep_view(),
            selected_file: self.selected_file.deep_view(),
            rnbo_patches: self.rnbo_patches.deep_view(),
            sheet_music: self.sheet_music.deep_view(),
            phases: phases_view(self.phases@),
            current_phase_id: self.current_phase_id.deep_view(),
        }
    }
}

impl Default for AppState {
    fn default() -> (state: Self)
        ensures
            state@ == (AppStateView {
                session: None,
                selected_file: None,
                rnbo_patches: Seq::empty(),
                sheet_music: Seq::empty(),
                phases: Seq::empty(),
                current_phase_id: None,
            }),
    {
        let state = AppState {
            session: None,
            selected_file: None,
            rnbo_patches: Vec::new(),
            sheet_music: Vec::new(),
            phases: TextMap::new(),
            current_phase_id: None,
        };
        assert(state@.rnbo_patches =~= Seq::empty());
        assert(state@.sheet_music =~= Seq::empty());
        assert(state@.phases =~= Seq::empty());
        state
    }
}

/// A key is in the store of phases exactly where it is in what the
/// contracts see of the store, and at the same place.
pub proof fn lemma_keys_seen(phases: Seq<(Seq<char>, Phase)>, key: Seq<char>)
    requires
        distinct_keys(phases),
    ensures
        distinct_keys(phases_view(phases)),
        has_key(phases_view(phases), key) == has_key(phases, key),
        has_key(phases, key) ==> position_of(phases_view(phases), key) == position_of(phases, key),
        has_key(phases, key) ==> value_of(phases_view(phases), key) == value_of(phases, key)@,
{
    let seen = phases_view(phases);
    assert forall|i: int, j: int| 0 <= i < j < seen.len() implies (#[trigger] seen[i]).0
        != (#[trigger] seen[j]).0 by {
        assert(phases[i].0 != phases[j].0);
    }
    if has_key(phases, key) {
        let p = position_of(phases, key);
        assert(seen[p].0 == key);
        lemma_position_unique(seen, p);
    }
    if has_key(seen, key) {
        let p = position_of(seen, key);
        assert(phases[p].0 == key);
    }
}

/// A copy of a store of phases.
pub fn clone_phases(phases: &TextMap<Phase>) -> (copy: TextMap<Phase>)
    ensures
        phases_view(copy@) == phases_view(phases@),
{
    let n = phases.len();
    let mut copy: TextMap<Phase> = TextMap::new();
    let mut i: usize = 0;
    while i < n
        invariant
            i <= n,
            n == phases@.len(),
            distinct_keys(phases@),
            copy@.len() == i,
            forall|j: int|
                0 <= j < i ==> (#[trigger] copy@[j]).0 == phases@[j].0 && copy@[j].1@
                    == phases@[j].1@,
        decreases n - i,
    {
        let key = phases.key_at(i).to_owned();
        let value = phases.value_at(i).clone();
        proof {
            if has_key(copy@, key@) {
                let p = position_of(copy@, key@);
                assert(copy@[p].0 == phases@[p].0);
                assert(phases@[p].0 != phases@[i as int].0);
            }
        }
        copy.insert(key, value);
        i += 1;
    }
    assert(phases_view(copy@) =~= phases_view(phases@));
    copy
}

/// A copy of a palette of patches.
pub fn clone_rnbo_palette(palette: &Vec<RNBOPaletteItem>) -> (copy: Vec<RNBOPaletteItem>)
    ensures
        copy.deep_view() == palette.deep_view(),
{
    let mut copy: Vec<RNBOPaletteItem> = Vec::new();
    let mut i: usize = 0;
    while i < palette.len()
        invariant
            i <= palette@.len(),
            copy@.len() == i,
            forall|j: int| 0 <= j < i ==> (#[trigger] copy@[j])@ == palette@[j]@,
        decreases palette@.len() - i,
    {
        copy.push(palette[i].clone());
        i += 1;
    }
    assert(copy.deep_view() =~= palette.deep_view());
    copy
}

/// A copy of a palette of sheets.
pub fn clone_sheet_palette(palette: &Vec<SheetPaletteItem>) -> (copy: Vec<SheetPaletteItem>)
    ensures
        copy.deep_view() == palette.deep_view(),
{
    let mut copy: Vec<SheetPaletteItem> = Vec::new();
    let mut i: usize = 0;
    while i < palette.len()
        invariant
            i <= palette@.len(),
            copy@.len() == i,
            forall|j: int| 0 <= j < i ==> (#[trigger] copy@[j])@ == palette@[j]@,
        decreases palette@.len() - i,
    {
        copy.push(palette[i].clone());
        i += 1;
    }
    assert(copy.deep_view() =~= palette.deep_view());
    copy
}

/// A copy of what may be picked up.
pub fn clone_selected(selected: &Option<SelectedFile>) -> (copy: Option<SelectedFile>)
    ensures
        copy.deep_view() == selected.deep_view(),
{
    match selected {
        Some(file) => Some(file.clone()),
        None => None,
    }
}

/// A copy of what may be a session's configuration.
pub fn clone_session(session: &Option<SessionConfig>) -> (copy: Option<SessionConfig>)
    ensures
        copy.deep_view() == session.deep_view(),
{
    match session {
        Some(config) => Some(config.clone()),
        None => None,
    }
}

/// What a saved session holds: the design state without what is picked up
/// only for the moment.
pub struct SessionSaveState {
    pub config: SessionConfig,
    pub selected_file: Option<SelectedFile>,
    pub rnbo_patches: Vec<RNBOPaletteItem>,
    pub sheet_music: Vec<SheetPaletteItem>,
    pub phases: TextMap<Phase>,
    pub current_phase_id: Option<String>,
}

pub struct SessionSaveStateView {
    pub config: SessionConfigView,
    pub selected_file: Option<SelectedFileView>,
    pub rnbo_patches: Seq<PaletteItemView>,
    pub sheet_music: Seq<PaletteItemView>,
    pub phases: Seq<(Seq<char>, PhaseView)>,
    pub current_phase_id: Option<Seq<char>>,
}

impl View for SessionSaveState {
    type V = SessionSaveStateView;

    open spec fn view(&self) -> SessionSaveStateView {
        SessionSaveStateView {
            config: self.config@,
            selected_file: self.selected_file.deep_view(),
            rnbo_patches: self.rnbo_patches.deep_view(),
            sheet_music: self.sheet_music.deep_view(),
            phases: phases_view(self.phases@),
            current_phase_id: self.current_phase_id.deep_view(),
        }
    }
}

} // verus!
