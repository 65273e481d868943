//! Finding content: which files a seat needs across all phases, and where
//! the palettes keep them.

use vstd::prelude::*;
use crate::state::{phases_view, PaletteItemView, Phase, PhaseView, RNBOPaletteItem, SeatAssignment,
    SheetPaletteItem};
use crate::text::str_eq;
use crate::text_map::TextMap;

verus! {

/// The two kinds of content.
#[derive(Debug, Clone, Copy, PartialEq, Eq, Structural)]
pub enum ContentKind {
    /// An audio patch, kept on the RNBO palette.
    Patch,
    /// A sheet of notation, kept on the sheet palette.
    Sheet,
}

impl ContentKind {
    /// The name of the kind in messages.
    pub open spec fn name(self) -> Seq<char> {
        match self {
            ContentKind::Patch => "patch"@,
            ContentKind::Sheet => "sheet"@,
        }
    }

    /// The name of the kind in messages.
    pub fn name_text(&self) -> (text: &'static str)
        ensures
            text@ == self.name(),
    {
        match self {
            ContentKind::Patch => "patch",
            ContentKind::Sheet => "sheet",
        }
    }

    /// The kind that a message names, if it names one.
    pub open spec fn of_name(name: Seq<char>) -> Option<ContentKind> {
        if name == "patch"@ {
            Some(ContentKind::Patch)
        } else if name == "sheet"@ {
            Some(ContentKind::Sheet)
        } else {
            None
        }
    }

    /// The kind that a message names, if it names one.
    pub fn from_name(name: &str) -> (kind: Option<ContentKind>)
        ensures
            kind == ContentKind::of_name(name@),
    {
        if str_eq(name, "patch") {
            Some(ContentKind::Patch)
        } else if str_eq(name, "sheet") {
            Some(ContentKind::Sheet)
        } else {
            None
        }
    }
}

/// A piece of content and the file that holds it.
#[derive(Debug)]
pub struct ContentRef {
    pub id: String,
    pub path: String,
}

pub struct ContentRefView {
    pub id: Seq<char>,
    pub path: Seq<char>,
}

impl DeepView for ContentRef {
    type V = ContentRefView;

    open spec fn deep_view(&self) -> ContentRefView {
        ContentRefView { id: self.id@, path: self.path@ }
    }
}

impl View for ContentRef {
    type V = ContentRefView;

    open spec fn view(&self) -> ContentRefView {
        self.deep_view()
    }
}

/// The identifier and the path of each item of a palette, in its order.
pub open spec fn palette_refs(palette: Seq<PaletteItemView>) -> Seq<ContentRefView> {
    Seq::new(palette.len(), |i: int| ContentRefView { id: palette[i].id, path: palette[i].path })
}

/// The identifier and the path of each patch on the palette.
pub fn rnbo_refs(palette: &Vec<RNBOPaletteItem>) -> (refs: Vec<ContentRef>)
    ensures
        refs.deep_view() == palette_refs(palette.deep_view()),
{
    let mut refs: Vec<ContentRef> = Vec::new();
    let mut i: usize = 0;
    while i < palette.len()
        invariant
            i <= palette@.len(),
            refs@.len() == i,
            forall|j: int|
                0 <= j < i ==> (#[trigger] refs@[j])@ == (ContentRefView {
                    id: palette@[j].id@,
                    path: palette@[j].path@,
                }),
        decreases palette@.len() - i,
    {
        refs.push(ContentRef { id: palette[i].id.clone(), path: palette[i].path.clone() });
        i += 1;
    }
    assert(refs.deep_view() =~= palette_refs(palette.deep_view()));
    refs
}

/// The identifier and the path of each sheet on the palette.
pub fn sheet_refs(palette: &Vec<SheetPaletteItem>) -> (refs: Vec<ContentRef>)
    ensures
        refs.deep_view() == palette_refs(palette.deep_view()),
{
    let mut refs: Vec<ContentRef> = Vec::new();
    let mut i: usize = 0;
    while i < palette.len()
        invariant
            i <= palette@.len(),
            refs@.len() == i,
            forall|j: int|
                0 <= j < i ==> (#[trigger] refs@[j])@ == (ContentRefView {
                    id: palette@[j].id@,
                    path: palette@[j].path@,
                }),
        decreases palette@.len() - i,
    {
        refs.push(ContentRef { id: palette[i].id.clone(), path: palette[i].path.clone() });
        i += 1;
    }
    assert(refs.deep_view() =~= palette_refs(palette.deep_view()));
    refs
}

/// The path of the first entry with the identifier `id`.
pub open spec fn first_path(refs: Seq<ContentRefView>, id: Seq<char>) -> Option<Seq<char>>
    decreases refs.len(),
{
    if refs.len() == 0 {
        None
    } else {
        match first_path(refs.drop_last(), id) {
            Some(path) => Some(path),
            None => if refs.last().id == id {
                Some(refs.last().path)
            } else {
                None
            },
        }
    }
}

/// The path of the last entry with the identifier `id`.
pub open spec fn last_path(refs: Seq<ContentRefView>, id: Seq<char>) -> Option<Seq<char>>
    decreases refs.len(),
{
    if refs.len() == 0 {
        None
    } else if refs.last().id == id {
        Some(refs.last().path)
    } else {
        last_path(refs.drop_last(), id)
    }
}

/// Finds the path of the first entry with the identifier `id`.
pub fn find_first_path<'a>(refs: &'a Vec<ContentRef>, id: &str) -> (path: Option<&'a str>)
    ensures
        match path {
            Some(p) => first_path(refs.deep_view(), id@) == Some(p@),
            None => first_path(refs.deep_view(), id@) is None,
        },
{
    let ghost all = refs.deep_view();
    let mut i: usize = 0;
    assert(all.take(0) =~= Seq::empty());
    while i < refs.len()
        invariant
            i <= refs@.len(),
            all == refs.deep_view(),
            first_path(all.take(i as int), id@) is None,
        decreases refs@.len() - i,
    {
        proof {
            assert(all.take(i + 1).drop_last() =~= all.take(i as int));
            assert(all.take(i + 1).last() == refs@[i as int]@);
        }
        if str_eq(refs[i].id.as_str(), id) {
            proof {
                lemma_first_path_stays(all, i + 1, id@);
            }
            return Some(refs[i].path.as_str());
        }
        i += 1;
    }
    assert(all.take(refs@.len() as int) =~= all);
    None
}

/// A path found among the first `k` entries is the one found among all.
proof fn lemma_first_path_stays(refs: Seq<ContentRefView>, k: int, id: Seq<char>)
    requires
        0 <= k <= refs.len(),
        first_path(refs.take(k), id) is Some,
    ensures
        first_path(refs, id) == first_path(refs.take(k), id),
    decreases refs.len() - k,
{
    if k == refs.len() {
        assert(refs.take(k) =~= refs);
    } else {
        assert(refs.take(k + 1).drop_last() =~= refs.take(k));
        lemma_first_path_stays(refs, k + 1, id);
    }
}

/// Finds the path of the last entry with the identifier `id`.
pub fn find_last_path<'a>(refs: &'a Vec<ContentRef>, id: &str) -> (path: Option<&'a str>)
    ensures
        match path {
            Some(p) => last_path(refs.deep_view(), id@) == Some(p@),
            None => last_path(refs.deep_view(), id@) is None,
        },
{
    let ghost all = refs.deep_view();
    let mut i: usize = refs.len();
    assert(all.take(i as int) =~= all);
    while i > 0
        invariant
            i <= refs@.len(),
            all == refs.deep_view(),
            last_path(all, id@) == last_path(all.take(i as int), id@),
        decreases i,
    {
        i -= 1;
        proof {
            assert(all.take(i + 1).drop_last() =~= all.take(i as int));
            assert(all.take(i + 1).last() == refs@[i as int]@);
        }
        if str_eq(refs[i].id.as_str(), id) {
            return Some(refs[i].path.as_str());
        }
    }
    assert(all.take(0) =~= Seq::empty());
    None
}

/// What the seat with the index `seat` is given by a phase: the patch where
/// `kind` asks for patches, the sheet where it asks for sheets. A phase with
/// fewer seats gives nothing.
pub open spec fn assigned(phase: PhaseView, seat: int, kind: ContentKind) -> Option<Seq<char>> {
    if 0 <= seat < phase.assignments.len() {
        match kind {
            ContentKind::Patch => phase.assignments[seat].rnbo_id,
            ContentKind::Sheet => phase.assignments[seat].sheet_id,
        }
    } else {
        None
    }
}

/// The content of one kind that a seat is given in any phase: each
/// identifier once, in the order in which the phases first name it.
pub open spec fn wanted_ids(phases: Seq<(Seq<char>, PhaseView)>, seat: int, kind: ContentKind) -> Seq<
    Seq<char>,
>
    decreases phases.len(),
{
    if phases.len() == 0 {
        Seq::empty()
    } else {
        let earlier = wanted_ids(phases.drop_last(), seat, kind);
        match assigned(phases.last().1, seat, kind) {
            Some(id) => if earlier.contains(id) {
                earlier
            } else {
                earlier.push(id)
            },
            None => earlier,
        }
    }
}

/// Each identifier of `ids` that the palette holds, with its path: the path
/// of the last palette entry with that identifier.
pub open spec fn resolved(ids: Seq<Seq<char>>, refs: Seq<ContentRefView>) -> Seq<ContentRefView>
    decreases ids.len(),
{
    if ids.len() == 0 {
        Seq::empty()
    } else {
        let earlier = resolved(ids.drop_last(), refs);
        match last_path(refs, ids.last()) {
            Some(path) => earlier.push(ContentRefView { id: ids.last(), path }),
            None => earlier,
        }
    }
}

/// The characters of each string of a list.
pub open spec fn texts(list: Seq<String>) -> Seq<Seq<char>> {
    Seq::new(list.len(), |i: int| list[i]@)
}

fn holds_text(list: &Vec<String>, text: &str) -> (found: bool)
    ensures
        found == texts(list@).contains(text@),
{
    let mut i: usize = 0;
    while i < list.len()
        invariant
            i <= list@.len(),
            forall|j: int| 0 <= j < i ==> (#[trigger] texts(list@)[j]) != text@,
        decreases list@.len() - i,
    {
        if str_eq(list[i].as_str(), text) {
            assert(texts(list@)[i as int] == text@);
            return true;
        }
        i += 1;
    }
    false
}

fn assigned_to<'a>(phase: &'a Phase, seat: usize, kind: ContentKind) -> (id: Option<&'a String>)
    ensures
        match id {
            Some(s) => assigned(phase@, seat as int, kind) == Some(s@),
            None => assigned(phase@, seat as int, kind) is None,
        },
{
    if seat < phase.assignments.len() {
        let assignment: &SeatAssignment = &phase.assignments[seat];
        assert(phase@.assignments[seat as int] == assignment@);
        match kind {
            ContentKind::Patch => assignment.rnbo_id.as_ref(),
            ContentKind::Sheet => assignment.sheet_id.as_ref(),
        }
    } else {
        None
    }
}

/// Collects the content of one kind that the seat with the index `seat` is
/// given in any phase.
pub fn collect_wanted_ids(phases: &TextMap<Phase>, seat: usize, kind: ContentKind) -> (ids: Vec<
    String,
>)
    ensures
        texts(ids@) == wanted_ids(phases_view(phases@), seat as int, kind),
{
    let ghost all = phases_view(phases@);
    let n = phases.len();
    let mut ids: Vec<String> = Vec::new();
    let mut i: usize = 0;
    assert(all.take(0) =~= Seq::empty());
    assert(texts(ids@) =~= Seq::empty());
    while i < n
        invariant
            i <= n,
            n == phases@.len(),
            all == phases_view(phases@),
            texts(ids@) == wanted_ids(all.take(i as int), seat as int, kind),
        decreases n - i,
    {
        proof {
            assert(all.take(i + 1).drop_last() =~= all.take(i as int));
            assert(all.take(i + 1).last() == all[i as int]);
        }
        let phase = phases.value_at(i);
        match assigned_to(phase, seat, kind) {
            Some(id) => {
                if !holds_text(&ids, id.as_str()) {
                    let ghost before = texts(ids@);
                    ids.push(id.clone());
                    assert(texts(ids@) =~= before.push(id@));
                }
            },
            None => {},
        }
        i += 1;
    }
    assert(all.take(n as int) =~= all);
    ids
}

/// Looks each identifier up in the palette entries and keeps those it finds.
pub fn resolve_paths(ids: &Vec<String>, refs: &Vec<ContentRef>) -> (found: Vec<ContentRef>)
    ensures
        found.deep_view() == resolved(texts(ids@), refs.deep_view()),
{
    let ghost all = texts(ids@);
    let mut found: Vec<ContentRef> = Vec::new();
    let mut i: usize = 0;
    assert(all.take(0) =~= Seq::empty());
    assert(found.deep_view() =~= Seq::empty());
    while i < ids.len()
        invariant
            i <= ids@.len(),
            all == texts(ids@),
            found.deep_view() == resolved(all.take(i as int), refs.deep_view()),
        decreases ids@.len() - i,
    {
        proof {
            assert(all.take(i + 1).drop_last() =~= all.take(i as int));
            assert(all.take(i + 1).last() == ids@[i as int]@);
        }
        match find_last_path(refs, ids[i].as_str()) {
            Some(path) => {
                let ghost before = found.deep_view();
                let entry = ContentRef {
                    id: ids[i].clone(),
                    path: path.to_owned(),
                };
                found.push(entry);
                assert(found.deep_view() =~= before.push(entry@));
            },
            None => {},
        }
        i += 1;
    }
    assert(all.take(ids@.len() as int) =~= all);
    found
}

} // verus!
