//! The cue that starts a phase: its tempo, the instant it is given and, for
//! each seat that has both a patch and a sheet, what that seat plays.

use vstd::prelude::*;
use vstd::string::StringExecFns;
use crate::json::{json_quoted, quote};
use crate::state::{Phase, PhaseView, SeatAssignmentView};
use crate::text::{decimal, push_decimal, push_signed_decimal, signed_decimal};

verus! {

/// What one seat plays in the phase that starts.
#[derive(Debug)]
pub struct AssignmentPayload {
    pub rnbo_id: String,
    pub sheet_id: String,
}

pub struct AssignmentPayloadView {
    pub rnbo_id: Seq<char>,
    pub sheet_id: Seq<char>,
}

impl DeepView for AssignmentPayload {
    type V = AssignmentPayloadView;

    open spec fn deep_view(&self) -> AssignmentPayloadView {
        AssignmentPayloadView { rnbo_id: self.rnbo_id@, sheet_id: self.sheet_id@ }
    }
}

impl View for AssignmentPayload {
    type V = AssignmentPayloadView;

    open spec fn view(&self) -> AssignmentPayloadView {
        self.deep_view()
    }
}

/// The cue for all clients.
#[derive(Debug)]
pub struct PhaseStartPayload {
    pub bpm: u32,
    /// Milliseconds since the epoch at which the cue was made.
    pub start_time: i64,
    /// The seats that play, each by its index, in rising order.
    pub assignments: Vec<(usize, AssignmentPayload)>,
}

pub struct PhaseStartPayloadView {
    pub bpm: u32,
    pub start_time: i64,
    pub assignments: Seq<(usize, AssignmentPayloadView)>,
}

/// The seat entries of a cue as the contracts see them.
pub open spec fn cues_view(cues: Seq<(usize, AssignmentPayload)>) -> Seq<
    (usize, AssignmentPayloadView),
> {
    Seq::new(cues.len(), |i: int| (cues[i].0, cues[i].1@))
}

impl View for PhaseStartPayload {
    type V = PhaseStartPayloadView;

    open spec fn view(&self) -> PhaseStartPayloadView {
        PhaseStartPayloadView {
            bpm: self.bpm,
            start_time: self.start_time,
            assignments: cues_view(self.assignments@),
        }
    }
}

/// The seats of a phase that get content with the cue: those with both a
/// patch and a sheet, each under its index. A seat with only one of the two,
/// or with neither, is left out.
pub open spec fn cues_of(assignments: Seq<SeatAssignmentView>) -> Seq<(usize, AssignmentPayloadView)>
    decreases assignments.len(),
{
    if assignments.len() == 0 {
        Seq::empty()
    } else {
        let earlier = cues_of(assignments.drop_last());
        let seat = assignments.last();
        match (seat.rnbo_id, seat.sheet_id) {
            (Some(rnbo_id), Some(sheet_id)) => earlier.push(
                ((assignments.len() - 1) as usize, AssignmentPayloadView { rnbo_id, sheet_id }),
            ),
            _ => earlier,
        }
    }
}

/// The cue that starts `phase` at `start_time`.
pub open spec fn cue_of(phase: PhaseView, start_time: i64) -> PhaseStartPayloadView {
    PhaseStartPayloadView { bpm: phase.bpm, start_time, assignments: cues_of(phase.assignments) }
}

/// One seat of a cue on the wire: its index as the key.
pub open spec fn cue_wire_text(cue: (usize, AssignmentPayloadView)) -> Seq<char> {
    "\""@ + decimal(cue.0 as nat) + "\":{\"rnbo_id\":"@ + json_quoted(cue.1.rnbo_id)
        + ",\"sheet_id\":"@ + json_quoted(cue.1.sheet_id) + "}"@
}

/// The seats of a cue on the wire, with commas between them.
pub open spec fn cues_wire_text(cues: Seq<(usize, AssignmentPayloadView)>) -> Seq<char>
    decreases cues.len(),
{
    if cues.len() == 0 {
        Seq::empty()
    } else if cues.len() == 1 {
        cue_wire_text(cues[0])
    } else {
        cues_wire_text(cues.drop_last()) + ","@ + cue_wire_text(cues.last())
    }
}

impl PhaseStartPayloadView {
    /// The cue as it goes over the wire.
    pub open spec fn wire_text(self) -> Seq<char> {
        "{\"type\":\"phase_start\",\"bpm\":"@ + decimal(self.bpm as nat) + ",\"start_time\":"@
            + signed_decimal(self.start_time as int) + ",\"assignments\":{"@ + cues_wire_text(
            self.assignments,
        ) + "}}"@
    }
}

impl PhaseStartPayload {
    /// Makes the cue that starts `phase` at `start_time`.
    pub fn new(phase: &Phase, start_time: i64) -> (payload: Self)
        ensures
            payload@ == cue_of(phase@, start_time),
    {
        let ghost all = phase@.assignments;
        let mut assignments: Vec<(usize, AssignmentPayload)> = Vec::new();
        let mut i: usize = 0;
        assert(all.take(0) =~= Seq::empty());
        assert(cues_view(assignments@) =~= Seq::empty());
        while i < phase.assignments.len()
            invariant
                i <= phase.assignments@.len(),
                all == phase@.assignments,
                all.len() == phase.assignments@.len(),
                cues_view(assignments@) == cues_of(all.take(i as int)),
            decreases phase.assignments@.len() - i,
        {
            proof {
                assert(all.take(i + 1).drop_last() =~= all.take(i as int));
                assert(all.take(i + 1).last() == phase.assignments@[i as int]@);
            }
            let seat = &phase.assignments[i];
            match (&seat.rnbo_id, &seat.sheet_id) {
                (Some(rnbo_id), Some(sheet_id)) => {
                    let ghost before = cues_view(assignments@);
                    let entry = AssignmentPayload {
                        rnbo_id: rnbo_id.clone(),
                        sheet_id: sheet_id.clone(),
                    };
                    assignments.push((i, entry));
                    assert(cues_view(assignments@) =~= before.push((i, entry@)));
                },
                _ => {},
            }
            i += 1;
        }
        assert(all.take(phase.assignments@.len() as int) =~= all);
        PhaseStartPayload { bpm: phase.bpm, start_time, assignments }
    }

    /// Writes the cue as the text that goes over the wire.
    pub fn to_json(&self) -> (text: String)
        ensures
            text@ == self@.wire_text(),
    {
        let mut text = String::from_str("{\"type\":\"phase_start\",\"bpm\":");
        push_decimal(&mut text, self.bpm as u64);
        text.append(",\"start_time\":");
        push_signed_decimal(&mut text, self.start_time);
        text.append(",\"assignments\":{");
        let ghost head = text@;
        let ghost all = cues_view(self.assignments@);
        let mut i: usize = 0;
        assert(all.take(0) =~= Seq::empty());
        while i < self.assignments.len()
            invariant
                i <= self.assignments@.len(),
                all == cues_view(self.assignments@),
                text@ == head + cues_wire_text(all.take(i as int)),
            decreases self.assignments@.len() - i,
        {
            let ghost before = text@;
            if i > 0 {
                text.append(",");
            }
            text.append("\"");
            push_decimal(&mut text, self.assignments[i].0 as u64);
            text.append("\":{\"rnbo_id\":");
            text.append(quote(self.assignments[i].1.rnbo_id.as_str()).as_str());
            text.append(",\"sheet_id\":");
            text.append(quote(self.assignments[i].1.sheet_id.as_str()).as_str());
            text.append("}");
            proof {
                let next = all.take(i + 1);
                assert(next.drop_last() =~= all.take(i as int));
                assert(next.last() == all[i as int]);
                if i > 0 {
                    assert(text@ =~= before + ","@ + cue_wire_text(next.last()));
                } else {
                    assert(cues_wire_text(all.take(0)) =~= Seq::empty());
                    assert(text@ =~= before + cue_wire_text(next.last()));
                    assert(next[0] == next.last());
                }
                assert(text@ =~= head + cues_wire_text(next));
            }
            i += 1;
        }
        assert(all.take(self.assignments@.len() as int) =~= all);
        text.append("}}");
        text
    }
}

/// Which seats a cue names: the seat with the index `seat` has an entry in
/// the cue exactly where the phase gives it both a patch and a sheet, and the
/// entry holds those two.
pub proof fn lemma_cue_names_full_seats(assignments: Seq<SeatAssignmentView>, seat: int)
    requires
        0 <= seat < assignments.len(),
        assignments.len() <= usize::MAX,
    ensures
        (exists|k: int| 0 <= k < cues_of(assignments).len() && (#[trigger] cues_of(assignments)[k]).0
            == seat) <==> (assignments[seat].rnbo_id is Some && assignments[seat].sheet_id is Some),
        forall|k: int|
            0 <= k < cues_of(assignments).len() && (#[trigger] cues_of(assignments)[k]).0 == seat
                ==> assignments[seat].rnbo_id == Some(cues_of(assignments)[k].1.rnbo_id)
                && assignments[seat].sheet_id == Some(cues_of(assignments)[k].1.sheet_id),
    decreases assignments.len(),
{
    let cues = cues_of(assignments);
    let earlier = cues_of(assignments.drop_last());
    let top = assignments.len() - 1;
    lemma_cue_seats_in_range(assignments.drop_last());
    if seat < top {
        lemma_cue_names_full_seats(assignments.drop_last(), seat);
        assert(assignments.drop_last()[seat] == assignments[seat]);
        if exists|k: int| 0 <= k < earlier.len() && (#[trigger] earlier[k]).0 == seat {
            let k = choose|k: int| 0 <= k < earlier.len() && (#[trigger] earlier[k]).0 == seat;
            assert(cues[k] == earlier[k]);
        }
        assert forall|k: int| 0 <= k < cues.len() && (#[trigger] cues[k]).0 == seat implies 0 <= k
            < earlier.len() && earlier[k] == cues[k] by {
            if k >= earlier.len() {
                assert(cues[k].0 == top);
            }
        }
        if exists|k: int| 0 <= k < cues.len() && (#[trigger] cues[k]).0 == seat {
            let k = choose|k: int| 0 <= k < cues.len() && (#[trigger] cues[k]).0 == seat;
            assert(earlier[k].0 == seat);
        }
    } else {
        assert forall|k: int| 0 <= k < earlier.len() implies (#[trigger] earlier[k]).0 != seat by {}
        if assignments[seat].rnbo_id is Some && assignments[seat].sheet_id is Some {
            assert(cues[earlier.len() as int].0 == seat);
        } else {
            assert(cues == earlier);
        }
        assert forall|k: int| 0 <= k < cues.len() && (#[trigger] cues[k]).0 == seat implies k
            == earlier.len() by {
            if k < earlier.len() {
                assert(cues[k] == earlier[k]);
            }
        }
    }
}

/// Every entry of a cue names a seat of the phase.
pub proof fn lemma_cue_seats_in_range(assignments: Seq<SeatAssignmentView>)
    requires
        assignments.len() <= usize::MAX,
    ensures
        forall|k: int|
            0 <= k < cues_of(assignments).len() ==> (#[trigger] cues_of(assignments)[k]).0
                < assignments.len(),
    decreases assignments.len(),
{
    if assignments.len() > 0 {
        lemma_cue_seats_in_range(assignments.drop_last());
        let cues = cues_of(assignments);
        let earlier = cues_of(assignments.drop_last());
        assert forall|k: int| 0 <= k < cues.len() implies (#[trigger] cues[k]).0
            < assignments.len() by {
            if k < earlier.len() {
                assert(cues[k] == earlier[k]);
            }
        }
    }
}

} // verus!
