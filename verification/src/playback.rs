use vstd::prelude::*;
use crate::order::lex_le;
use crate::order::sorted_names;
use crate::order::sort_names;

verus! {

/// Phase of the playback state machine: handing out frames, draining
/// the audio process after the last frame, or done.
pub enum Phase {
    Playing,
    Draining,
    Done,
}

/// What the playback loop asks its surroundings to do next.
pub enum Action {
    /// Render and draw the named frame, then sleep out the frame budget.
    Draw(String),
    /// Block until the audio process exits.
    WaitAudio,
    /// Playback is finished.
    Stop,
}

/// A playback plan: the frames in ascending name order, a cursor over
/// them, and the machine's phase.  Each `step` call decides the next
/// action; the surroundings perform it.
pub struct Playback {
    pub frames: Vec<String>,
    pub next: usize,
    pub phase: Phase,
}

impl Playback {
    /// The cursor never passes the end of the plan.
    pub open spec fn wf(self) -> bool {
        self.next <= self.frames@.len()
    }

    /// Plans a playback of the given frame names: the plan holds
    /// exactly those names, in ascending lexicographic order, with the
    /// cursor at the first frame.
    pub fn new(names: Vec<String>) -> (p: Playback)
        ensures
            p.wf(),
            p.phase is Playing,
            p.next == 0,
            sorted_names(p.frames@),
            p.frames@.to_multiset() == names@.to_multiset(),
            p.frames@.len() == names@.len(),
    {
        let frames = sort_names(names);
        Playback { frames, next: 0, phase: Phase::Playing }
    }

    /// One decision of the playback loop.  While frames remain it hands
    /// out exactly the frame under the cursor and moves the cursor one
    /// ahead — no frame is skipped, repeated or reordered.  After the
    /// last frame it asks once for the audio process to be awaited,
    /// then stops.
    pub fn step(&mut self) -> (a: Action)
        requires
            old(self).wf(),
        ensures
            final(self).wf(),
            final(self).frames == old(self).frames,
            old(self).phase is Playing && old(self).next < old(self).frames@.len() ==> {
                &&& a matches Action::Draw(name) && name@ == old(self).frames@[old(self).next as int]@
                &&& final(self).next == old(self).next + 1
                &&& final(self).phase is Playing
            },
            old(self).phase is Playing && old(self).next == old(self).frames@.len() ==> {
                &&& a is WaitAudio
                &&& final(self).phase is Draining
                &&& final(self).next == old(self).next
            },
            !(old(self).phase is Playing) ==> {
                &&& a is Stop
                &&& final(self).phase is Done
                &&& final(self).next == old(self).next
            },
    {
        match self.phase {
            Phase::Playing => {
                if self.next < self.frames.len() {
                    let name = self.frames[self.next].clone();
                    self.next = self.next + 1;
                    Action::Draw(name)
                } else {
                    self.phase = Phase::Draining;
                    Action::WaitAudio
                }
            },
            Phase::Draining => {
                self.phase = Phase::Done;
                Action::Stop
            },
            Phase::Done => Action::Stop,
        }
    }
}

/// Law: frames are displayed in ascending lexicographic order of their
/// names — strictly ascending wherever the names differ.  In any
/// playback plan an earlier frame's name precedes a later one's; since
/// `step` hands out the frames exactly in plan order, the displayed
/// order is the sorted order, with no frame skipped or repeated.
pub proof fn lemma_frames_in_order(p: Playback, k: int, l: int)
    requires
        sorted_names(p.frames@),
        0 <= k < l < p.frames@.len(),
    ensures
        lex_le(p.frames@[k]@, p.frames@[l]@),
        p.frames@[k]@ != p.frames@[l]@ ==> !lex_le(p.frames@[l]@, p.frames@[k]@),
{
    if lex_le(p.frames@[l]@, p.frames@[k]@) {
        crate::order::lemma_lex_le_antisymmetric(p.frames@[k]@, p.frames@[l]@);
    }
}

} // verus!
