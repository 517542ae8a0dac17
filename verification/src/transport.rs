//! Playback of the timeline: playing, fast forward and rewind, and what follows
//! from them for speed, preview and sound.
use vstd::prelude::*;

verus! {

/// The state of playback.
pub struct Transport {
    playing: bool,
    ffwd: bool,
    rewind: bool,
    restart: bool,
}

/// The content of a transport: whether it plays, winds forward or winds back,
/// and whether the sound is to be restarted at the playhead.
pub struct TransportView {
    pub playing: bool,
    pub ffwd: bool,
    pub rewind: bool,
    pub restart: bool,
}

impl View for Transport {
    type V = TransportView;

    closed spec fn view(&self) -> TransportView {
        TransportView {
            playing: self.playing,
            ffwd: self.ffwd,
            rewind: self.rewind,
            restart: self.restart,
        }
    }
}

impl TransportView {
    /// It never winds both ways, and winds only while it plays.
    pub open spec fn wf(self) -> bool {
        &&& !(self.ffwd && self.rewind)
        &&& (self.ffwd || self.rewind) ==> self.playing
    }

    /// Playback at rest.
    pub open spec fn halted(self) -> TransportView {
        TransportView { playing: false, ffwd: false, rewind: false, ..self }
    }

    /// After the rewind button.
    pub open spec fn rewind_toggled(self) -> TransportView {
        if self.rewind {
            TransportView { rewind: false, ..self }
        } else {
            TransportView { rewind: true, ffwd: false, playing: true, ..self }
        }
    }

    /// After the fast forward button.
    pub open spec fn ffwd_toggled(self) -> TransportView {
        if self.ffwd {
            TransportView { ffwd: false, ..self }
        } else {
            TransportView { ffwd: true, rewind: false, playing: true, ..self }
        }
    }

    /// After the play button: playing begins with the sound restarted, or ends
    /// with all winding.
    pub open spec fn play_toggled(self) -> TransportView {
        if self.playing {
            self.halted()
        } else {
            TransportView { playing: true, restart: true, ..self }
        }
    }

    /// How many seconds the playhead moves in a second.
    pub open spec fn rate(self) -> int {
        if self.rewind {
            -3
        } else if self.ffwd {
            5
        } else {
            1
        }
    }

    /// How far, in milliseconds, the playhead moves before the preview follows.
    pub open spec fn throttle(self) -> int {
        if self.ffwd || self.rewind {
            25
        } else if self.playing {
            90
        } else {
            500
        }
    }
}

/// An end of the timeline.
#[derive(Debug, Clone, Copy, PartialEq, Eq, Structural)]
pub enum Edge {
    Start,
    End,
}

impl Transport {
    /// Every transport is well-formed.
    #[verifier::type_invariant]
    spec fn inv(&self) -> bool {
        self@.wf()
    }

    /// Playback at rest.
    pub fn new() -> (r: Transport)
        ensures
            r@ == (TransportView { playing: false, ffwd: false, rewind: false, restart: false }),
    {
        Transport { playing: false, ffwd: false, rewind: false, restart: false }
    }

    /// Stops playing and winding: the stop button, a new project, and leaving
    /// the timeline.
    pub fn halt(&mut self)
        ensures
            final(self)@ == old(self)@.halted(),
    {
        *self = Transport { playing: false, ffwd: false, rewind: false, restart: self.restart };
    }

    /// Presses the rewind button.
    pub fn toggle_rewind(&mut self)
        ensures
            final(self)@ == old(self)@.rewind_toggled(),
            final(self)@.wf(),
    {
        proof {
            use_type_invariant(&*self);
        }
        *self = if self.rewind {
            Transport { playing: self.playing, ffwd: self.ffwd, rewind: false, restart: self.restart }
        } else {
            Transport { playing: true, ffwd: false, rewind: true, restart: self.restart }
        };
    }

    /// Presses the fast forward button.
    pub fn toggle_ffwd(&mut self)
        ensures
            final(self)@ == old(self)@.ffwd_toggled(),
            final(self)@.wf(),
    {
        proof {
            use_type_invariant(&*self);
        }
        *self = if self.ffwd {
            Transport { playing: self.playing, ffwd: false, rewind: self.rewind, restart: self.restart }
        } else {
            Transport { playing: true, ffwd: true, rewind: false, restart: self.restart }
        };
    }

    /// Presses the play button.
    pub fn toggle_play(&mut self)
        ensures
            final(self)@ == old(self)@.play_toggled(),
            final(self)@.wf(),
    {
        proof {
            use_type_invariant(&*self);
        }
        if self.playing {
            self.halt();
        } else {
            *self = Transport { playing: true, ffwd: self.ffwd, rewind: self.rewind, restart: true };
        }
    }

    /// Stops at an end of the timeline that the playhead has passed, and says at
    /// which.
    pub fn settle(&mut self, past_end: bool, before_start: bool) -> (r: Option<Edge>)
        ensures
            r == if past_end {
                Some(Edge::End)
            } else if before_start {
                Some(Edge::Start)
            } else {
                None
            },
            final(self)@ == if past_end || before_start {
                old(self)@.halted()
            } else {
                old(self)@
            },
    {
        if past_end {
            self.halt();
            Some(Edge::End)
        } else if before_start {
            self.halt();
            Some(Edge::Start)
        } else {
            None
        }
    }

    /// Asks for the sound to be restarted at the playhead.
    pub fn seek(&mut self)
        ensures
            final(self)@ == (TransportView { restart: true, ..old(self)@ }),
    {
        proof {
            use_type_invariant(&*self);
        }
        *self = Transport {
            playing: self.playing,
            ffwd: self.ffwd,
            rewind: self.rewind,
            restart: true,
        };
    }

    /// Whether the sound is to be restarted, which is then no longer asked for.
    pub fn take_restart(&mut self) -> (r: bool)
        ensures
            r == old(self)@.restart,
            final(self)@ == (TransportView { restart: false, ..old(self)@ }),
    {
        proof {
            use_type_invariant(&*self);
        }
        let r = self.restart;
        *self = Transport {
            playing: self.playing,
            ffwd: self.ffwd,
            rewind: self.rewind,
            restart: false,
        };
        r
    }

    /// Whether it plays.
    pub fn is_playing(&self) -> (r: bool)
        ensures
            r == self@.playing,
    {
        self.playing
    }

    /// Whether it winds forward.
    pub fn is_ffwd(&self) -> (r: bool)
        ensures
            r == self@.ffwd,
    {
        self.ffwd
    }

    /// Whether it winds back.
    pub fn is_rewind(&self) -> (r: bool)
        ensures
            r == self@.rewind,
    {
        self.rewind
    }

    /// How many seconds the playhead moves in a second.
    pub fn rate(&self) -> (r: i32)
        ensures
            r == self@.rate(),
    {
        if self.rewind {
            -3
        } else if self.ffwd {
            5
        } else {
            1
        }
    }

    /// How far, in milliseconds, the playhead moves before the preview follows:
    /// little while winding, more while playing, most at rest.
    pub fn preview_throttle(&self) -> (r: u32)
        ensures
            r == self@.throttle(),
    {
        if self.ffwd || self.rewind {
            25
        } else if self.playing {
            90
        } else {
            500
        }
    }
}

/// How many parts the ruler of a timeline has: more for a short timeline, so
/// that cuts can be aimed at.
pub fn ruler_divisions(up_to_ten_seconds: bool, up_to_thirty_seconds: bool) -> (r: u32)
    ensures
        r == if up_to_ten_seconds {
            20
        } else if up_to_thirty_seconds {
            15
        } else {
            10int
        },
{
    if up_to_ten_seconds {
        20
    } else if up_to_thirty_seconds {
        15
    } else {
        10
    }
}

// ---------------------------------------------------------------------------
// Laws
// ---------------------------------------------------------------------------

/// Every button keeps playback from winding both ways, and from winding while
/// it does not play.
pub proof fn winding_excludes_winding_back(t: TransportView)
    requires
        t.wf(),
    ensures
        t.halted().wf(),
        t.rewind_toggled().wf(),
        t.ffwd_toggled().wf(),
        t.play_toggled().wf(),
{
}

/// Winding one way replaces winding the other way, and begins to play.
pub proof fn winding_begins_playing(t: TransportView)
    requires
        t.wf(),
    ensures
        t.ffwd ==> t.rewind_toggled().rate() == -3 && t.rewind_toggled().playing,
        t.rewind ==> t.ffwd_toggled().rate() == 5 && t.ffwd_toggled().playing,
        !t.playing ==> t.ffwd_toggled().playing && t.rewind_toggled().playing,
{
}

/// Pausing ends all winding: when playing goes on, it does so at normal speed.
pub proof fn pause_ends_winding(t: TransportView)
    requires
        t.wf(),
        t.playing,
    ensures
        t.play_toggled().play_toggled().rate() == 1,
{
}

} // verus!
