use vstd::prelude::*;

verus! {

/// A sound output.
pub trait SoundSystem {
}

/// Plays alerts through a sound system.
pub struct SoundSystemAlertPlayer<'s, S: SoundSystem> {
    sound_system: &'s S,
}

impl<'s, S: SoundSystem> SoundSystemAlertPlayer<'s, S> {
    pub fn new(sound_system: &'s S) -> (r: Self)
        ensures
            r.sound_system() == sound_system,
    {
        SoundSystemAlertPlayer { sound_system }
    }

    pub closed spec fn sound_system(&self) -> &'s S {
        self.sound_system
    }
}

/// One playing slot of the mixer: which sample it plays, how long that
/// sample is, and how far it has got.
#[derive(Clone, Copy, Debug)]
pub struct Voice {
    pub signal: Option<usize>,
    pub length: usize,
    pub position: usize,
}

impl Voice {
    pub open spec fn wf(&self) -> bool {
        self.position <= self.length
    }

    /// A voice at the start of sample `signal_index`, `length` frames long.
    pub fn new(signal_index: usize, length: usize) -> (r: Voice)
        ensures
            r.signal == Some(signal_index),
            r.length == length,
            r.position == 0,
            r.wf(),
    {
        Voice { signal: Some(signal_index), length, position: 0 }
    }

    /// Frames left to play.
    pub fn remaining(&self) -> (r: usize)
        requires
            self.wf(),
        ensures
            r == self.length - self.position,
    {
        self.length - self.position
    }

    /// Moves on by `l` frames, stopping at the end; tells whether the end is
    /// reached.
    pub fn advance(&mut self, l: usize) -> (r: bool)
        requires
            old(self).wf(),
        ensures
            final(self).wf(),
            final(self).signal == old(self).signal,
            final(self).length == old(self).length,
            final(self).position == if old(self).position + l <= old(self).length {
                old(self).position + l
            } else {
                old(self).length as int
            },
            r == (final(self).position >= final(self).length),
    {
        if l <= self.length - self.position {
            self.position = self.position + l;
        } else {
            self.position = self.length;
        }
        self.position >= self.length
    }
}

impl Default for Voice {
    fn default() -> (r: Voice)
        ensures
            r.signal is None,
            r.length == 0,
            r.position == 0,
    {
        Voice { signal: None, length: 0, position: 0 }
    }
}

} // verus!
