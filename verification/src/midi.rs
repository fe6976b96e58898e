//! State that follows a MIDI device: how hard each key of a keyboard is
//! held and how a display follows it, and four dials that the pitch wheel
//! sets one at a time.

use vstd::prelude::*;

verus! {

/// Number of keys that a keyboard tracks.
pub const KEYS: usize = 128;

/// First key that the display shows.
pub const FIRST_SHOWN: usize = 24;

/// Number of keys that the display shows.
pub const SHOWN: usize = 36;

/// The pitch wheel's amount when it is pushed all the way.
pub const FULL_BEND: u16 = 16383;

/// What a MIDI device reports.
#[derive(Debug, Clone, Copy, PartialEq, Eq, Structural)]
pub enum MidiMessage {
    /// A key went down, with a velocity.
    NoteOn(u8, u8),
    /// A key came up, with a velocity.
    NoteOff(u8, u8),
    /// The pitch wheel moved to an amount between 0 and `FULL_BEND`.
    PitchBendChange(u16),
    /// Anything else.
    Other,
}

/// The velocity at which each key is held; zero for a key that is up.
pub struct Keyboard {
    pub keys: [u8; 128],
}

impl Keyboard {
    /// A keyboard with every key up.
    pub fn new() -> (k: Keyboard)
        ensures
            forall|i: int| 0 <= i < KEYS ==> k.keys@[i] == 0,
    {
        Keyboard { keys: [0u8;128] }
    }

    /// The keys after a message: a key that goes down holds its velocity,
    /// a key that comes up holds zero, and the others stay as they were.
    pub open spec fn after(self, msg: MidiMessage) -> Seq<u8> {
        match msg {
            MidiMessage::NoteOn(key, vel) => self.keys@.update(key as int, vel),
            MidiMessage::NoteOff(key, _) => self.keys@.update(key as int, 0u8),
            _ => self.keys@,
        }
    }

    /// Takes in one message. The key it names must be one that the
    /// keyboard tracks.
    pub fn on_midi_message(&mut self, msg: MidiMessage)
        requires
            msg matches MidiMessage::NoteOn(key, _) ==> key < KEYS,
            msg matches MidiMessage::NoteOff(key, _) ==> key < KEYS,
        ensures
            final(self).keys@ == old(self).after(msg),
    {
        match msg {
            MidiMessage::NoteOn(key, vel) => {
                self.keys[key as usize] = vel;
            },
            MidiMessage::NoteOff(key, _) => {
                self.keys[key as usize] = 0;
            },
            _ => {},
        }
    }

    /// The velocities of the keys that the display shows, lowest key first.
    pub fn shown(&self) -> (part: Vec<u8>)
        ensures
            part@ == self.keys@.subrange(FIRST_SHOWN as int, FIRST_SHOWN + SHOWN),
    {
        let mut part: Vec<u8> = Vec::new();
        let mut i: usize = 0;
        while i < SHOWN
            invariant
                i <= SHOWN,
                part@ == self.keys@.subrange(FIRST_SHOWN as int, FIRST_SHOWN + i),
            decreases SHOWN - i,
        {
            part.push(self.keys[FIRST_SHOWN + i]);
            i += 1;
            assert(part@ =~= self.keys@.subrange(FIRST_SHOWN as int, FIRST_SHOWN + i));
        }
        part
    }
}

/// What the display shows for a key that is now at `new` and was shown at
/// `old`: a harder press at once, a softer one half way.
pub open spec fn spec_blend(new: u8, old: u8) -> int {
    if new > old {
        new as int
    } else {
        (new + old) / 2
    }
}

/// Blends two rows of velocities key by key, as far as both reach.
pub fn interpolate(new: Vec<u8>, old: Vec<u8>) -> (shown: Vec<u8>)
    requires
        forall|i: int|
            0 <= i < new@.len() && i < old@.len() && new@[i] <= old@[i] ==> new@[i] + old@[i]
                <= u8::MAX,
    ensures
        shown@.len() == (if new@.len() <= old@.len() {
            new@.len()
        } else {
            old@.len()
        }),
        forall|i: int| 0 <= i < shown@.len() ==> shown@[i] == spec_blend(new@[i], old@[i]),
{
    let n: usize = if new.len() <= old.len() {
        new.len()
    } else {
        old.len()
    };
    let mut shown: Vec<u8> = Vec::new();
    let mut i: usize = 0;
    while i < n
        invariant
            i <= n,
            n <= new@.len(),
            n <= old@.len(),
            shown@.len() == i,
            forall|j: int| 0 <= j < i ==> shown@[j] == spec_blend(new@[j], old@[j]),
            forall|j: int|
                0 <= j < new@.len() && j < old@.len() && new@[j] <= old@[j] ==> new@[j] + old@[j]
                    <= u8::MAX,
        decreases n - i,
    {
        let a: u8 = new[i];
        let b: u8 = old[i];
        let blended: u8 = if a > b {
            a
        } else {
            (a + b) / 2
        };
        shown.push(blended);
        i += 1;
    }
    shown
}

/// One of the four dials.
#[derive(Debug, Clone, Copy, PartialEq, Eq, Structural)]
pub enum Track {
    W,
    X,
    Y,
    Z,
}

/// Four dials, each at the pitch-wheel amount it was last set to, and the
/// one that the wheel sets now.
#[derive(Debug, Clone, Copy, PartialEq, Eq, Structural)]
pub struct Dials {
    pub active_track: Track,
    pub w: u16,
    pub x: u16,
    pub y: u16,
    pub z: u16,
}

impl Dials {
    /// All four dials at full, with the wheel on the first.
    pub fn new() -> (dials: Dials)
        ensures
            dials == (Dials {
                active_track: Track::W,
                w: FULL_BEND,
                x: FULL_BEND,
                y: FULL_BEND,
                z: FULL_BEND,
            }),
    {
        Dials { active_track: Track::W, w: FULL_BEND, x: FULL_BEND, y: FULL_BEND, z: FULL_BEND }
    }

    /// The dial that pressing `key` selects, if it selects one.
    pub open spec fn selected_by(key: u8) -> Option<Track> {
        if key == 28 {
            Some(Track::W)
        } else if key == 29 {
            Some(Track::X)
        } else if key == 30 {
            Some(Track::Y)
        } else if key == 31 {
            Some(Track::Z)
        } else {
            None
        }
    }

    /// The dials with the active one set to `amount`.
    pub open spec fn with_active_at(self, amount: u16) -> Dials {
        match self.active_track {
            Track::W => Dials { w: amount, ..self },
            Track::X => Dials { x: amount, ..self },
            Track::Y => Dials { y: amount, ..self },
            Track::Z => Dials { z: amount, ..self },
        }
    }

    /// The dials after a message: pressing one of four keys selects a
    /// dial, the pitch wheel sets the selected dial, and anything else
    /// changes nothing.
    pub open spec fn after(self, msg: MidiMessage) -> Dials {
        match msg {
            MidiMessage::NoteOn(key, _) => match Self::selected_by(key) {
                Some(track) => Dials { active_track: track, ..self },
                None => self,
            },
            MidiMessage::PitchBendChange(amount) => self.with_active_at(amount),
            _ => self,
        }
    }

    /// Takes in one message.
    pub fn on_midi_message(&mut self, msg: MidiMessage)
        ensures
            *final(self) == old(self).after(msg),
    {
        match msg {
            MidiMessage::NoteOn(28, _) => {
                self.active_track = Track::W;
            },
            MidiMessage::NoteOn(29, _) => {
                self.active_track = Track::X;
            },
            MidiMessage::NoteOn(30, _) => {
                self.active_track = Track::Y;
            },
            MidiMessage::NoteOn(31, _) => {
                self.active_track = Track::Z;
            },
            MidiMessage::PitchBendChange(amount) => {
                match self.active_track {
                    Track::W => self.w = amount,
                    Track::X => self.x = amount,
                    Track::Y => self.y = amount,
                    Track::Z => self.z = amount,
                }
            },
            _ => {},
        }
    }
}

} // verus!
