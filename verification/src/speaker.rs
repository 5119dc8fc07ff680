use vstd::prelude::*;

verus! {

/// The tone signal: on while the machine wants a tone played.
pub struct Speaker {
    beeping: bool,
}

impl Speaker {
    /// A silent speaker.
    pub fn new() -> (speaker: Speaker)
        ensures
            !speaker.is_on(),
    {
        Speaker { beeping: false }
    }

    /// Whether the tone signal is on.
    pub closed spec fn is_on(&self) -> bool {
        self.beeping
    }

    /// Whether the tone signal is on.
    pub fn is_beeping(&self) -> (on: bool)
        ensures
            on == self.is_on(),
    {
        self.beeping
    }

    /// Turns the tone signal on.
    pub fn start_beep(&mut self)
        ensures
            final(self).is_on(),
    {
        self.beeping = true;
    }

    /// Turns the tone signal off.
    pub fn stop_beep(&mut self)
        ensures
            !final(self).is_on(),
    {
        self.beeping = false;
    }
}

} // verus!
