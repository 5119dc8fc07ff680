use vstd::prelude::*;
use crate::cpu::CPU;
use crate::fault::Fault;
use crate::keypad::{keys_after, Keypad};
use crate::state::State;

verus! {

broadcast use crate::keypad::Keypad::lemma_len;

/// Instructions run per frame unless the host asks for another number.
pub const DEFAULT_INSTRUCTIONS_PER_FRAME: usize = 50;

/// Length of a frame in milliseconds, for a cadence of about sixty frames
/// per second.
pub const FRAME_TIME_IN_MILLIS: u64 = 17;

/// Host key code of the key that raises the number of instructions per frame.
pub const KEYCODE_PAGE_UP: i32 = 0x4000_004B;

/// Host key code of the key that lowers the number of instructions per frame.
pub const KEYCODE_PAGE_DOWN: i32 = 0x4000_004E;

/// What the host reports between two frames.
#[derive(Clone, Copy, Debug, PartialEq, Eq, Structural)]
pub enum HostEvent {
    /// The host asks for the run to end.
    Quit,
    /// A key went down.
    KeyDown { keycode: i32 },
    /// A key went up.
    KeyUp { keycode: i32 },
}

/// What the host does after a frame.
#[derive(Clone, Copy, Debug, PartialEq, Eq, Structural)]
pub enum FrameOutcome {
    /// The host asked to quit: nothing was executed, and the run ends.
    Quit,
    /// The frame ran: present the framebuffer, set the tone as given, and
    /// wait out the rest of the frame time.
    Present { tone: bool },
}

/// The number of instructions per frame after the key `keycode` went down:
/// one more for page-up unless the number is at its maximum, one less for
/// page-down while more than one, unchanged for any other key.
pub open spec fn pace_after(instructions_per_frame: usize, keycode: i32) -> usize {
    if keycode == KEYCODE_PAGE_UP && instructions_per_frame < usize::MAX {
        (instructions_per_frame + 1) as usize
    } else if keycode == KEYCODE_PAGE_DOWN && instructions_per_frame > 1 {
        (instructions_per_frame - 1) as usize
    } else {
        instructions_per_frame
    }
}

/// What the frame driver keeps between frames besides the machine: the key
/// levels and the number of instructions per frame.
pub struct Controls {
    pub keys: Seq<bool>,
    pub instructions_per_frame: usize,
}

/// The controls after the events have been taken in, in order, and whether
/// the host asked to quit. Events after a quit request are not looked at.
pub open spec fn events_applied(controls: Controls, events: Seq<HostEvent>) -> (Controls, bool)
    decreases events.len(),
{
    if events.len() == 0 {
        (controls, false)
    } else {
        match events.first() {
            HostEvent::Quit => (controls, true),
            HostEvent::KeyDown { keycode } => events_applied(
                Controls {
                    keys: keys_after(controls.keys, keycode as int, true),
                    instructions_per_frame: pace_after(controls.instructions_per_frame, keycode),
                },
                events.drop_first(),
            ),
            HostEvent::KeyUp { keycode } => events_applied(
                Controls { keys: keys_after(controls.keys, keycode as int, false), ..controls },
                events.drop_first(),
            ),
        }
    }
}

/// The frame driver: the machine, the keypad it reads, and the pace.
pub struct Emulator {
    cpu: CPU,
    instructions_per_frame: usize,
    keypad: Keypad,
}

impl Emulator {
    /// The machine's state.
    pub closed spec fn machine(&self) -> State {
        self.cpu@
    }

    /// The key levels and the pace.
    pub closed spec fn controls(&self) -> Controls {
        Controls { keys: self.keypad@, instructions_per_frame: self.instructions_per_frame }
    }

    /// The invariant that holds between frames.
    pub open spec fn wf(&self) -> bool {
        self.machine().wf() && self.controls().keys.len() == 16
    }

    /// A driver around a machine at reset, with every key up and the given
    /// pace, or the default pace where none is given.
    pub fn new(instructions_per_frame: Option<usize>) -> (emulator: Emulator)
        ensures
            emulator.wf(),
            emulator.machine() == State::initial(),
            emulator.controls().keys == Keypad::new_keys(),
            emulator.controls().instructions_per_frame == match instructions_per_frame {
                Some(pace) => pace,
                None => DEFAULT_INSTRUCTIONS_PER_FRAME,
            },
    {
        let pace = match instructions_per_frame {
            Some(pace) => pace,
            None => DEFAULT_INSTRUCTIONS_PER_FRAME,
        };
        Emulator { cpu: CPU::new(), instructions_per_frame: pace, keypad: Keypad::new() }
    }

    /// Loads the font table and the program image. An image that does not
    /// fit is rejected; the font table is loaded even then.
    pub fn load(&mut self, program: &[u8]) -> (result: Result<(), Fault>)
        requires
            old(self).wf(),
        ensures
            final(self).wf(),
            final(self).controls() == old(self).controls(),
            final(self).machine() == old(self).machine().loaded(program@).0,
            match old(self).machine().loaded(program@).1 {
                None => result.is_ok(),
                Some(fault) => result == Err::<(), Fault>(fault),
            },
    {
        let _ = self.cpu.load_font_in_ram();
        self.cpu.load_program_in_ram(program)
    }

    /// Takes in the host's events in order. Returns whether the host asked
    /// to quit; events after that request are left alone.
    pub fn process_events(&mut self, events: &[HostEvent]) -> (should_quit: bool)
        ensures
            (final(self).controls(), should_quit) == events_applied(old(self).controls(), events@),
            final(self).machine() == old(self).machine(),
    {
        let mut index: usize = 0;
        proof {
            assert(events@.skip(0) =~= events@);
        }
        while index < events.len()
            invariant
                index <= events@.len(),
                self.machine() == old(self).machine(),
                events_applied(old(self).controls(), events@) == events_applied(
                    self.controls(),
                    events@.skip(index as int),
                ),
            decreases events@.len() - index,
        {
            proof {
                assert(events@.skip(index as int).first() == events@[index as int]);
                assert(events@.skip(index as int).drop_first() =~= events@.skip(index + 1));
            }
            match events[index] {
                HostEvent::Quit => {
                    return true;
                },
                HostEvent::KeyDown { keycode } => {
                    self.keypad.press_key(keycode);
                    if keycode == KEYCODE_PAGE_UP {
                        if self.instructions_per_frame < usize::MAX {
                            self.instructions_per_frame += 1;
                        }
                    } else if keycode == KEYCODE_PAGE_DOWN && self.instructions_per_frame > 1 {
                        self.instructions_per_frame -= 1;
                    }
                },
                HostEvent::KeyUp { keycode } => {
                    self.keypad.release_key(keycode);
                },
            }
            index += 1;
        }
        false
    }

    /// One frame: the events are taken in; unless the host asked to quit,
    /// the machine runs its instructions and the frame ends.
    pub fn frame(&mut self, events: &[HostEvent]) -> (result: Result<FrameOutcome, Fault>)
        requires
            old(self).wf(),
        ensures
            final(self).wf(),
            final(self).controls() == events_applied(old(self).controls(), events@).0,
            events_applied(old(self).controls(), events@).1 ==> {
                &&& result == Ok::<FrameOutcome, Fault>(FrameOutcome::Quit)
                &&& final(self).machine() == old(self).machine()
            },
            !events_applied(old(self).controls(), events@).1 ==> exists|randoms: Seq<u8>|
                {
                    &&& randoms.len() == final(self).controls().instructions_per_frame
                    &&& final(self).machine() == (#[trigger] old(self).machine().ticked(
                        final(self).controls().keys,
                        randoms,
                    )).0
                    &&& match old(self).machine().ticked(final(self).controls().keys, randoms).1 {
                        None => result == Ok::<FrameOutcome, Fault>(
                            (FrameOutcome::Present { tone: final(self).machine().tone }),
                        ),
                        Some(fault) => result == Err::<FrameOutcome, Fault>(fault),
                    }
                },
    {
        if self.process_events(events) {
            return Ok(FrameOutcome::Quit);
        }
        let ghost before = self.cpu@;
        let outcome = self.cpu.tick(&self.keypad, self.instructions_per_frame);
        let result = match outcome {
            Ok(_) => Ok(FrameOutcome::Present { tone: self.cpu.speaker().is_beeping() }),
            Err(fault) => Err(fault),
        };
        proof {
            let randoms = choose|randoms: Seq<u8>|
                {
                    &&& randoms.len() == self.instructions_per_frame
                    &&& self.cpu@ == (#[trigger] before.ticked(self.keypad@, randoms)).0
                    &&& match before.ticked(self.keypad@, randoms).1 {
                        None => outcome.is_ok(),
                        Some(fault) => outcome == Err::<(), Fault>(fault),
                    }
                };
            assert(self.machine() == old(self).machine().ticked(
                self.controls().keys,
                randoms,
            ).0);
        }
        result
    }

    /// The machine.
    pub fn cpu(&self) -> (cpu: &CPU)
        ensures
            cpu@ == self.machine(),
    {
        &self.cpu
    }

    /// The keypad.
    pub fn keypad(&self) -> (keypad: &Keypad)
        ensures
            keypad@ == self.controls().keys,
    {
        &self.keypad
    }

    /// The number of instructions run per frame.
    pub fn instructions_per_frame(&self) -> (pace: usize)
        ensures
            pace == self.controls().instructions_per_frame,
    {
        self.instructions_per_frame
    }

    /// The rectangles that paint the framebuffer on a host surface of the
    /// given size; the framebuffer counts as presented afterwards.
    pub fn refresh(&mut self, surface_width: u32, surface_height: u32) -> (rectangles: Vec<
        crate::display::Rectangle,
    >)
        ensures
            rectangles@ == crate::display::lit_rectangles(
                old(self).machine().pixels,
                (crate::display::WIDTH * crate::display::HEIGHT) as int,
                surface_width,
                surface_height,
            ),
            final(self).machine() == (State { present_due: false, ..old(self).machine() }),
            final(self).controls() == old(self).controls(),
    {
        self.cpu.refresh(surface_width, surface_height)
    }
}

} // verus!
