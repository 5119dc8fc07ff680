use vstd::prelude::*;
use crate::display::{blank_grid, collides, drawn, grid_wf, Position, FONT_DATA};
use crate::fault::Fault;
use crate::keypad::{lowest_pressed, KEY_COUNT};
use crate::ram::{span_in_bounds, stored, zeroed, RAM_SIZE_IN_BYTES};

verus! {

/// Number of general-purpose registers; the last one doubles as the flag.
pub const REGISTER_COUNT: usize = 16;

/// Index of the flag register.
pub const FLAG_REGISTER: usize = 0xF;

/// Number of call-stack slots. Slot 0 is the empty sentinel.
pub const STACK_SIZE: usize = 16;

/// Address at which the font table is loaded.
pub const FONT_STARTING_ADDRESS: usize = 0x000;

/// Address at which a program is loaded and execution starts.
pub const PROGRAM_STARTING_ADDRESS: usize = 0x200;

/// The largest value the program counter takes between two instructions:
/// an indirect jump to the highest address plus the highest offset.
pub const PC_LIMIT: u16 = 0x10FE;

/// A decoded two-byte instruction word.
#[derive(Clone, Copy, Debug)]
pub struct Instruction {
    /// The low byte.
    pub kk: u8,
    /// The low twelve bits.
    pub nnn: u16,
    /// The second nibble, a register index.
    pub x: usize,
    /// The third nibble, a register index.
    pub y: usize,
    /// The four nibbles, highest first.
    pub nibbles: (u8, u8, u8, u8),
}

/// The instruction that the bytes `high`, `low` encode.
pub open spec fn decoded(high: u8, low: u8) -> Instruction {
    Instruction {
        kk: low,
        nnn: ((high % 16) * 256 + low) as u16,
        x: (high % 16) as usize,
        y: (low / 16) as usize,
        nibbles: (high / 16, high % 16, low / 16, low % 16),
    }
}

impl Instruction {
    /// The fields are nibbles, and `x`, `y`, `kk`, `nnn` agree with them.
    pub open spec fn wf(&self) -> bool {
        &&& self.nibbles.0 < 16
        &&& self.nibbles.1 < 16
        &&& self.nibbles.2 < 16
        &&& self.nibbles.3 < 16
        &&& self.x == self.nibbles.1
        &&& self.y == self.nibbles.2
        &&& self.kk == self.nibbles.2 * 16 + self.nibbles.3
        &&& self.nnn == self.nibbles.1 * 256 + self.kk
    }
}

/// Everything the processor's behaviour depends on, as plain values.
pub struct State {
    /// The sixteen general-purpose registers.
    pub v: Seq<u8>,
    /// The index register.
    pub i: u16,
    /// The program counter.
    pub pc: u16,
    /// The stack pointer: the slot of the innermost outstanding call.
    pub sp: u8,
    /// The call stack.
    pub stack: Seq<u16>,
    /// The delay timer.
    pub delay_timer: u8,
    /// The sound timer.
    pub sound_timer: u8,
    /// Memory contents.
    pub memory: Seq<u8>,
    /// The framebuffer, row by row.
    pub pixels: Seq<Seq<bool>>,
    /// Whether the framebuffer was cleared since it was last presented.
    pub present_due: bool,
    /// The tone signal.
    pub tone: bool,
}

impl State {
    /// Shapes and ranges that hold between any two instructions.
    pub open spec fn wf(self) -> bool {
        &&& self.v.len() == REGISTER_COUNT
        &&& self.stack.len() == STACK_SIZE
        &&& self.memory.len() == RAM_SIZE_IN_BYTES
        &&& grid_wf(self.pixels)
        &&& self.sp < STACK_SIZE
        &&& self.pc <= PC_LIMIT
        &&& forall|slot: int| 0 <= slot < STACK_SIZE ==> #[trigger] self.stack[slot] <= RAM_SIZE_IN_BYTES
    }

    /// The machine at reset.
    pub open spec fn initial() -> State {
        State {
            v: Seq::new(REGISTER_COUNT as nat, |k: int| 0u8),
            i: 0,
            pc: PROGRAM_STARTING_ADDRESS as u16,
            sp: 0,
            stack: Seq::new(STACK_SIZE as nat, |k: int| 0u16),
            delay_timer: 0,
            sound_timer: 0,
            memory: zeroed(),
            pixels: blank_grid(),
            present_due: false,
            tone: false,
        }
    }

    pub open spec fn with_register(self, x: int, value: u8) -> State {
        State { v: self.v.update(x, value), ..self }
    }

    pub open spec fn with_flag(self, value: u8) -> State {
        self.with_register(FLAG_REGISTER as int, value)
    }

    pub open spec fn with_index(self, i: u16) -> State {
        State { i, ..self }
    }

    pub open spec fn with_pc(self, pc: u16) -> State {
        State { pc, ..self }
    }

    /// The next instruction is passed over when `condition` holds.
    pub open spec fn skipped_if(self, condition: bool) -> State {
        if condition {
            self.with_pc((self.pc + 2) as u16)
        } else {
            self
        }
    }

    /// 00E0: every pixel off, and a present is due.
    pub open spec fn cleared(self) -> State {
        State { pixels: blank_grid(), present_due: true, ..self }
    }

    /// 00EE: back to the innermost outstanding call.
    pub open spec fn returned(self) -> Result<State, Fault> {
        if self.sp == 0 {
            Err(Fault::StackUnderflow)
        } else {
            Ok(State { pc: self.stack[self.sp as int], sp: (self.sp - 1) as u8, ..self })
        }
    }

    /// 2nnn: the program counter goes onto the stack, then jumps.
    pub open spec fn called(self, nnn: u16) -> Result<State, Fault> {
        if self.sp + 1 >= STACK_SIZE {
            Err(Fault::StackOverflow)
        } else {
            Ok(
                State {
                    sp: (self.sp + 1) as u8,
                    stack: self.stack.update(self.sp + 1, self.pc),
                    pc: nnn,
                    ..self
                },
            )
        }
    }

    /// 7xkk: addition modulo 256 that leaves the flag alone.
    pub open spec fn incremented(self, x: int, kk: u8) -> State {
        self.with_register(x, ((self.v[x] + kk) % 256) as u8)
    }

    /// 8xy4: the sum modulo 256, then the carry.
    pub open spec fn added(self, x: int, y: int) -> State {
        let sum = self.v[x] + self.v[y];
        self.with_register(x, (sum % 256) as u8).with_flag(
            if sum > 255 {
                1
            } else {
                0
            },
        )
    }

    /// 8xy5: the flag says whether Vx exceeds Vy, then Vx - Vy modulo 256.
    pub open spec fn subtracted(self, x: int, y: int) -> State {
        let flagged = self.with_flag(
            if self.v[x] > self.v[y] {
                1
            } else {
                0
            },
        );
        flagged.with_register(x, ((flagged.v[x] - flagged.v[y]) % 256) as u8)
    }

    /// 8xy7: the flag says whether Vy exceeds Vx, then Vy - Vx modulo 256.
    pub open spec fn reverse_subtracted(self, x: int, y: int) -> State {
        let flagged = self.with_flag(
            if self.v[y] > self.v[x] {
                1
            } else {
                0
            },
        );
        flagged.with_register(x, ((flagged.v[y] - flagged.v[x]) % 256) as u8)
    }

    /// 8xy6: the flag takes the lowest bit, then a logical shift right.
    pub open spec fn shifted_right(self, x: int) -> State {
        let flagged = self.with_flag(self.v[x] & 1);
        flagged.with_register(x, flagged.v[x] >> 1)
    }

    /// 8xyE: the flag takes the highest bit, then a logical shift left.
    pub open spec fn shifted_left(self, x: int) -> State {
        let flagged = self.with_flag((self.v[x] >> 7) & 1);
        flagged.with_register(x, flagged.v[x] << 1)
    }

    /// Dxyn: the `n` bytes at the index register are drawn at (Vx, Vy), and
    /// the flag says whether a pixel was erased.
    pub open spec fn sprite_drawn(self, x: int, y: int, n: int) -> Result<State, Fault> {
        if !span_in_bounds(self.i as int, n) {
            Err(Fault::MemoryOutOfBounds { address: self.i as usize, count: n as usize })
        } else {
            let sprite = self.memory.subrange(self.i as int, self.i + n);
            let position = Position { x: self.v[x] as usize, y: self.v[y] as usize };
            Ok(
                State { pixels: drawn(self.pixels, sprite, position), ..self }.with_flag(
                    if collides(self.pixels, sprite, position) {
                        1
                    } else {
                        0
                    },
                ),
            )
        }
    }

    /// Ex9E and ExA1: skip when key Vx is down (`wanted`) or up (`!wanted`).
    pub open spec fn key_tested(self, x: int, keys: Seq<bool>, wanted: bool) -> Result<
        State,
        Fault,
    > {
        if self.v[x] >= KEY_COUNT {
            Err(Fault::UnknownKey { key: self.v[x] })
        } else {
            Ok(self.skipped_if(keys[self.v[x] as int] == wanted))
        }
    }

    /// Fx0A: Vx takes the lowest pressed key; with no key pressed the
    /// instruction is run again.
    pub open spec fn key_awaited(self, x: int, keys: Seq<bool>) -> State {
        if lowest_pressed(keys) < KEY_COUNT {
            self.with_register(x, lowest_pressed(keys) as u8)
        } else {
            self.with_pc((self.pc - 2) as u16)
        }
    }

    /// Fx1E: the index register advances by Vx modulo 65536.
    pub open spec fn index_advanced(self, x: int) -> State {
        self.with_index(((self.i + self.v[x]) % 0x1_0000) as u16)
    }

    /// Fx29: the index register points at the glyph of digit Vx.
    pub open spec fn glyph_addressed(self, x: int) -> State {
        self.with_index((self.v[x] * 5) as u16)
    }

    /// Fx33: the hundreds, tens and ones of Vx go to memory at the index
    /// register.
    pub open spec fn decimal_stored(self, x: int) -> Result<State, Fault> {
        if !span_in_bounds(self.i as int, 3) {
            Err(Fault::MemoryOutOfBounds { address: self.i as usize, count: 3 })
        } else {
            let value = self.v[x];
            let digits = seq![value / 100, (value / 10) % 10, value % 10];
            Ok(State { memory: stored(self.memory, self.i as int, digits), ..self })
        }
    }

    /// Fx55: V0 to Vx go to memory at the index register.
    pub open spec fn registers_stored(self, x: int) -> Result<State, Fault> {
        if !span_in_bounds(self.i as int, x + 1) {
            Err(Fault::MemoryOutOfBounds { address: self.i as usize, count: (x + 1) as usize })
        } else {
            Ok(
                State {
                    memory: stored(self.memory, self.i as int, self.v.subrange(0, x + 1)),
                    ..self
                },
            )
        }
    }

    /// The registers with the first `count` of them replaced by the bytes
    /// at the index register.
    pub open spec fn registers_with_loaded(self, count: int) -> Seq<u8> {
        Seq::new(
            REGISTER_COUNT as nat,
            |k: int|
                if k < count {
                    self.memory[self.i + k]
                } else {
                    self.v[k]
                },
        )
    }

    /// Fx65: V0 to Vx are read from memory at the index register.
    pub open spec fn registers_loaded(self, x: int) -> Result<State, Fault> {
        if !span_in_bounds(self.i as int, x + 1) {
            Err(Fault::MemoryOutOfBounds { address: self.i as usize, count: (x + 1) as usize })
        } else {
            Ok(State { v: self.registers_with_loaded(x + 1), ..self })
        }
    }

    /// The state after `instruction`, already fetched, has run with the key
    /// levels `keys` and the random byte `random`. Words outside the
    /// instruction set do nothing.
    pub open spec fn executed(self, instruction: Instruction, keys: Seq<bool>, random: u8) -> Result<
        State,
        Fault,
    > {
        let x = instruction.x as int;
        let y = instruction.y as int;
        let kk = instruction.kk;
        let nnn = instruction.nnn;
        match instruction.nibbles {
            (0x0, 0x0, 0xE, 0x0) => Ok(self.cleared()),
            (0x0, 0x0, 0xE, 0xE) => self.returned(),
            (0x1, _, _, _) => Ok(self.with_pc(nnn)),
            (0x2, _, _, _) => self.called(nnn),
            (0x3, _, _, _) => Ok(self.skipped_if(self.v[x] == kk)),
            (0x4, _, _, _) => Ok(self.skipped_if(self.v[x] != kk)),
            (0x5, _, _, 0x0) => Ok(self.skipped_if(self.v[x] == self.v[y])),
            (0x6, _, _, _) => Ok(self.with_register(x, kk)),
            (0x7, _, _, _) => Ok(self.incremented(x, kk)),
            (0x8, _, _, 0x0) => Ok(self.with_register(x, self.v[y])),
            (0x8, _, _, 0x1) => Ok(self.with_register(x, self.v[x] | self.v[y])),
            (0x8, _, _, 0x2) => Ok(self.with_register(x, self.v[x] & self.v[y])),
            (0x8, _, _, 0x3) => Ok(self.with_register(x, self.v[x] ^ self.v[y])),
            (0x8, _, _, 0x4) => Ok(self.added(x, y)),
            (0x8, _, _, 0x5) => Ok(self.subtracted(x, y)),
            (0x8, _, _, 0x6) => Ok(self.shifted_right(x)),
            (0x8, _, _, 0x7) => Ok(self.reverse_subtracted(x, y)),
            (0x8, _, _, 0xE) => Ok(self.shifted_left(x)),
            (0x9, _, _, 0x0) => Ok(self.skipped_if(self.v[x] != self.v[y])),
            (0xA, _, _, _) => Ok(self.with_index(nnn)),
            (0xB, _, _, _) => Ok(self.with_pc((nnn + self.v[0]) as u16)),
            (0xC, _, _, _) => Ok(self.with_register(x, random & kk)),
            (0xD, _, _, n) => self.sprite_drawn(x, y, n as int),
            (0xE, _, 0x9, 0xE) => self.key_tested(x, keys, true),
            (0xE, _, 0xA, 0x1) => self.key_tested(x, keys, false),
            (0xF, _, 0x0, 0x7) => Ok(self.with_register(x, self.delay_timer)),
            (0xF, _, 0x0, 0xA) => Ok(self.key_awaited(x, keys)),
            (0xF, _, 0x1, 0x5) => Ok(State { delay_timer: self.v[x], ..self }),
            (0xF, _, 0x1, 0x8) => Ok(State { sound_timer: self.v[x], ..self }),
            (0xF, _, 0x1, 0xE) => Ok(self.index_advanced(x)),
            (0xF, _, 0x2, 0x9) => Ok(self.glyph_addressed(x)),
            (0xF, _, 0x3, 0x3) => self.decimal_stored(x),
            (0xF, _, 0x5, 0x5) => self.registers_stored(x),
            (0xF, _, 0x6, 0x5) => self.registers_loaded(x),
            _ => Ok(self),
        }
    }

    /// The state after the two bytes at the program counter have been
    /// fetched: the program counter points past them.
    pub open spec fn fetched(self) -> Result<State, Fault> {
        if !span_in_bounds(self.pc as int, 2) {
            Err(Fault::MemoryOutOfBounds { address: self.pc as usize, count: 2 })
        } else {
            Ok(self.with_pc((self.pc + 2) as u16))
        }
    }

    /// The instruction word at the program counter.
    pub open spec fn current_instruction(self) -> Instruction {
        decoded(self.memory[self.pc as int], self.memory[self.pc + 1])
    }

    /// One fetch-decode-execute cycle.
    pub open spec fn stepped(self, keys: Seq<bool>, random: u8) -> Result<State, Fault> {
        match self.fetched() {
            Ok(next) => next.executed(self.current_instruction(), keys, random),
            Err(fault) => Err(fault),
        }
    }

    /// The state after the font table and then a program image have been
    /// loaded, and the fault if the image does not fit. The font table is
    /// loaded either way.
    pub open spec fn loaded(self, program: Seq<u8>) -> (State, Option<Fault>) {
        let with_font = State {
            memory: stored(self.memory, FONT_STARTING_ADDRESS as int, FONT_DATA@),
            ..self
        };
        if span_in_bounds(PROGRAM_STARTING_ADDRESS as int, program.len() as int) {
            (
                State {
                    memory: stored(with_font.memory, PROGRAM_STARTING_ADDRESS as int, program),
                    ..with_font
                },
                None,
            )
        } else {
            (
                with_font,
                Some(
                    Fault::MemoryOutOfBounds {
                        address: PROGRAM_STARTING_ADDRESS,
                        count: program.len() as usize,
                    },
                ),
            )
        }
    }

    /// Where a cycle that faults leaves the machine: past the instruction
    /// if it could be fetched, untouched otherwise.
    pub open spec fn halted(self) -> State {
        match self.fetched() {
            Ok(next) => next,
            Err(_) => self,
        }
    }

    /// The state after one cycle per byte of `randoms`, each cycle given its
    /// byte, and the fault that stopped the run, if any. Nothing runs after a
    /// fault.
    pub open spec fn ran(self, keys: Seq<bool>, randoms: Seq<u8>) -> (State, Option<Fault>)
        decreases randoms.len(),
    {
        if randoms.len() == 0 {
            (self, None)
        } else {
            let (reached, fault) = self.ran(keys, randoms.drop_last());
            if fault.is_some() {
                (reached, fault)
            } else {
                match reached.stepped(keys, randoms.last()) {
                    Ok(next) => (next, None),
                    Err(fault) => (reached.halted(), Some(fault)),
                }
            }
        }
    }

    /// One frame: the cycles run, then the frame ends. A fault stops the
    /// frame where it occurred.
    pub open spec fn ticked(self, keys: Seq<bool>, randoms: Seq<u8>) -> (State, Option<Fault>) {
        let (reached, fault) = self.ran(keys, randoms);
        if fault.is_some() {
            (reached, fault)
        } else {
            (reached.frame_ended(), None)
        }
    }

    /// End of a frame: each timer that is not zero goes down by one, and the
    /// tone is on exactly while the sound timer is not zero.
    pub open spec fn frame_ended(self) -> State {
        let delay_timer = if self.delay_timer > 0 {
            (self.delay_timer - 1) as u8
        } else {
            0
        };
        let sound_timer = if self.sound_timer > 0 {
            (self.sound_timer - 1) as u8
        } else {
            0
        };
        State { delay_timer, sound_timer, tone: sound_timer > 0, ..self }
    }
}

/// Whether a transition that was meant to give `expected` went as meant:
/// on success the machine is in the expected state, on a fault the fault is
/// reported and the machine is in state `on_fault`.
pub open spec fn agrees(
    expected: Result<State, Fault>,
    on_fault: State,
    after: State,
    result: Result<(), Fault>,
) -> bool {
    match expected {
        Ok(next) => result.is_ok() && after == next,
        Err(fault) => result == Err::<(), Fault>(fault) && after == on_fault,
    }
}

/// Executing a fetched instruction keeps the machine well-formed.
pub proof fn lemma_executed_wf(
    state: State,
    instruction: Instruction,
    keys: Seq<bool>,
    random: u8,
)
    requires
        state.wf(),
        2 <= state.pc <= RAM_SIZE_IN_BYTES,
        instruction.wf(),
        keys.len() == KEY_COUNT,
    ensures
        state.executed(instruction, keys, random).is_ok() ==> state.executed(
            instruction,
            keys,
            random,
        ).unwrap().wf(),
{
    broadcast use crate::display::lemma_drawn_shape;
}

/// Once a run has faulted, further cycles change nothing.
pub proof fn lemma_fault_persists(state: State, keys: Seq<bool>, randoms: Seq<u8>, more: Seq<u8>)
    requires
        state.ran(keys, randoms).1.is_some(),
    ensures
        state.ran(keys, randoms + more) == state.ran(keys, randoms),
    decreases more.len(),
{
    if more.len() == 0 {
        assert(randoms + more =~= randoms);
    } else {
        lemma_fault_persists(state, keys, randoms, more.drop_last());
        assert((randoms + more).drop_last() =~= randoms + more.drop_last());
    }
}

/// The state after `frames` frames have ended with nothing else happening.
pub open spec fn frames_ended(state: State, frames: nat) -> State
    decreases frames,
{
    if frames == 0 {
        state
    } else {
        frames_ended(state, (frames - 1) as nat).frame_ended()
    }
}

/// A frame in which no instruction runs only ends the frame.
pub proof fn lemma_idle_frame(state: State, keys: Seq<bool>)
    ensures
        state.ticked(keys, Seq::empty()) == (state.frame_ended(), None::<Fault>),
{
}

/// Only the two timer-setting instructions, Fx15 and Fx18, write a timer,
/// and no instruction touches the tone.
pub proof fn lemma_timers_written_only_by_timer_instructions(
    state: State,
    instruction: Instruction,
    keys: Seq<bool>,
    random: u8,
)
    requires
        state.executed(instruction, keys, random).is_ok(),
    ensures
        !(instruction.nibbles.0 == 0xF && instruction.nibbles.2 == 0x1 && instruction.nibbles.3
            == 0x5) ==> state.executed(instruction, keys, random).unwrap().delay_timer
            == state.delay_timer,
        !(instruction.nibbles.0 == 0xF && instruction.nibbles.2 == 0x1 && instruction.nibbles.3
            == 0x8) ==> state.executed(instruction, keys, random).unwrap().sound_timer
            == state.sound_timer,
        state.executed(instruction, keys, random).unwrap().tone == state.tone,
{
}

/// Timers decay: after `frames` frames with no write to a timer, each timer
/// is down by `frames`, or at zero if it held less; it never passes below
/// zero. After at least one frame the tone is on exactly while the sound
/// timer is not zero, and nothing but timers and tone has changed.
pub proof fn lemma_timers_decay(state: State, frames: nat)
    ensures
        frames_ended(state, frames).delay_timer == if state.delay_timer > frames {
            state.delay_timer - frames
        } else {
            0
        },
        frames_ended(state, frames).sound_timer == if state.sound_timer > frames {
            state.sound_timer - frames
        } else {
            0
        },
        frames >= 1 ==> frames_ended(state, frames).tone == (frames_ended(
            state,
            frames,
        ).sound_timer > 0),
        frames >= state.delay_timer ==> frames_ended(state, frames).delay_timer == 0,
        frames >= state.sound_timer ==> frames_ended(state, frames).sound_timer == 0,
        frames_ended(state, frames) == (State {
            delay_timer: frames_ended(state, frames).delay_timer,
            sound_timer: frames_ended(state, frames).sound_timer,
            tone: frames_ended(state, frames).tone,
            ..state
        }),
    decreases frames,
{
    if frames > 0 {
        lemma_timers_decay(state, (frames - 1) as nat);
    }
}

/// A return right after a call comes back to the instruction that follows
/// the call: the program counter and the stack pointer are as they were when
/// the call was executed, and only the stack slot that held the return
/// address has changed.
pub proof fn lemma_return_after_call(
    state: State,
    call: Instruction,
    back: Instruction,
    keys: Seq<bool>,
    random: u8,
)
    requires
        state.wf(),
        state.sp + 1 < STACK_SIZE,
        call.nibbles.0 == 0x2,
        back.nibbles == (0x0u8, 0x0u8, 0xEu8, 0xEu8),
    ensures
        state.executed(call, keys, random).is_ok(),
        state.executed(call, keys, random).unwrap().pc == call.nnn,
        state.executed(call, keys, random).unwrap().executed(back, keys, random) == Ok::<
            State,
            Fault,
        >((State { stack: state.stack.update(state.sp + 1, state.pc), ..state })),
{
}

/// Arithmetic is modulo 256. For 7xkk, 8xy4, 8xy5 and 8xy7 with `x` other
/// than the flag register, Vx ends as the sum or difference reduced
/// modulo 256; the last three set the flag to the carry, or to whether the
/// minuend exceeds the subtrahend, and 7xkk leaves it alone.
pub proof fn lemma_arithmetic_wraps(state: State, x: int, y: int, kk: u8)
    requires
        state.wf(),
        0 <= x < FLAG_REGISTER,
        0 <= y < REGISTER_COUNT,
    ensures
        state.incremented(x, kk).v[x] == (state.v[x] + kk) % 256,
        state.incremented(x, kk).v[FLAG_REGISTER as int] == state.v[FLAG_REGISTER as int],
        state.added(x, y).v[x] == (state.v[x] + state.v[y]) % 256,
        state.added(x, y).v[FLAG_REGISTER as int] == if state.v[x] + state.v[y] > 255 {
            1u8
        } else {
            0u8
        },
        state.subtracted(x, y).v[FLAG_REGISTER as int] == if state.v[x] > state.v[y] {
            1u8
        } else {
            0u8
        },
        y != FLAG_REGISTER ==> state.subtracted(x, y).v[x] == (state.v[x] - state.v[y]) % 256,
        state.reverse_subtracted(x, y).v[FLAG_REGISTER as int] == if state.v[y] > state.v[x] {
            1u8
        } else {
            0u8
        },
        y != FLAG_REGISTER ==> state.reverse_subtracted(x, y).v[x] == (state.v[y] - state.v[x])
            % 256,
{
}

/// Shifts are logical. For 8xy6 and 8xyE with `x` other than the flag
/// register, the flag takes the bit that is shifted out, the vacated bit is
/// zero and every other bit moves by one place: in numbers, Vx is halved
/// rounding down, or doubled modulo 256.
pub proof fn lemma_shifts_are_logical(state: State, x: int)
    requires
        state.wf(),
        0 <= x < FLAG_REGISTER,
    ensures
        state.shifted_right(x).v[x] == state.v[x] / 2,
        state.shifted_right(x).v[FLAG_REGISTER as int] == state.v[x] % 2,
        state.shifted_left(x).v[x] == (state.v[x] * 2) % 256,
        state.shifted_left(x).v[FLAG_REGISTER as int] == state.v[x] / 128,
{
    let value = state.v[x];
    assert(value >> 1 == value / 2) by (bit_vector);
    assert(value & 1 == value % 2) by (bit_vector);
    assert(value << 1 == (value * 2) % 256) by (bit_vector);
    assert((value >> 7) & 1 == value / 128) by (bit_vector);
}

} // verus!
