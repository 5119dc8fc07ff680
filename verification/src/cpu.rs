use vstd::prelude::*;
use rand::rngs::ThreadRng;
use rand::Rng;
use crate::display::{lit_rectangles, Display, Position, Rectangle, FONT_DATA, HEIGHT, WIDTH};
use crate::fault::Fault;
use crate::keypad::Keypad;
use crate::ram::{stored, RAM};
use crate::speaker::Speaker;
use crate::state::{
    agrees, decoded, lemma_executed_wf, lemma_fault_persists, Instruction, State, FLAG_REGISTER,
    FONT_STARTING_ADDRESS, PROGRAM_STARTING_ADDRESS,
};

verus! {

broadcast use {
    crate::ram::RAM::lemma_len,
    crate::keypad::Keypad::lemma_len,
    crate::display::Display::lemma_shape,
};

/// The thread-local generator of the `rand` crate, carried through opaquely.
#[verifier::external_type_specification]
#[verifier::external_body]
pub struct ExThreadRng(ThreadRng);

/// `rand::thread_rng`: a handle to the calling thread's generator. Nothing
/// is claimed of it.
#[verifier::external_body]
fn thread_generator() -> ThreadRng {
    rand::thread_rng()
}

/// `Rng::gen_range` over `0..=255`: a byte drawn from the generator. Nothing
/// is claimed of which byte comes back.
#[verifier::external_body]
fn random_byte(rng: &mut ThreadRng) -> u8 {
    rng.gen_range(0..=255)
}

/// The processor with the memory, framebuffer and tone signal it owns.
pub struct CPU {
    delay_timer: u8,
    display: Display,
    i: u16,
    pc: u16,
    ram: RAM,
    rng: ThreadRng,
    sound_timer: u8,
    sp: u8,
    speaker: Speaker,
    stack: [u16; 16],
    v: [u8; 16],
}

impl View for CPU {
    type V = State;

    closed spec fn view(&self) -> State {
        State {
            v: self.v@,
            i: self.i,
            pc: self.pc,
            sp: self.sp,
            stack: self.stack@,
            delay_timer: self.delay_timer,
            sound_timer: self.sound_timer,
            memory: self.ram@,
            pixels: self.display@,
            present_due: self.display.present_due(),
            tone: self.speaker.is_on(),
        }
    }
}

impl CPU {
    /// The invariant that holds between any two instructions.
    pub open spec fn wf(&self) -> bool {
        self@.wf()
    }

    /// A processor at reset: everything zero, the program counter at the
    /// program's starting address.
    pub fn new() -> (cpu: CPU)
        ensures
            cpu@ == State::initial(),
            cpu.wf(),
    {
        let cpu = CPU {
            delay_timer: 0,
            display: Display::new(),
            i: 0,
            pc: PROGRAM_STARTING_ADDRESS as u16,
            ram: RAM::new(),
            rng: thread_generator(),
            sound_timer: 0,
            sp: 0,
            speaker: Speaker::new(),
            stack: [0; 16],
            v: [0; 16],
        };
        proof {
            assert(cpu@.v =~= State::initial().v);
            assert(cpu@.stack =~= State::initial().stack);
        }
        cpu
    }

    /// Whether the program counter is where a fetch leaves it: past the two
    /// bytes of an instruction that lies inside memory.
    pub open spec fn mid_cycle(&self) -> bool {
        2 <= self@.pc <= crate::ram::RAM_SIZE_IN_BYTES
    }

    /// Decodes the instruction word made of the two bytes, high byte first.
    pub fn parse_instruction(high: u8, low: u8) -> (instruction: Instruction)
        ensures
            instruction == decoded(high, low),
            instruction.wf(),
    {
        let nnn: u16 = (low as u16) | (((high as u16) << 8) & 0x0FFF);
        let nibbles = ((high & 0xF0) >> 4, high & 0x0F, (low & 0xF0) >> 4, low & 0x0F);
        proof {
            assert(((low as u16) | (((high as u16) << 8) & 0x0FFF)) == ((high % 16) as u16) * 256
                + (low as u16)) by (bit_vector);
            assert((high & 0xF0) >> 4 == high / 16) by (bit_vector);
            assert(high & 0x0F == high % 16) by (bit_vector);
            assert((low & 0xF0) >> 4 == low / 16) by (bit_vector);
            assert(low & 0x0F == low % 16) by (bit_vector);
        }
        Instruction { kk: low, nnn, x: nibbles.1 as usize, y: nibbles.2 as usize, nibbles }
    }

    /// Loads the font table at the bottom of memory.
    pub fn load_font_in_ram(&mut self) -> (result: Result<(), Fault>)
        ensures
            result.is_ok(),
            final(self)@ == (State {
                memory: stored(old(self)@.memory, FONT_STARTING_ADDRESS as int, FONT_DATA@),
                ..old(self)@
            }),
    {
        self.load_in_ram(FONT_STARTING_ADDRESS, FONT_DATA.as_slice())
    }

    /// Loads a program image at the program's starting address. An image
    /// that does not fit is rejected and nothing is loaded.
    pub fn load_program_in_ram(&mut self, program: &[u8]) -> (result: Result<(), Fault>)
        ensures
            PROGRAM_STARTING_ADDRESS + program@.len() <= crate::ram::RAM_SIZE_IN_BYTES ==> {
                &&& result.is_ok()
                &&& final(self)@ == (State {
                    memory: stored(
                        old(self)@.memory,
                        PROGRAM_STARTING_ADDRESS as int,
                        program@,
                    ),
                    ..old(self)@
                })
            },
            PROGRAM_STARTING_ADDRESS + program@.len() > crate::ram::RAM_SIZE_IN_BYTES ==> {
                &&& result == Err::<(), Fault>(
                    (Fault::MemoryOutOfBounds {
                        address: PROGRAM_STARTING_ADDRESS,
                        count: program@.len() as usize,
                    }),
                )
                &&& final(self)@ == old(self)@
            },
    {
        self.load_in_ram(PROGRAM_STARTING_ADDRESS, program)
    }

    fn load_in_ram(&mut self, address: usize, data: &[u8]) -> (result: Result<(), Fault>)
        ensures
            crate::ram::span_in_bounds(address as int, data@.len() as int) ==> {
                &&& result.is_ok()
                &&& final(self)@ == (State {
                    memory: stored(old(self)@.memory, address as int, data@),
                    ..old(self)@
                })
            },
            !crate::ram::span_in_bounds(address as int, data@.len() as int) ==> {
                &&& result == Err::<(), Fault>(
                    (Fault::MemoryOutOfBounds { address, count: data@.len() as usize }),
                )
                &&& final(self)@ == old(self)@
            },
    {
        match self.ram.write(address, data) {
            Ok(_) => Ok(()),
            Err(fault) => Err(fault),
        }
    }

    /// Fetches the instruction at the program counter and moves the program
    /// counter past it.
    pub fn read_instruction(&mut self) -> (result: Result<Instruction, Fault>)
        requires
            old(self).wf(),
        ensures
            final(self).wf(),
            match old(self)@.fetched() {
                Ok(next) => {
                    &&& result == Ok::<Instruction, Fault>(old(self)@.current_instruction())
                    &&& final(self)@ == next
                    &&& final(self).mid_cycle()
                    &&& old(self)@.current_instruction().wf()
                },
                Err(fault) => result == Err::<Instruction, Fault>(fault) && final(self)@ == old(
                    self,
                )@,
            },
    {
        let (high, low) = match self.ram.read(self.pc as usize, 2) {
            Ok(bytes) => (bytes[0], bytes[1]),
            Err(fault) => {
                return Err(fault);
            },
        };
        self.pc += 2;
        Ok(CPU::parse_instruction(high, low))
    }

    fn set_register(&mut self, x: usize, value: u8)
        requires
            x < 16,
        ensures
            final(self)@ == old(self)@.with_register(x as int, value),
    {
        self.v[x] = value;
    }

    fn skip_if(&mut self, condition: bool)
        requires
            old(self).mid_cycle(),
        ensures
            final(self)@ == old(self)@.skipped_if(condition),
    {
        if condition {
            self.pc += 2;
        }
    }

    fn inst_00e0(&mut self)
        ensures
            final(self)@ == old(self)@.cleared(),
    {
        self.display.clear();
    }

    fn inst_00ee(&mut self) -> (result: Result<(), Fault>)
        requires
            old(self).wf(),
        ensures
            match old(self)@.returned() {
                Ok(next) => result.is_ok() && final(self)@ == next,
                Err(fault) => result == Err::<(), Fault>(fault) && final(self)@ == old(self)@,
            },
    {
        if self.sp == 0 {
            return Err(Fault::StackUnderflow);
        }
        self.pc = self.stack[self.sp as usize];
        self.sp -= 1;
        Ok(())
    }

    fn inst_1nnn(&mut self, instruction: &Instruction)
        ensures
            final(self)@ == old(self)@.with_pc(instruction.nnn),
    {
        self.pc = instruction.nnn;
    }

    fn inst_2nnn(&mut self, instruction: &Instruction) -> (result: Result<(), Fault>)
        requires
            old(self).wf(),
        ensures
            match old(self)@.called(instruction.nnn) {
                Ok(next) => result.is_ok() && final(self)@ == next,
                Err(fault) => result == Err::<(), Fault>(fault) && final(self)@ == old(self)@,
            },
    {
        if self.sp >= 15 {
            return Err(Fault::StackOverflow);
        }
        self.sp += 1;
        self.stack[self.sp as usize] = self.pc;
        self.pc = instruction.nnn;
        Ok(())
    }

    fn inst_3xkk(&mut self, instruction: &Instruction)
        requires
            old(self).wf(),
            old(self).mid_cycle(),
            instruction.wf(),
        ensures
            final(self)@ == old(self)@.skipped_if(
                old(self)@.v[instruction.x as int] == instruction.kk,
            ),
    {
        self.skip_if(self.v[instruction.x] == instruction.kk);
    }

    fn inst_4xkk(&mut self, instruction: &Instruction)
        requires
            old(self).wf(),
            old(self).mid_cycle(),
            instruction.wf(),
        ensures
            final(self)@ == old(self)@.skipped_if(
                old(self)@.v[instruction.x as int] != instruction.kk,
            ),
    {
        self.skip_if(self.v[instruction.x] != instruction.kk);
    }

    fn inst_5xy0(&mut self, instruction: &Instruction)
        requires
            old(self).wf(),
            old(self).mid_cycle(),
            instruction.wf(),
        ensures
            final(self)@ == old(self)@.skipped_if(
                old(self)@.v[instruction.x as int] == old(self)@.v[instruction.y as int],
            ),
    {
        self.skip_if(self.v[instruction.x] == self.v[instruction.y]);
    }

    fn inst_6xkk(&mut self, instruction: &Instruction)
        requires
            instruction.wf(),
        ensures
            final(self)@ == old(self)@.with_register(instruction.x as int, instruction.kk),
    {
        self.set_register(instruction.x, instruction.kk);
    }

    fn inst_7xkk(&mut self, instruction: &Instruction)
        requires
            instruction.wf(),
        ensures
            final(self)@ == old(self)@.incremented(instruction.x as int, instruction.kk),
    {
        let sum = self.v[instruction.x].wrapping_add(instruction.kk);
        self.set_register(instruction.x, sum);
    }

    fn inst_8xy0(&mut self, instruction: &Instruction)
        requires
            instruction.wf(),
        ensures
            final(self)@ == old(self)@.with_register(
                instruction.x as int,
                old(self)@.v[instruction.y as int],
            ),
    {
        self.set_register(instruction.x, self.v[instruction.y]);
    }

    fn inst_8xy1(&mut self, instruction: &Instruction)
        requires
            instruction.wf(),
        ensures
            final(self)@ == old(self)@.with_register(
                instruction.x as int,
                old(self)@.v[instruction.x as int] | old(self)@.v[instruction.y as int],
            ),
    {
        self.set_register(instruction.x, self.v[instruction.x] | self.v[instruction.y]);
    }

    fn inst_8xy2(&mut self, instruction: &Instruction)
        requires
            instruction.wf(),
        ensures
            final(self)@ == old(self)@.with_register(
                instruction.x as int,
                old(self)@.v[instruction.x as int] & old(self)@.v[instruction.y as int],
            ),
    {
        self.set_register(instruction.x, self.v[instruction.x] & self.v[instruction.y]);
    }

    fn inst_8xy3(&mut self, instruction: &Instruction)
        requires
            instruction.wf(),
        ensures
            final(self)@ == old(self)@.with_register(
                instruction.x as int,
                old(self)@.v[instruction.x as int] ^ old(self)@.v[instruction.y as int],
            ),
    {
        self.set_register(instruction.x, self.v[instruction.x] ^ self.v[instruction.y]);
    }

    fn inst_8xy4(&mut self, instruction: &Instruction)
        requires
            instruction.wf(),
        ensures
            final(self)@ == old(self)@.added(instruction.x as int, instruction.y as int),
    {
        let result: u16 = self.v[instruction.x] as u16 + self.v[instruction.y] as u16;
        self.set_register(instruction.x, (result % 256) as u8);
        self.set_register(FLAG_REGISTER, if result > 255 { 1 } else { 0 });
    }

    fn inst_8xy5(&mut self, instruction: &Instruction)
        requires
            instruction.wf(),
        ensures
            final(self)@ == old(self)@.subtracted(instruction.x as int, instruction.y as int),
    {
        let flag: u8 = if self.v[instruction.x] > self.v[instruction.y] { 1 } else { 0 };
        self.set_register(FLAG_REGISTER, flag);
        let difference = self.v[instruction.x].wrapping_sub(self.v[instruction.y]);
        self.set_register(instruction.x, difference);
    }

    fn inst_8xy6(&mut self, instruction: &Instruction)
        requires
            instruction.wf(),
        ensures
            final(self)@ == old(self)@.shifted_right(instruction.x as int),
    {
        let flag: u8 = self.v[instruction.x] & 1;
        self.set_register(FLAG_REGISTER, flag);
        let shifted: u8 = self.v[instruction.x] >> 1;
        self.set_register(instruction.x, shifted);
    }

    fn inst_8xy7(&mut self, instruction: &Instruction)
        requires
            instruction.wf(),
        ensures
            final(self)@ == old(self)@.reverse_subtracted(
                instruction.x as int,
                instruction.y as int,
            ),
    {
        let flag: u8 = if self.v[instruction.y] > self.v[instruction.x] { 1 } else { 0 };
        self.set_register(FLAG_REGISTER, flag);
        let difference = self.v[instruction.y].wrapping_sub(self.v[instruction.x]);
        self.set_register(instruction.x, difference);
    }

    fn inst_8xye(&mut self, instruction: &Instruction)
        requires
            instruction.wf(),
        ensures
            final(self)@ == old(self)@.shifted_left(instruction.x as int),
    {
        let flag: u8 = (self.v[instruction.x] >> 7) & 1;
        self.set_register(FLAG_REGISTER, flag);
        let shifted: u8 = self.v[instruction.x] << 1;
        self.set_register(instruction.x, shifted);
    }

    fn inst_9xy0(&mut self, instruction: &Instruction)
        requires
            old(self).wf(),
            old(self).mid_cycle(),
            instruction.wf(),
        ensures
            final(self)@ == old(self)@.skipped_if(
                old(self)@.v[instruction.x as int] != old(self)@.v[instruction.y as int],
            ),
    {
        self.skip_if(self.v[instruction.x] != self.v[instruction.y]);
    }

    fn inst_annn(&mut self, instruction: &Instruction)
        ensures
            final(self)@ == old(self)@.with_index(instruction.nnn),
    {
        self.i = instruction.nnn;
    }

    fn inst_bnnn(&mut self, instruction: &Instruction)
        requires
            instruction.wf(),
        ensures
            final(self)@ == old(self)@.with_pc((instruction.nnn + old(self)@.v[0]) as u16),
    {
        self.pc = instruction.nnn + (self.v[0] as u16);
    }

    fn inst_cxkk(&mut self, instruction: &Instruction, random: u8)
        requires
            instruction.wf(),
        ensures
            final(self)@ == old(self)@.with_register(
                instruction.x as int,
                random & instruction.kk,
            ),
    {
        self.set_register(instruction.x, random & instruction.kk);
    }

    fn inst_dxyn(&mut self, instruction: &Instruction) -> (result: Result<(), Fault>)
        requires
            old(self).wf(),
            instruction.wf(),
        ensures
            match old(self)@.sprite_drawn(
                instruction.x as int,
                instruction.y as int,
                instruction.nibbles.3 as int,
            ) {
                Ok(next) => result.is_ok() && final(self)@ == next,
                Err(fault) => result == Err::<(), Fault>(fault) && final(self)@ == old(self)@,
            },
    {
        let sprite = match self.ram.read(self.i as usize, instruction.nibbles.3 as usize) {
            Ok(bytes) => bytes,
            Err(fault) => {
                return Err(fault);
            },
        };
        let position = Position::new(
            self.v[instruction.x] as usize,
            self.v[instruction.y] as usize,
        );
        let collided = match self.display.draw_sprite(sprite, position) {
            Ok(collided) => collided,
            Err(fault) => {
                return Err(fault);
            },
        };
        self.set_register(FLAG_REGISTER, if collided { 1 } else { 0 });
        Ok(())
    }

    fn inst_ex9e(&mut self, instruction: &Instruction, keypad: &Keypad) -> (result: Result<
        (),
        Fault,
    >)
        requires
            old(self).wf(),
            old(self).mid_cycle(),
            instruction.wf(),
        ensures
            match old(self)@.key_tested(instruction.x as int, keypad@, true) {
                Ok(next) => result.is_ok() && final(self)@ == next,
                Err(fault) => result == Err::<(), Fault>(fault) && final(self)@ == old(self)@,
            },
    {
        let key = self.v[instruction.x];
        match keypad.is_key_pressed(key) {
            Ok(pressed) => {
                self.skip_if(pressed);
                Ok(())
            },
            Err(fault) => Err(fault),
        }
    }

    fn inst_exa1(&mut self, instruction: &Instruction, keypad: &Keypad) -> (result: Result<
        (),
        Fault,
    >)
        requires
            old(self).wf(),
            old(self).mid_cycle(),
            instruction.wf(),
        ensures
            match old(self)@.key_tested(instruction.x as int, keypad@, false) {
                Ok(next) => result.is_ok() && final(self)@ == next,
                Err(fault) => result == Err::<(), Fault>(fault) && final(self)@ == old(self)@,
            },
    {
        let key = self.v[instruction.x];
        match keypad.is_key_pressed(key) {
            Ok(pressed) => {
                self.skip_if(!pressed);
                Ok(())
            },
            Err(fault) => Err(fault),
        }
    }

    fn inst_fx07(&mut self, instruction: &Instruction)
        requires
            instruction.wf(),
        ensures
            final(self)@ == old(self)@.with_register(
                instruction.x as int,
                old(self)@.delay_timer,
            ),
    {
        self.set_register(instruction.x, self.delay_timer);
    }

    fn inst_fx0a(&mut self, instruction: &Instruction, keypad: &Keypad)
        requires
            old(self).mid_cycle(),
            instruction.wf(),
        ensures
            final(self)@ == old(self)@.key_awaited(instruction.x as int, keypad@),
    {
        match keypad.first_pressed() {
            Some(key) => {
                self.set_register(instruction.x, key);
            },
            None => {
                self.pc -= 2;
            },
        }
    }

    fn inst_fx15(&mut self, instruction: &Instruction)
        requires
            instruction.wf(),
        ensures
            final(self)@ == (State {
                delay_timer: old(self)@.v[instruction.x as int],
                ..old(self)@
            }),
    {
        self.delay_timer = self.v[instruction.x];
    }

    fn inst_fx18(&mut self, instruction: &Instruction)
        requires
            instruction.wf(),
        ensures
            final(self)@ == (State {
                sound_timer: old(self)@.v[instruction.x as int],
                ..old(self)@
            }),
    {
        self.sound_timer = self.v[instruction.x];
    }

    fn inst_fx1e(&mut self, instruction: &Instruction)
        requires
            instruction.wf(),
        ensures
            final(self)@ == old(self)@.index_advanced(instruction.x as int),
    {
        self.i = self.i.wrapping_add(self.v[instruction.x] as u16);
    }

    fn inst_fx29(&mut self, instruction: &Instruction)
        requires
            instruction.wf(),
        ensures
            final(self)@ == old(self)@.glyph_addressed(instruction.x as int),
    {
        self.i = self.v[instruction.x] as u16 * 5;
    }

    fn inst_fx33(&mut self, instruction: &Instruction) -> (result: Result<(), Fault>)
        requires
            instruction.wf(),
        ensures
            match old(self)@.decimal_stored(instruction.x as int) {
                Ok(next) => result.is_ok() && final(self)@ == next,
                Err(fault) => result == Err::<(), Fault>(fault) && final(self)@ == old(self)@,
            },
    {
        let vx = self.v[instruction.x];
        let digits: [u8; 3] = [vx / 100, (vx / 10) % 10, vx % 10];
        proof {
            assert(digits@ =~= seq![vx / 100, (vx / 10) % 10, vx % 10]);
        }
        match self.ram.write(self.i as usize, digits.as_slice()) {
            Ok(_) => Ok(()),
            Err(fault) => Err(fault),
        }
    }

    fn inst_fx55(&mut self, instruction: &Instruction) -> (result: Result<(), Fault>)
        requires
            instruction.wf(),
        ensures
            match old(self)@.registers_stored(instruction.x as int) {
                Ok(next) => result.is_ok() && final(self)@ == next,
                Err(fault) => result == Err::<(), Fault>(fault) && final(self)@ == old(self)@,
            },
    {
        let mut data: Vec<u8> = Vec::new();
        let mut register_index: usize = 0;
        while register_index <= instruction.x
            invariant
                instruction.x < 16,
                register_index <= instruction.x + 1,
                self@ == old(self)@,
                data@ == self@.v.subrange(0, register_index as int),
            decreases instruction.x + 1 - register_index,
        {
            data.push(self.v[register_index]);
            proof {
                assert(data@ =~= self@.v.subrange(0, register_index + 1));
            }
            register_index += 1;
        }
        match self.ram.write(self.i as usize, data.as_slice()) {
            Ok(_) => Ok(()),
            Err(fault) => Err(fault),
        }
    }

    fn inst_fx65(&mut self, instruction: &Instruction) -> (result: Result<(), Fault>)
        requires
            instruction.wf(),
        ensures
            match old(self)@.registers_loaded(instruction.x as int) {
                Ok(next) => result.is_ok() && final(self)@ == next,
                Err(fault) => result == Err::<(), Fault>(fault) && final(self)@ == old(self)@,
            },
    {
        let bytes_to_read = instruction.x + 1;
        let bytes = match self.ram.read(self.i as usize, bytes_to_read) {
            Ok(bytes) => bytes,
            Err(fault) => {
                return Err(fault);
            },
        };
        let mut byte_index: usize = 0;
        proof {
            assert(self@.v =~= old(self)@.registers_with_loaded(0));
        }
        while byte_index < bytes_to_read
            invariant
                bytes_to_read == instruction.x + 1,
                instruction.x < 16,
                byte_index <= bytes_to_read,
                bytes@ == old(self)@.memory.subrange(
                    old(self)@.i as int,
                    old(self)@.i + bytes_to_read,
                ),
                old(self)@.i + bytes_to_read <= old(self)@.memory.len(),
                self@ == (State {
                    v: old(self)@.registers_with_loaded(byte_index as int),
                    ..old(self)@
                }),
            decreases bytes_to_read - byte_index,
        {
            self.v[byte_index] = bytes[byte_index];
            proof {
                assert(self@.v =~= old(self)@.registers_with_loaded(byte_index + 1));
            }
            byte_index += 1;
        }
        Ok(())
    }

    /// Executes an instruction that has already been fetched, with `random`
    /// as the byte that a random-number instruction draws.
    pub fn execute_with(
        &mut self,
        instruction: &Instruction,
        keypad: &Keypad,
        random: u8,
    ) -> (result: Result<(), Fault>)
        requires
            old(self).wf(),
            old(self).mid_cycle(),
            instruction.wf(),
        ensures
            final(self).wf(),
            agrees(
                old(self)@.executed(*instruction, keypad@, random),
                old(self)@,
                final(self)@,
                result,
            ),
    {
        proof {
            lemma_executed_wf(self@, *instruction, keypad@, random);
        }
        match instruction.nibbles {
            (0x0, 0x0, 0xE, 0x0) => {
                self.inst_00e0();
                Ok(())
            },
            (0x0, 0x0, 0xE, 0xE) => self.inst_00ee(),
            (0x1, _, _, _) => {
                self.inst_1nnn(instruction);
                Ok(())
            },
            (0x2, _, _, _) => self.inst_2nnn(instruction),
            (0x3, _, _, _) => {
                self.inst_3xkk(instruction);
                Ok(())
            },
            (0x4, _, _, _) => {
                self.inst_4xkk(instruction);
                Ok(())
            },
            (0x5, _, _, 0x0) => {
                self.inst_5xy0(instruction);
                Ok(())
            },
            (0x6, _, _, _) => {
                self.inst_6xkk(instruction);
                Ok(())
            },
            (0x7, _, _, _) => {
                self.inst_7xkk(instruction);
                Ok(())
            },
            (0x8, _, _, 0x0) => {
                self.inst_8xy0(instruction);
                Ok(())
            },
            (0x8, _, _, 0x1) => {
                self.inst_8xy1(instruction);
                Ok(())
            },
            (0x8, _, _, 0x2) => {
                self.inst_8xy2(instruction);
                Ok(())
            },
            (0x8, _, _, 0x3) => {
                self.inst_8xy3(instruction);
                Ok(())
            },
            (0x8, _, _, 0x4) => {
                self.inst_8xy4(instruction);
                Ok(())
            },
            (0x8, _, _, 0x5) => {
                self.inst_8xy5(instruction);
                Ok(())
            },
            (0x8, _, _, 0x6) => {
                self.inst_8xy6(instruction);
                Ok(())
            },
            (0x8, _, _, 0x7) => {
                self.inst_8xy7(instruction);
                Ok(())
            },
            (0x8, _, _, 0xE) => {
                self.inst_8xye(instruction);
                Ok(())
            },
            (0x9, _, _, 0x0) => {
                self.inst_9xy0(instruction);
                Ok(())
            },
            (0xA, _, _, _) => {
                self.inst_annn(instruction);
                Ok(())
            },
            (0xB, _, _, _) => {
                self.inst_bnnn(instruction);
                Ok(())
            },
            (0xC, _, _, _) => {
                self.inst_cxkk(instruction, random);
                Ok(())
            },
            (0xD, _, _, _) => self.inst_dxyn(instruction),
            (0xE, _, 0x9, 0xE) => self.inst_ex9e(instruction, keypad),
            (0xE, _, 0xA, 0x1) => self.inst_exa1(instruction, keypad),
            (0xF, _, 0x0, 0x7) => {
                self.inst_fx07(instruction);
                Ok(())
            },
            (0xF, _, 0x0, 0xA) => {
                self.inst_fx0a(instruction, keypad);
                Ok(())
            },
            (0xF, _, 0x1, 0x5) => {
                self.inst_fx15(instruction);
                Ok(())
            },
            (0xF, _, 0x1, 0x8) => {
                self.inst_fx18(instruction);
                Ok(())
            },
            (0xF, _, 0x1, 0xE) => {
                self.inst_fx1e(instruction);
                Ok(())
            },
            (0xF, _, 0x2, 0x9) => {
                self.inst_fx29(instruction);
                Ok(())
            },
            (0xF, _, 0x3, 0x3) => self.inst_fx33(instruction),
            (0xF, _, 0x5, 0x5) => self.inst_fx55(instruction),
            (0xF, _, 0x6, 0x5) => self.inst_fx65(instruction),
            _ => Ok(()),
        }
    }

    /// Executes an instruction that has already been fetched. A
    /// random-number instruction draws its byte from the generator; for every
    /// other instruction the outcome is fixed.
    pub fn execute_instruction(&mut self, instruction: &Instruction, keypad: &Keypad) -> (result:
        Result<(), Fault>)
        requires
            old(self).wf(),
            old(self).mid_cycle(),
            instruction.wf(),
        ensures
            final(self).wf(),
            exists|random: u8|
                agrees(
                    #[trigger] old(self)@.executed(*instruction, keypad@, random),
                    old(self)@,
                    final(self)@,
                    result,
                ),
            instruction.nibbles.0 != 0xC ==> agrees(
                old(self)@.executed(*instruction, keypad@, 0),
                old(self)@,
                final(self)@,
                result,
            ),
    {
        let random = if instruction.nibbles.0 == 0xC {
            random_byte(&mut self.rng)
        } else {
            0
        };
        self.execute_with(instruction, keypad, random)
    }

    /// One fetch-decode-execute cycle.
    pub fn step(&mut self, keypad: &Keypad) -> (result: Result<(), Fault>)
        requires
            old(self).wf(),
        ensures
            final(self).wf(),
            exists|random: u8|
                agrees(
                    #[trigger] old(self)@.stepped(keypad@, random),
                    old(self)@.halted(),
                    final(self)@,
                    result,
                ),
    {
        let instruction = match self.read_instruction() {
            Ok(instruction) => instruction,
            Err(fault) => {
                proof {
                    assert(agrees(
                        old(self)@.stepped(keypad@, 0),
                        old(self)@.halted(),
                        self@,
                        Err::<(), Fault>(fault),
                    ));
                }
                return Err(fault);
            },
        };
        let ghost fetched = self@;
        let result = self.execute_instruction(&instruction, keypad);
        proof {
            let random = choose|random: u8|
                agrees(
                    #[trigger] fetched.executed(instruction, keypad@, random),
                    fetched,
                    self@,
                    result,
                );
            assert(agrees(
                old(self)@.stepped(keypad@, random),
                old(self)@.halted(),
                self@,
                result,
            ));
        }
        result
    }

    /// Ends a frame: the timers count down and the tone follows the sound
    /// timer.
    pub fn end_frame(&mut self)
        ensures
            final(self)@ == old(self)@.frame_ended(),
    {
        if self.delay_timer > 0 {
            self.delay_timer -= 1;
        }
        if self.sound_timer > 0 {
            self.sound_timer -= 1;
        }
        if self.sound_timer > 0 {
            self.speaker.start_beep();
        } else {
            self.speaker.stop_beep();
        }
    }

    /// One frame: `instructions` cycles, then the end of the frame. A fault
    /// ends the frame at once, with the timers and the tone left as they
    /// were.
    pub fn tick(&mut self, keypad: &Keypad, instructions: usize) -> (result: Result<(), Fault>)
        requires
            old(self).wf(),
        ensures
            final(self).wf(),
            exists|randoms: Seq<u8>|
                {
                    &&& randoms.len() == instructions
                    &&& final(self)@ == (#[trigger] old(self)@.ticked(keypad@, randoms)).0
                    &&& match old(self)@.ticked(keypad@, randoms).1 {
                        None => result.is_ok(),
                        Some(fault) => result == Err::<(), Fault>(fault),
                    }
                },
    {
        let ghost mut randoms = Seq::<u8>::empty();
        let mut count: usize = 0;
        while count < instructions
            invariant
                count <= instructions,
                randoms.len() == count,
                self.wf(),
                old(self)@.ran(keypad@, randoms) == (self@, None::<Fault>),
            decreases instructions - count,
        {
            let ghost before = self@;
            let ghost earlier = randoms;
            let outcome = self.step(keypad);
            proof {
                let random = choose|random: u8|
                    agrees(
                        #[trigger] before.stepped(keypad@, random),
                        before.halted(),
                        self@,
                        outcome,
                    );
                randoms = earlier.push(random);
                assert(randoms.drop_last() =~= earlier);
            }
            match outcome {
                Ok(_) => {},
                Err(fault) => {
                    proof {
                        let rest = Seq::new((instructions - count - 1) as nat, |k: int| 0u8);
                        lemma_fault_persists(old(self)@, keypad@, randoms, rest);
                        assert((randoms + rest).len() == instructions);
                        assert(old(self)@.ticked(keypad@, randoms + rest) == (self@, Some(fault)));
                    }
                    return Err(fault);
                },
            }
            count += 1;
        }
        self.end_frame();
        proof {
            assert(old(self)@.ticked(keypad@, randoms) == (self@, None::<Fault>));
        }
        Ok(())
    }

    /// The value of register `x`.
    pub fn register(&self, x: usize) -> (value: u8)
        requires
            x < 16,
        ensures
            value == self@.v[x as int],
    {
        self.v[x]
    }

    /// The index register.
    pub fn index(&self) -> (i: u16)
        ensures
            i == self@.i,
    {
        self.i
    }

    /// The program counter.
    pub fn program_counter(&self) -> (pc: u16)
        ensures
            pc == self@.pc,
    {
        self.pc
    }

    /// The stack pointer.
    pub fn stack_pointer(&self) -> (sp: u8)
        ensures
            sp == self@.sp,
    {
        self.sp
    }

    /// The delay timer.
    pub fn delay_timer(&self) -> (value: u8)
        ensures
            value == self@.delay_timer,
    {
        self.delay_timer
    }

    /// The sound timer.
    pub fn sound_timer(&self) -> (value: u8)
        ensures
            value == self@.sound_timer,
    {
        self.sound_timer
    }

    /// The memory.
    pub fn ram(&self) -> (ram: &RAM)
        ensures
            ram@ == self@.memory,
    {
        &self.ram
    }

    /// The framebuffer.
    pub fn display(&self) -> (display: &Display)
        ensures
            display@ == self@.pixels,
            display.present_due() == self@.present_due,
    {
        &self.display
    }

    /// The tone signal.
    pub fn speaker(&self) -> (speaker: &Speaker)
        ensures
            speaker.is_on() == self@.tone,
    {
        &self.speaker
    }

    /// The rectangles that paint the framebuffer on a host surface of the
    /// given size; the framebuffer counts as presented afterwards.
    pub fn refresh(&mut self, surface_width: u32, surface_height: u32) -> (rectangles: Vec<
        Rectangle,
    >)
        ensures
            rectangles@ == lit_rectangles(
                old(self)@.pixels,
                (WIDTH * HEIGHT) as int,
                surface_width,
                surface_height,
            ),
            final(self)@ == (State { present_due: false, ..old(self)@ }),
    {
        self.display.refresh(surface_width, surface_height)
    }
}

} // verus!
