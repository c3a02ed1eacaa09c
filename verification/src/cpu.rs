//! The interpreter proper: the state in its concrete form and the code that
//! runs the instructions on it.

use vstd::prelude::*;
use crate::draw::{
    drawn_before, hit_before, lemma_draw_done, lemma_draw_next_row, lemma_draw_start,
    lemma_draw_step,
};
use crate::error::CpuError;
use crate::font::{FONT, FONT_SIZE, SPRITE_WIDTH};
use crate::frame::FrameBuffer;
use crate::random::random_byte;
use crate::stack::Stack;
use crate::state::{
    initial_ram, initial_state, opcode_family, opcode_n, opcode_nn, opcode_nnn, opcode_x,
    opcode_y, refused, CpuState, CHIP8_HEIGHT, CHIP8_WIDTH, FLAG_REGISTER, KEY_COUNT, MAX_ROM_SIZE,
    MEMORY_SIZE, PROGRAM_START,
};

verus! {

/// The interpreter: the machine's whole state and the instructions that change it.
#[derive(Debug)]
pub struct CPU {
    program_counter: u16,
    index_register: u16,
    vram: FrameBuffer,
    stack: Stack,
    ram: [u8; 4096],
    delay_timer: u8,
    sound_timer: u8,
    var_registers: [u8; 16],
    keys: [bool; 16],
    super_chip: bool,
}

impl View for CPU {
    type V = CpuState;

    closed spec fn view(&self) -> CpuState {
        CpuState {
            pc: self.program_counter,
            index: self.index_register,
            frame: self.vram@,
            stack: self.stack@,
            ram: self.ram@,
            delay_timer: self.delay_timer,
            sound_timer: self.sound_timer,
            v: self.var_registers@,
            keys: self.keys@,
            super_chip: self.super_chip,
        }
    }
}

impl CPU {
    /// The model of any interpreter has the declared sizes.
    pub proof fn lemma_view_wf(&self)
        ensures
            self@.wf(),
    {
        self.stack.lemma_bounded();
        self.vram.lemma_dimensions();
    }

    /// A machine at power-on: the font at the base of memory, everything else
    /// zero, execution about to start at `PROGRAM_START`. `super_chip`
    /// selects the alternate dialect.
    pub fn new(super_chip: bool) -> (cpu: Self)
        ensures
            cpu@ == initial_state(super_chip),
    {
        let mut cpu = CPU {
            program_counter: PROGRAM_START,
            index_register: 0,
            vram: FrameBuffer::new(),
            stack: Stack::new(),
            ram: [0u8; 4096],
            delay_timer: 0,
            sound_timer: 0,
            var_registers: [0u8; 16],
            keys: [false; 16],
            super_chip,
        };
        let ghost blank = cpu@;
        let mut i: usize = 0;
        while i < FONT_SIZE
            invariant
                i <= FONT_SIZE,
                forall|a: int| 0 <= a < i ==> cpu.ram@[a] == FONT@[a],
                forall|a: int| i <= a < MEMORY_SIZE ==> cpu.ram@[a] == 0,
                cpu@ == (CpuState { ram: cpu@.ram, ..blank }),
            decreases FONT_SIZE - i,
        {
            cpu.ram[i] = FONT[i];
            i += 1;
        }
        assert(cpu@.ram =~= initial_ram());
        assert(cpu@.v =~= initial_state(super_chip).v);
        assert(cpu@.keys =~= initial_state(super_chip).keys);
        cpu
    }

    /// The frame buffer, row by row; each cell is 1 for a lit pixel and 0 for
    /// a dark one.
    pub fn get_vram(&self) -> (vram: &[[u8; CHIP8_WIDTH]; CHIP8_HEIGHT])
        ensures
            forall|r: int, c: int|
                0 <= r < CHIP8_HEIGHT && 0 <= c < CHIP8_WIDTH ==> #[trigger] vram@[r]@[c] == (
                if self@.frame[r][c] {
                    1u8
                } else {
                    0u8
                }),
    {
        self.vram.cells()
    }

    /// Address of the next instruction.
    pub fn program_counter(&self) -> (pc: u16)
        ensures
            pc == self@.pc,
    {
        self.program_counter
    }

    /// The index register `I`.
    pub fn index_register(&self) -> (index: u16)
        ensures
            index == self@.index,
    {
        self.index_register
    }

    /// The register `Vx`.
    pub fn register(&self, x: usize) -> (value: u8)
        requires
            x < 16,
        ensures
            value == self@.v[x as int],
    {
        self.var_registers[x]
    }

    /// The byte of memory at `address`.
    pub fn memory(&self, address: usize) -> (value: u8)
        requires
            address < MEMORY_SIZE,
        ensures
            value == self@.ram[address as int],
    {
        self.ram[address]
    }

    /// The delay timer.
    pub fn delay_timer(&self) -> (value: u8)
        ensures
            value == self@.delay_timer,
    {
        self.delay_timer
    }

    /// The sound timer; a tone is due while it is not zero.
    pub fn sound_timer(&self) -> (value: u8)
        ensures
            value == self@.sound_timer,
    {
        self.sound_timer
    }

    /// Number of return addresses on the call stack.
    pub fn stack_depth(&self) -> (depth: usize)
        ensures
            depth == self@.stack.len(),
    {
        self.stack.len()
    }

    /// Whether the key numbered `key` is held down; a number past the keypad
    /// names no key.
    pub fn key_down(&self, key: u8) -> (down: bool)
        ensures
            down == self@.key_down(key),
    {
        (key as usize) < KEY_COUNT && self.keys[key as usize]
    }

    /// The lowest-numbered key that is held down, if any is.
    pub fn first_key_down(&self) -> (found: Option<u8>)
        ensures
            found is Some <==> self@.any_key_down(),
            found matches Some(key) ==> key == self@.first_key_down() && key < KEY_COUNT
                && self@.keys[key as int] && forall|j: int| 0 <= j < key ==> !self@.keys[j],
    {
        let mut key: u8 = 0;
        while key < 16
            invariant
                key <= 16,
                forall|j: int| 0 <= j < key ==> !self.keys@[j],
            decreases 16 - key,
        {
            if self.keys[key as usize] {
                proof {
                    let chosen: int = self@.first_key_down();
                    assert(0 <= key < KEY_COUNT && self@.keys[key as int] && forall|j: int|
                        0 <= j < key ==> !self@.keys[j]);
                    assert(chosen == key);
                }
                return Some(key);
            }
            key += 1;
        }
        None
    }

    /// Copies a program image into memory from `PROGRAM_START` upwards, byte
    /// for byte. The font and everything else below that address stay as
    /// they are. An image larger than the memory above that address is
    /// refused and nothing is written.
    pub fn load_rom_in_ram(&mut self, rom: &[u8]) -> (r: Result<(), CpuError>)
        ensures
            (r, final(self)@) == old(self)@.try_load_rom(rom@),
            r is Ok <==> rom@.len() <= MAX_ROM_SIZE,
            forall|a: int| 0 <= a < PROGRAM_START ==> final(self)@.ram[a] == old(self)@.ram[a],
    {
        if rom.len() > MAX_ROM_SIZE {
            return Err(CpuError::RomTooLarge);
        }
        let base: usize = PROGRAM_START as usize;
        let mut i: usize = 0;
        while i < rom.len()
            invariant
                i <= rom@.len() <= MAX_ROM_SIZE,
                base == PROGRAM_START,
                self@ == (CpuState { ram: self@.ram, ..old(self)@ }),
                forall|a: int|
                    0 <= a < MEMORY_SIZE ==> self@.ram[a] == (if base <= a < base + i {
                        rom@[a - base]
                    } else {
                        old(self)@.ram[a]
                    }),
            decreases rom@.len() - i,
        {
            self.ram[base + i] = rom[i];
            i += 1;
        }
        assert(self@.ram =~= old(self)@.with_rom(rom@).ram);
        Ok(())
    }

    /// Records key number `input` as held down or released.
    pub fn keypress(&mut self, input: usize, pressed: bool)
        requires
            input < KEY_COUNT,
        ensures
            final(self)@ == old(self)@.with_key(input as int, pressed),
    {
        self.keys[input] = pressed;
    }

    /// Reads the instruction at the program counter, high byte first, and
    /// moves the program counter past it, by exactly two. Where the two bytes
    /// do not both lie inside memory, nothing is read and nothing changes.
    pub fn fetch(&mut self) -> (r: Result<u16, CpuError>)
        ensures
            (r, final(self)@) == old(self)@.try_fetch(),
            match r {
                Ok(word) => {
                    let pc = old(self)@.pc as int;
                    &&& pc + 1 < MEMORY_SIZE
                    &&& word == old(self)@.ram[pc] * 256 + old(self)@.ram[pc + 1]
                    &&& final(self)@.pc == pc + 2
                },
                Err(e) => old(self)@.pc + 1 >= MEMORY_SIZE && e == CpuError::PcOutOfBounds,
            },
    {
        if self.program_counter as usize + 1 >= MEMORY_SIZE {
            return Err(CpuError::PcOutOfBounds);
        }
        let instruction_one: u8 = self.ram[self.program_counter as usize];
        let instruction_two: u8 = self.ram[self.program_counter as usize + 1];

        let final_instruction: u16 = ((instruction_one as u16) << 8) | instruction_two as u16;
        assert(final_instruction == instruction_one * 256 + instruction_two) by (bit_vector)
            requires
                final_instruction == ((instruction_one as u16) << 8) | instruction_two as u16,
        ;
        self.program_counter += 2;
        Ok(final_instruction)
    }

    /// Carries out the instruction `opcode`. Its four nibbles select one
    /// handler; a word that matches no instruction is passed over. An
    /// instruction that cannot be carried out is reported and changes
    /// nothing. Only `CXNN` draws a random byte; whatever byte that is, the
    /// outcome is the one `execute` gives for it.
    pub fn decode(&mut self, opcode: u16) -> (r: Result<(), CpuError>)
        ensures
            exists|random: u8| (r, final(self)@) == #[trigger] old(self)@.execute(opcode, random),
            opcode_family(opcode) != 0xC ==> forall|random: u8|
                (r, final(self)@) == #[trigger] old(self)@.execute(opcode, random),
    {
        let instruction: (u16, u16, u16, u16) = (
            (0xF000 & opcode) >> 12,
            (0x0F00 & opcode) >> 8,
            (0x00F0 & opcode) >> 4,
            (0x000F & opcode),
        );

        proof {
            self.lemma_view_wf();
            lemma_opcode_fields(opcode);
        }

        let nn: u8 = (0x00FF & opcode) as u8;
        let nnn: u16 = 0x0FFF & opcode;

        let n: u8 = instruction.3 as u8;
        let x: u8 = instruction.1 as u8;
        let y: u8 = instruction.2 as u8;

        let result: Result<(), CpuError> = match instruction {
            (0x0, 0x0, 0xe, 0x0) => {
                self.op_00e0();
                Ok(())
            },
            (0x1, _, _, _) => {
                self.op_1nnn(nnn);
                Ok(())
            },
            (0x0, 0x0, 0xe, 0xe) => self.op_00ee(),
            (0x2, _, _, _) => self.op_2nnn(nnn),
            (0x3, _, _, _) => self.op_3xnn(x, nn),
            (0x4, _, _, _) => self.op_4xnn(x, nn),
            (0x5, _, _, 0) => self.op_5xy0(x, y),
            (0x6, _, _, _) => {
                self.op_6xnn(x, nn);
                Ok(())
            },
            (0x7, _, _, _) => {
                self.op_7xnn(x, nn);
                Ok(())
            },
            (0x9, _, _, 0) => self.op_9xy0(x, y),
            (0x8, _, _, 0) => {
                self.op_8xy0(x, y);
                Ok(())
            },
            (0x8, _, _, 1) => {
                self.op_8xy1(x, y);
                Ok(())
            },
            (0x8, _, _, 2) => {
                self.op_8xy2(x, y);
                Ok(())
            },
            (0x8, _, _, 3) => {
                self.op_8xy3(x, y);
                Ok(())
            },
            (0x8, _, _, 4) => {
                self.op_8xy4(x, y);
                Ok(())
            },
            (0x8, _, _, 5) => {
                self.op_8xy5(x, y);
                Ok(())
            },
            (0x8, _, _, 6) => {
                self.op_8xy6(x, y);
                Ok(())
            },
            (0x8, _, _, 0xe) => {
                self.op_8xye(x, y);
                Ok(())
            },
            (0x8, _, _, 7) => {
                self.op_8xy7(x, y);
                Ok(())
            },
            (0xa, _, _, _) => {
                self.op_annn(nnn);
                Ok(())
            },
            (0xb, _, _, _) => {
                self.op_bnnn(x, nnn);
                Ok(())
            },
            (0xc, _, _, _) => {
                self.op_cxnn(x, nn);
                Ok(())
            },
            (0xd, _, _, _) => self.op_dxyn(x, y, n),
            (0xf, _, 0, 7) => {
                self.op_fx07(x);
                Ok(())
            },
            (0xf, _, 1, 5) => {
                self.op_fx15(x);
                Ok(())
            },
            (0xf, _, 1, 8) => {
                self.op_fx18(x);
                Ok(())
            },
            (0xe, _, 9, 0xe) => self.op_ex9e(x),
            (0xe, _, 0xa, 1) => self.op_exa1(x),
            (0xf, _, 0, 0xa) => self.op_fx0a(x),
            (0xf, _, 1, 0xe) => {
                self.op_fx1e(x);
                Ok(())
            },
            (0xf, _, 2, 9) => {
                self.op_fx29(x);
                Ok(())
            },
            (0xf, _, 3, 3) => self.op_fx33(x),
            (0xf, _, 5, 5) => self.op_fx55(x),
            (0xf, _, 6, 5) => self.op_fx65(x),
            _ => {
                self.unknown_instruction(instruction);
                Ok(())
            },
        };
        proof {
            if opcode_family(opcode) == 0xC {
                let drawn: u8 = choose|random: u8|
                    self@ == #[trigger] old(self)@.store_random(x, nn, random);
                assert((result, self@) == old(self)@.execute(opcode, drawn));
            } else {
                assert((result, self@) == old(self)@.execute(opcode, 0u8));
            }
        }
        result
    }

    /// A word that is no instruction: nothing happens.
    pub fn unknown_instruction(&mut self, instruction: (u16, u16, u16, u16))
        ensures
            final(self)@ == old(self)@,
    {
    }

    /// One cycle: reads the instruction at the program counter and carries
    /// it out. A program counter outside memory stops the cycle before
    /// anything changes; an instruction that cannot be carried out is
    /// reported with the program counter already past it.
    pub fn cycle(&mut self) -> (r: Result<(), CpuError>)
        ensures
            exists|random: u8| (r, final(self)@) == #[trigger] old(self)@.run_cycle(random),
            !old(self)@.can_fetch() ==> (r, final(self)@) == refused(
                old(self)@,
                CpuError::PcOutOfBounds,
            ),
            old(self)@.can_fetch() && opcode_family(old(self)@.word_at_pc()) != 0xC ==> forall|
                random: u8,
            | (r, final(self)@) == #[trigger] old(self)@.run_cycle(random),
    {
        match self.fetch() {
            Ok(opcode) => {
                let ghost fetched = self@;
                let result: Result<(), CpuError> = self.decode(opcode);
                proof {
                    let drawn: u8 = choose|random: u8|
                        (result, self@) == #[trigger] fetched.execute(opcode, random);
                    assert((result, self@) == old(self)@.run_cycle(drawn));
                }
                result
            },
            Err(e) => {
                let result: Result<(), CpuError> = Err(e);
                assert((result, self@) == old(self)@.run_cycle(0u8));
                result
            },
        }
    }

    /// One tick of the timers: each of the two counts down by one unless it
    /// is at zero. Returns the sound timer after the tick; a tone is due
    /// while it is not zero.
    pub fn cycle_timers(&mut self) -> (sound: u8)
        ensures
            final(self)@ == old(self)@.tick_timers(),
            sound == final(self)@.sound_timer,
    {
        if self.delay_timer > 0 {
            self.delay_timer -= 1;
        }
        if self.sound_timer > 0 {
            self.sound_timer -= 1;
        }
        self.sound_timer
    }

    /// `00E0`: clear the screen. Every pixel of the full-sized frame buffer
    /// is dark afterwards; nothing else changes.
    pub fn op_00e0(&mut self)
        ensures
            final(self)@ == old(self)@.clear_screen(),
            final(self)@.frame.len() == CHIP8_HEIGHT,
            forall|r: int|
                0 <= r < CHIP8_HEIGHT ==> (#[trigger] final(self)@.frame[r]).len() == CHIP8_WIDTH,
            forall|r: int, c: int|
                0 <= r < CHIP8_HEIGHT && 0 <= c < CHIP8_WIDTH ==> !final(self)@.frame[r][c],
    {
        self.vram.clear();
    }

    /// `1NNN`: jump to `nnn`.
    pub fn op_1nnn(&mut self, nnn: u16)
        ensures
            final(self)@ == old(self)@.jump(nnn),
    {
        self.program_counter = nnn;
    }

    /// `2NNN`: call the subroutine at `nnn`: the program counter goes on the
    /// call stack and execution continues at `nnn`. With the call stack full
    /// the call is refused and nothing changes.
    pub fn op_2nnn(&mut self, nnn: u16) -> (r: Result<(), CpuError>)
        ensures
            (r, final(self)@) == old(self)@.try_call(nnn),
    {
        match self.stack.push(self.program_counter) {
            Ok(()) => {
                self.program_counter = nnn;
                Ok(())
            },
            Err(e) => Err(e),
        }
    }

    /// `00EE`: return from a subroutine: execution continues at the address
    /// taken off the call stack. With the call stack empty the return is
    /// refused and nothing changes.
    pub fn op_00ee(&mut self) -> (r: Result<(), CpuError>)
        ensures
            (r, final(self)@) == old(self)@.try_ret(),
    {
        match self.stack.pop() {
            Ok(address) => {
                self.program_counter = address;
                Ok(())
            },
            Err(e) => Err(e),
        }
    }

    /// Steps over the next instruction when `taken` holds. A skip that would
    /// carry the program counter out of its range is refused.
    pub fn skip_when(&mut self, taken: bool) -> (r: Result<(), CpuError>)
        ensures
            (r, final(self)@) == old(self)@.try_skip(taken),
    {
        if taken {
            if self.program_counter > u16::MAX - 2 {
                return Err(CpuError::PcOutOfBounds);
            }
            self.program_counter += 2;
        }
        Ok(())
    }

    /// `3XNN`: skip the next instruction when `Vx == nn`.
    pub fn op_3xnn(&mut self, x: u8, nn: u8) -> (r: Result<(), CpuError>)
        requires
            x < 16,
        ensures
            (r, final(self)@) == old(self)@.try_skip(old(self)@.v[x as int] == nn),
    {
        let val: u8 = self.var_registers[x as usize];
        self.skip_when(val == nn)
    }

    /// `4XNN`: skip the next instruction when `Vx != nn`.
    pub fn op_4xnn(&mut self, x: u8, nn: u8) -> (r: Result<(), CpuError>)
        requires
            x < 16,
        ensures
            (r, final(self)@) == old(self)@.try_skip(old(self)@.v[x as int] != nn),
    {
        let val: u8 = self.var_registers[x as usize];
        self.skip_when(val != nn)
    }

    /// `5XY0`: skip the next instruction when `Vx == Vy`.
    pub fn op_5xy0(&mut self, x: u8, y: u8) -> (r: Result<(), CpuError>)
        requires
            x < 16,
            y < 16,
        ensures
            (r, final(self)@) == old(self)@.try_skip(
                old(self)@.v[x as int] == old(self)@.v[y as int],
            ),
    {
        let val: u8 = self.var_registers[x as usize];
        let other: u8 = self.var_registers[y as usize];
        self.skip_when(val == other)
    }

    /// `9XY0`: skip the next instruction when `Vx != Vy`.
    pub fn op_9xy0(&mut self, x: u8, y: u8) -> (r: Result<(), CpuError>)
        requires
            x < 16,
            y < 16,
        ensures
            (r, final(self)@) == old(self)@.try_skip(
                old(self)@.v[x as int] != old(self)@.v[y as int],
            ),
    {
        let val: u8 = self.var_registers[x as usize];
        let other: u8 = self.var_registers[y as usize];
        self.skip_when(val != other)
    }

    /// `6XNN`: `Vx = nn`.
    pub fn op_6xnn(&mut self, x: u8, nn: u8)
        requires
            x < 16,
        ensures
            final(self)@ == old(self)@.with_register(x, nn),
    {
        self.var_registers[x as usize] = nn;
    }

    /// `7XNN`: `Vx += nn`, wrapping; the flag register is not touched.
    pub fn op_7xnn(&mut self, x: u8, nn: u8)
        requires
            x < 16,
        ensures
            final(self)@ == old(self)@.add_immediate(x, nn),
    {
        let sum: u8 = self.var_registers[x as usize].wrapping_add(nn);
        self.var_registers[x as usize] = sum;
    }

    /// `8XY0`: `Vx = Vy`.
    pub fn op_8xy0(&mut self, x: u8, y: u8)
        requires
            x < 16,
            y < 16,
        ensures
            final(self)@ == old(self)@.with_register(x, old(self)@.v[y as int]),
    {
        self.var_registers[x as usize] = self.var_registers[y as usize];
    }

    /// `8XY1`: `Vx |= Vy`; no flag.
    pub fn op_8xy1(&mut self, x: u8, y: u8)
        requires
            x < 16,
            y < 16,
        ensures
            final(self)@ == old(self)@.with_register(
                x,
                old(self)@.v[x as int] | old(self)@.v[y as int],
            ),
    {
        let val_vx: u8 = self.var_registers[x as usize];
        self.var_registers[x as usize] = val_vx | self.var_registers[y as usize];
    }

    /// `8XY2`: `Vx &= Vy`; no flag.
    pub fn op_8xy2(&mut self, x: u8, y: u8)
        requires
            x < 16,
            y < 16,
        ensures
            final(self)@ == old(self)@.with_register(
                x,
                old(self)@.v[x as int] & old(self)@.v[y as int],
            ),
    {
        let val_vx: u8 = self.var_registers[x as usize];
        self.var_registers[x as usize] = val_vx & self.var_registers[y as usize];
    }

    /// `8XY3`: `Vx ^= Vy`; no flag.
    pub fn op_8xy3(&mut self, x: u8, y: u8)
        requires
            x < 16,
            y < 16,
        ensures
            final(self)@ == old(self)@.with_register(
                x,
                old(self)@.v[x as int] ^ old(self)@.v[y as int],
            ),
    {
        let val_vx: u8 = self.var_registers[x as usize];
        self.var_registers[x as usize] = val_vx ^ self.var_registers[y as usize];
    }

    /// `8XY4`: `Vx += Vy`, wrapping. The flag register takes 1 exactly when
    /// the sum does not fit in eight bits, else 0; it is written last, so it
    /// holds the flag also where `x` names it.
    pub fn op_8xy4(&mut self, x: u8, y: u8)
        requires
            x < 16,
            y < 16,
        ensures
            final(self)@ == old(self)@.add_registers(x, y),
            ({
                let sum = old(self)@.v[x as int] + old(self)@.v[y as int];
                &&& sum > 255 ==> final(self)@.v[FLAG_REGISTER as int] == 1
                &&& sum <= 255 ==> final(self)@.v[FLAG_REGISTER as int] == 0
            }),
    {
        let vx: u8 = self.var_registers[x as usize];
        let vy: u8 = self.var_registers[y as usize];
        let sum: u8 = vx.wrapping_add(vy);
        let overflow: bool = vy > 255 - vx;
        self.var_registers[x as usize] = sum;
        if overflow {
            self.var_registers[FLAG_REGISTER as usize] = 1;
        } else {
            self.var_registers[FLAG_REGISTER as usize] = 0;
        }
    }

    /// `8XY5`: `Vx -= Vy`, wrapping. The flag register takes 1 exactly when
    /// `Vx >= Vy`, that is when nothing was borrowed, else 0; it is written
    /// last, so it holds the flag also where `x` names it.
    pub fn op_8xy5(&mut self, x: u8, y: u8)
        requires
            x < 16,
            y < 16,
        ensures
            final(self)@ == old(self)@.subtract_registers(x, y),
            ({
                let vx = old(self)@.v[x as int];
                let vy = old(self)@.v[y as int];
                &&& vx >= vy ==> final(self)@.v[FLAG_REGISTER as int] == 1
                &&& vx < vy ==> final(self)@.v[FLAG_REGISTER as int] == 0
            }),
    {
        let vx: u8 = self.var_registers[x as usize];
        let vy: u8 = self.var_registers[y as usize];
        let difference: u8 = vx.wrapping_sub(vy);
        let underflow: bool = vx < vy;
        self.var_registers[x as usize] = difference;
        if underflow {
            self.var_registers[FLAG_REGISTER as usize] = 0;
        } else {
            self.var_registers[FLAG_REGISTER as usize] = 1;
        }
    }

    /// `8XY6`: shift right by one. The legacy dialect shifts `Vy` into `Vx`,
    /// the alternate one shifts `Vx` in place. The flag register takes the
    /// bit shifted out.
    pub fn op_8xy6(&mut self, x: u8, y: u8)
        requires
            x < 16,
            y < 16,
        ensures
            final(self)@ == old(self)@.shift_right(x, y),
    {
        if !self.super_chip {
            self.var_registers[x as usize] = self.var_registers[y as usize];
        }
        let vx: u8 = self.var_registers[x as usize];
        let lsb: u8 = vx & 0b0000_0001;
        let shifted: u8 = vx >> 1;
        assert(lsb == vx % 2 && shifted == vx / 2) by (bit_vector)
            requires
                lsb == vx & 1,
                shifted == vx >> 1,
        ;
        self.var_registers[x as usize] = shifted;
        self.var_registers[FLAG_REGISTER as usize] = lsb;
        assert(self@.v =~= old(self)@.shift_right(x, y).v);
    }

    /// `8XYE`: shift left by one, wrapping at eight bits. The legacy dialect
    /// shifts `Vy` into `Vx`, the alternate one shifts `Vx` in place. The
    /// flag register takes the bit shifted out.
    pub fn op_8xye(&mut self, x: u8, y: u8)
        requires
            x < 16,
            y < 16,
        ensures
            final(self)@ == old(self)@.shift_left(x, y),
    {
        if !self.super_chip {
            self.var_registers[x as usize] = self.var_registers[y as usize];
        }
        let vx: u8 = self.var_registers[x as usize];
        let msb: u8 = (vx & 0b1000_0000) >> 7;
        let shifted: u8 = vx << 1;
        assert(msb == vx / 128 && shifted == (vx * 2) % 256) by (bit_vector)
            requires
                msb == (vx & 0x80) >> 7,
                shifted == vx << 1,
        ;
        self.var_registers[x as usize] = shifted;
        self.var_registers[FLAG_REGISTER as usize] = msb;
        assert(self@.v =~= old(self)@.shift_left(x, y).v);
    }

    /// `8XY7`: `Vx = Vy - Vx`, wrapping. The flag register takes 1 exactly
    /// when `Vy >= Vx`, that is when nothing was borrowed, else 0; it is
    /// written last, so it holds the flag also where `x` names it.
    pub fn op_8xy7(&mut self, x: u8, y: u8)
        requires
            x < 16,
            y < 16,
        ensures
            final(self)@ == old(self)@.subtract_reversed(x, y),
            ({
                let vx = old(self)@.v[x as int];
                let vy = old(self)@.v[y as int];
                &&& vy >= vx ==> final(self)@.v[FLAG_REGISTER as int] == 1
                &&& vy < vx ==> final(self)@.v[FLAG_REGISTER as int] == 0
            }),
    {
        let vx: u8 = self.var_registers[x as usize];
        let vy: u8 = self.var_registers[y as usize];
        let difference: u8 = vy.wrapping_sub(vx);
        let underflow: bool = vy < vx;
        self.var_registers[x as usize] = difference;
        if underflow {
            self.var_registers[FLAG_REGISTER as usize] = 0;
        } else {
            self.var_registers[FLAG_REGISTER as usize] = 1;
        }
    }

    /// `ANNN`: `I = nnn`.
    pub fn op_annn(&mut self, nnn: u16)
        ensures
            final(self)@ == old(self)@.with_index(nnn),
    {
        self.index_register = nnn;
    }

    /// `BNNN`: jump to `nnn` plus a register, `V0` in the legacy dialect and
    /// `Vx` in the alternate one. The sum is taken at sixteen bits, so no
    /// bit of `nnn` is lost.
    pub fn op_bnnn(&mut self, x: u8, nnn: u16)
        requires
            x < 16,
            nnn <= 0x0FFF,
        ensures
            final(self)@ == old(self)@.indexed_jump(x, nnn),
            final(self)@.pc == old(self)@.indexed_jump_target(x, nnn),
    {
        let v0: u8 = self.var_registers[0];
        let mut jump_loc: u16 = v0 as u16 + nnn;
        if self.super_chip {
            jump_loc = self.var_registers[x as usize] as u16 + nnn;
        }
        self.program_counter = jump_loc;
    }

    /// `CXNN` for a given random byte: `Vx = random & nn`.
    pub fn store_random(&mut self, x: u8, nn: u8, random: u8)
        requires
            x < 16,
        ensures
            final(self)@ == old(self)@.store_random(x, nn, random),
    {
        let and_result: u8 = random & nn;
        self.var_registers[x as usize] = and_result;
    }

    /// `CXNN`: `Vx` takes a uniformly drawn byte masked by `nn`. Which byte
    /// is drawn is not determined; whatever it is, it is stored as
    /// `store_random` says.
    pub fn op_cxnn(&mut self, x: u8, nn: u8)
        requires
            x < 16,
        ensures
            exists|random: u8| final(self)@ == #[trigger] old(self)@.store_random(x, nn, random),
    {
        let number: u8 = random_byte();
        self.store_random(x, nn, number);
    }

    /// `FX07`: `Vx = delay timer`.
    pub fn op_fx07(&mut self, x: u8)
        requires
            x < 16,
        ensures
            final(self)@ == old(self)@.read_delay(x),
    {
        self.var_registers[x as usize] = self.delay_timer;
    }

    /// `FX15`: `delay timer = Vx`.
    pub fn op_fx15(&mut self, x: u8)
        requires
            x < 16,
        ensures
            final(self)@ == old(self)@.set_delay(x),
    {
        self.delay_timer = self.var_registers[x as usize];
    }

    /// `FX18`: `sound timer = Vx`.
    pub fn op_fx18(&mut self, x: u8)
        requires
            x < 16,
        ensures
            final(self)@ == old(self)@.set_sound(x),
    {
        self.sound_timer = self.var_registers[x as usize];
    }

    /// `EX9E`: skip the next instruction when the key numbered `Vx` is down.
    pub fn op_ex9e(&mut self, x: u8) -> (r: Result<(), CpuError>)
        requires
            x < 16,
        ensures
            (r, final(self)@) == old(self)@.try_skip(old(self)@.key_down(old(self)@.v[x as int])),
    {
        let vx: u8 = self.var_registers[x as usize];
        let down: bool = self.key_down(vx);
        self.skip_when(down)
    }

    /// `EXA1`: skip the next instruction when the key numbered `Vx` is not down.
    pub fn op_exa1(&mut self, x: u8) -> (r: Result<(), CpuError>)
        requires
            x < 16,
        ensures
            (r, final(self)@) == old(self)@.try_skip(!old(self)@.key_down(old(self)@.v[x as int])),
    {
        let vx: u8 = self.var_registers[x as usize];
        let down: bool = self.key_down(vx);
        self.skip_when(!down)
    }

    /// `FX1E`: `I += Vx`, at sixteen bits. A sum above `0x1000` puts 1 in the
    /// flag register; no other sum touches it.
    pub fn op_fx1e(&mut self, x: u8)
        requires
            x < 16,
        ensures
            final(self)@ == old(self)@.add_to_index(x),
    {
        let sum: u32 = self.index_register as u32 + self.var_registers[x as usize] as u32;
        self.index_register = (sum % 0x10000) as u16;
        if sum > 0x1000 {
            self.var_registers[FLAG_REGISTER as usize] = 1;
        }
    }

    /// `FX0A`: wait for a key. With a key down, `Vx` takes the number of the
    /// lowest such key. With none, the program counter goes back by two, so
    /// that the same instruction is read again on the next cycle; where no
    /// instruction lies two bytes back, that is refused.
    pub fn op_fx0a(&mut self, x: u8) -> (r: Result<(), CpuError>)
        requires
            x < 16,
        ensures
            (r, final(self)@) == old(self)@.try_wait_key(x),
    {
        match self.first_key_down() {
            Some(key) => {
                self.var_registers[x as usize] = key;
            },
            None => {
                if self.program_counter < 2 {
                    return Err(CpuError::PcOutOfBounds);
                }
                self.program_counter -= 2;
            },
        }
        Ok(())
    }

    /// `FX29`: `I` takes the address of the glyph for `Vx`, `SPRITE_WIDTH`
    /// bytes for each glyph before it.
    pub fn op_fx29(&mut self, x: u8)
        requires
            x < 16,
        ensures
            final(self)@ == old(self)@.point_at_glyph(x),
            final(self)@.index == SPRITE_WIDTH * old(self)@.v[x as int],
    {
        let character: u8 = self.var_registers[x as usize];
        self.index_register = SPRITE_WIDTH as u16 * character as u16;
    }

    /// `FX33`: the hundreds, tens and units of `Vx` go to memory at `I`,
    /// `I + 1` and `I + 2`. Where those three bytes reach past the end of
    /// memory, nothing is written.
    pub fn op_fx33(&mut self, x: u8) -> (r: Result<(), CpuError>)
        requires
            x < 16,
        ensures
            (r, final(self)@) == old(self)@.try_store_bcd(x),
            r is Ok ==> {
                &&& final(self)@.ram[old(self)@.index as int] == old(self)@.v[x as int] / 100
                &&& final(self)@.ram[old(self)@.index + 1] == (old(self)@.v[x as int] / 10) % 10
                &&& final(self)@.ram[old(self)@.index + 2] == old(self)@.v[x as int] % 10
            },
    {
        if self.index_register as usize + 3 > MEMORY_SIZE {
            return Err(CpuError::MemoryOutOfBounds);
        }
        let vx: u8 = self.var_registers[x as usize];
        let third: u8 = vx % 10;
        let second: u8 = (vx / 10) % 10;
        let first: u8 = vx / 100;

        let i: usize = self.index_register as usize;
        self.ram[i] = first;
        self.ram[i + 1] = second;
        self.ram[i + 2] = third;
        Ok(())
    }

    /// `FX55`: `V0` to `Vx`, `x` included, go to memory from `I` upwards.
    /// Where they would reach past the end of memory, nothing is written.
    pub fn op_fx55(&mut self, x: u8) -> (r: Result<(), CpuError>)
        requires
            x < 16,
        ensures
            (r, final(self)@) == old(self)@.try_store_registers(x),
    {
        if self.index_register as usize + x as usize + 1 > MEMORY_SIZE {
            return Err(CpuError::MemoryOutOfBounds);
        }
        let index: usize = self.index_register as usize;
        let mut i: usize = 0;
        while i <= x as usize
            invariant
                x < 16,
                i <= x + 1,
                index == old(self)@.index,
                index + x < MEMORY_SIZE,
                self@ == (CpuState { ram: self@.ram, ..old(self)@ }),
                forall|a: int|
                    0 <= a < MEMORY_SIZE ==> self@.ram[a] == (if index <= a < index + i {
                        old(self)@.v[a - index]
                    } else {
                        old(self)@.ram[a]
                    }),
            decreases x + 1 - i,
        {
            self.ram[index + i] = self.var_registers[i];
            i += 1;
        }
        assert(self@.ram =~= old(self)@.store_registers(x).ram);
        Ok(())
    }

    /// `FX65`: `V0` to `Vx`, `x` included, are read from memory from `I`
    /// upwards. Where they would reach past the end of memory, nothing is read.
    pub fn op_fx65(&mut self, x: u8) -> (r: Result<(), CpuError>)
        requires
            x < 16,
        ensures
            (r, final(self)@) == old(self)@.try_load_registers(x),
    {
        if self.index_register as usize + x as usize + 1 > MEMORY_SIZE {
            return Err(CpuError::MemoryOutOfBounds);
        }
        let index: usize = self.index_register as usize;
        let mut i: usize = 0;
        while i <= x as usize
            invariant
                x < 16,
                i <= x + 1,
                index == old(self)@.index,
                index + x < MEMORY_SIZE,
                self@ == (CpuState { v: self@.v, ..old(self)@ }),
                forall|k: int|
                    0 <= k < 16 ==> self@.v[k] == (if k < i {
                        old(self)@.ram[index + k]
                    } else {
                        old(self)@.v[k]
                    }),
            decreases x + 1 - i,
        {
            self.var_registers[i] = self.ram[index + i];
            i += 1;
        }
        assert(self@.v =~= old(self)@.load_registers(x).v);
        Ok(())
    }

    /// `DXYN`: draw the `n`-row sprite at `I` at column `Vx`, row `Vy`. The
    /// flag register is cleared, then the coordinates are read; each sprite
    /// pixel lands at its offset from them, wrapped at the screen's edges,
    /// and is xored into the frame buffer. The flag register ends as 1
    /// exactly when a set sprite pixel landed on a lit pixel. Where the
    /// sprite's rows reach past the end of memory, nothing is drawn.
    pub fn op_dxyn(&mut self, x: u8, y: u8, n: u8) -> (r: Result<(), CpuError>)
        requires
            x < 16,
            y < 16,
            n < 16,
        ensures
            (r, final(self)@) == old(self)@.try_draw(x, y, n),
    {
        if n > 0 && self.index_register as usize + n as usize > MEMORY_SIZE {
            return Err(CpuError::MemoryOutOfBounds);
        }
        let ghost start = self@;
        proof {
            self.lemma_view_wf();
        }
        self.var_registers[FLAG_REGISTER as usize] = 0;
        proof {
            lemma_draw_start(start, x, y, n);
        }
        let origin_x: usize = self.var_registers[x as usize] as usize;
        let origin_y: usize = self.var_registers[y as usize] as usize;
        let index: usize = self.index_register as usize;
        let mut byte: u8 = 0;
        while byte < n
            invariant
                x < 16,
                y < 16,
                byte <= n < 16,
                start.wf(),
                index == start.index,
                n > 0 ==> index + n <= MEMORY_SIZE,
                origin_x == start.draw_origin(x),
                origin_y == start.draw_origin(y),
                self.var_registers@[FLAG_REGISTER as int] <= 1,
                self@ == (CpuState { frame: self@.frame, v: self@.v, ..start }),
                self@.v == start.v.update(
                    FLAG_REGISTER as int,
                    self.var_registers@[FLAG_REGISTER as int],
                ),
                self@.wf(),
                forall|r: int, c: int|
                    0 <= r < CHIP8_HEIGHT && 0 <= c < CHIP8_WIDTH ==> self@.frame[r][c] == (
                    start.frame[r][c] != drawn_before(start, x, y, n, byte as int, 0, r, c)),
                self.var_registers@[FLAG_REGISTER as int] == 1 <==> hit_before(
                    start,
                    x,
                    y,
                    n,
                    byte as int,
                    0,
                ),
            decreases n - byte,
        {
            let py: usize = (origin_y + byte as usize) % CHIP8_HEIGHT;
            let sprite: u8 = self.ram[index + byte as usize];
            let mut bit: u8 = 0;
            while bit < 8
                invariant
                    x < 16,
                    y < 16,
                    byte < n < 16,
                    bit <= 8,
                    start.wf(),
                    index == start.index,
                    index + n <= MEMORY_SIZE,
                    origin_x == start.draw_origin(x),
                    origin_y == start.draw_origin(y),
                    py == (origin_y + byte) % 32,
                    sprite == start.ram[index + byte],
                    self.var_registers@[FLAG_REGISTER as int] <= 1,
                    self@ == (CpuState { frame: self@.frame, v: self@.v, ..start }),
                    self@.v == start.v.update(
                        FLAG_REGISTER as int,
                        self.var_registers@[FLAG_REGISTER as int],
                    ),
                    self@.wf(),
                    forall|r: int, c: int|
                        0 <= r < CHIP8_HEIGHT && 0 <= c < CHIP8_WIDTH ==> self@.frame[r][c] == (
                        start.frame[r][c] != drawn_before(
                            start,
                            x,
                            y,
                            n,
                            byte as int,
                            bit as int,
                            r,
                            c,
                        )),
                    self.var_registers@[FLAG_REGISTER as int] == 1 <==> hit_before(
                        start,
                        x,
                        y,
                        n,
                        byte as int,
                        bit as int,
                    ),
                decreases 8 - bit,
            {
                let px: usize = (origin_x + bit as usize) % CHIP8_WIDTH;
                let color: u8 = (sprite >> (7 - bit)) & 1;
                assert(color <= 1) by (bit_vector)
                    requires
                        color == (sprite >> (7 - bit) as u8) & 1,
                ;
                let ghost before = self@;
                let ghost flag_before = self.var_registers@[FLAG_REGISTER as int];
                let hit: u8 = self.vram.xor(py, px, color);
                let flag: u8 = self.var_registers[FLAG_REGISTER as usize] | hit;
                assert(flag <= 1 && (flag == 1 <==> (flag_before == 1 || hit == 1))) by (bit_vector)
                    requires
                        flag == flag_before | hit,
                        flag_before <= 1,
                        hit <= 1,
                ;
                self.var_registers[FLAG_REGISTER as usize] = flag;
                proof {
                    self.lemma_view_wf();
                    lemma_draw_step(
                        start,
                        x,
                        y,
                        n,
                        byte as int,
                        bit as int,
                        before.frame,
                        self@.frame,
                        flag_before,
                        flag,
                    );
                }
                bit += 1;
            }
            proof {
                lemma_draw_next_row(
                    start,
                    x,
                    y,
                    n,
                    byte as int,
                    self@.frame,
                    self.var_registers@[FLAG_REGISTER as int],
                );
            }
            byte += 1;
        }
        proof {
            lemma_draw_done(start, x, y, n, self@.frame, self.var_registers@[FLAG_REGISTER as int]);
        }
        Ok(())
    }
}

/// The nibbles and fields that masks and shifts take out of an instruction
/// are the ones its digits name.
proof fn lemma_opcode_fields(opcode: u16)
    ensures
        (0xF000 & opcode) >> 12 == opcode_family(opcode),
        (0x0F00 & opcode) >> 8 == opcode_x(opcode),
        (0x00F0 & opcode) >> 4 == opcode_y(opcode),
        0x000F & opcode == opcode_n(opcode),
        0x00FF & opcode == opcode_nn(opcode),
        0x0FFF & opcode == opcode_nnn(opcode),
        opcode_x(opcode) < 16,
        opcode_y(opcode) < 16,
        opcode_n(opcode) < 16,
        opcode_family(opcode) < 16,
        opcode_nnn(opcode) <= 0x0FFF,
        opcode == 4096 * opcode_family(opcode) + opcode_nnn(opcode),
        opcode_nnn(opcode) == 256 * opcode_x(opcode) + opcode_nn(opcode),
        opcode_nn(opcode) == 16 * opcode_y(opcode) + opcode_n(opcode),
{
    let x: u16 = (opcode / 256) % 16;
    let y: u16 = (opcode / 16) % 16;
    let n: u16 = opcode % 16;
    let nn: u16 = opcode % 256;
    assert((0xF000 & opcode) >> 12 == opcode / 4096) by (bit_vector);
    assert((0x0F00 & opcode) >> 8 == (opcode / 256) % 16) by (bit_vector);
    assert((0x00F0 & opcode) >> 4 == (opcode / 16) % 16) by (bit_vector);
    assert(0x000F & opcode == opcode % 16) by (bit_vector);
    assert(0x00FF & opcode == opcode % 256) by (bit_vector);
    assert(0x0FFF & opcode == opcode % 4096) by (bit_vector);
    assert(opcode % 4096 == 256 * ((opcode / 256) % 16) + opcode % 256) by (bit_vector);
    assert(opcode % 256 == 16 * ((opcode / 16) % 16) + opcode % 16) by (bit_vector);
    assert(x < 16 && y < 16 && n < 16 && nn < 256);
    assert(x as u8 == x && y as u8 == y && n as u8 == n && nn as u8 == nn);
}

} // verus!
