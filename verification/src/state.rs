//! The machine as a mathematical value, and what each instruction does to it.

use vstd::prelude::*;
use crate::error::CpuError;
use crate::font::{glyph_address, FONT, FONT_SIZE};
use crate::stack::{popped, pushed, STACK_CAPACITY};

verus! {

/// Number of bytes of memory.
pub const MEMORY_SIZE: usize = 4096;

/// Address at which programs are loaded and at which execution starts.
pub const PROGRAM_START: u16 = 0x200;

/// Largest program image that fits above `PROGRAM_START`.
pub const MAX_ROM_SIZE: usize = 3584;

/// Pixels in a row of the frame buffer.
pub const CHIP8_WIDTH: usize = 64;

/// Rows of the frame buffer.
pub const CHIP8_HEIGHT: usize = 32;

/// Keys on the keypad.
pub const KEY_COUNT: usize = 16;

/// Number of the register that takes carry, borrow and collision flags.
pub const FLAG_REGISTER: u8 = 15;

/// The machine as a mathematical value. Every operation of the interpreter is
/// a function from one such value to the next.
#[verifier::ext_equal]
pub struct CpuState {
    /// Address of the next instruction.
    pub pc: u16,
    /// The index register `I`.
    pub index: u16,
    /// The frame buffer, `CHIP8_HEIGHT` rows of `CHIP8_WIDTH` pixels; `true` is lit.
    pub frame: Seq<Seq<bool>>,
    /// Return addresses, oldest first.
    pub stack: Seq<u16>,
    /// Memory, `MEMORY_SIZE` bytes.
    pub ram: Seq<u8>,
    /// Counts down to zero, one for each tick; programs read and set it.
    pub delay_timer: u8,
    /// Counts down to zero, one for each tick; a tone sounds while it is not zero.
    pub sound_timer: u8,
    /// The registers `V0` to `VF`.
    pub v: Seq<u8>,
    /// Which keys are held down.
    pub keys: Seq<bool>,
    /// `false` selects the legacy dialect, `true` the alternate one.
    pub super_chip: bool,
}

/// What an operation comes to: whether it was carried out, and the state it leaves.
pub type Outcome = (Result<(), CpuError>, CpuState);

/// The operation went through and left `next`.
pub open spec fn carried_out(next: CpuState) -> Outcome {
    (Ok(()), next)
}

/// The operation was refused with `error` and `state` is as it was.
pub open spec fn refused(state: CpuState, error: CpuError) -> Outcome {
    (Err(error), state)
}

/// The frame buffer with no pixel lit.
pub open spec fn blank_frame() -> Seq<Seq<bool>> {
    Seq::new(CHIP8_HEIGHT as nat, |r: int| Seq::new(CHIP8_WIDTH as nat, |c: int| false))
}

/// Memory at power-on: the font at the base, zero above it.
pub open spec fn initial_ram() -> Seq<u8> {
    Seq::new(MEMORY_SIZE as nat, |a: int| if a < FONT_SIZE { FONT@[a] } else { 0u8 })
}

/// The state a machine of the given dialect starts in.
pub open spec fn initial_state(super_chip: bool) -> CpuState {
    CpuState {
        pc: PROGRAM_START,
        index: 0,
        frame: blank_frame(),
        stack: Seq::empty(),
        ram: initial_ram(),
        delay_timer: 0,
        sound_timer: 0,
        v: Seq::new(16, |i: int| 0u8),
        keys: Seq::new(KEY_COUNT as nat, |k: int| false),
        super_chip,
    }
}

/// `a + b` as an eight-bit register holds it.
pub open spec fn wrapping_sum(a: u8, b: u8) -> u8 {
    ((a + b) % 256) as u8
}

/// `a - b` as an eight-bit register holds it.
pub open spec fn wrapping_difference(a: u8, b: u8) -> u8 {
    ((a - b) % 256) as u8
}

/// 1 when `a + b` does not fit in eight bits, else 0.
pub open spec fn carry_flag(a: u8, b: u8) -> u8 {
    if a + b > 255 {
        1
    } else {
        0
    }
}

/// 1 when `a - b` needs no borrow, else 0.
pub open spec fn no_borrow_flag(a: u8, b: u8) -> u8 {
    if a >= b {
        1
    } else {
        0
    }
}

/// Whether the pixel in column `col` of a sprite row is set; column 0 is the
/// most significant bit of the row's byte.
pub open spec fn sprite_bit(byte: u8, col: u8) -> bool {
    (byte >> ((7 - col) as u8)) & 1 == 1
}

/// Hundreds, tens and units of `value`.
pub open spec fn bcd_digits(value: u8) -> (u8, u8, u8) {
    (value / 100, (value / 10) % 10, value % 10)
}

/// The instruction's first nibble, which selects its family.
pub open spec fn opcode_family(opcode: u16) -> u16 {
    opcode / 4096
}

/// The instruction's second nibble, `x`.
pub open spec fn opcode_x(opcode: u16) -> u8 {
    ((opcode / 256) % 16) as u8
}

/// The instruction's third nibble, `y`.
pub open spec fn opcode_y(opcode: u16) -> u8 {
    ((opcode / 16) % 16) as u8
}

/// The instruction's last nibble, `n`.
pub open spec fn opcode_n(opcode: u16) -> u8 {
    (opcode % 16) as u8
}

/// The instruction's low byte, `nn`.
pub open spec fn opcode_nn(opcode: u16) -> u8 {
    (opcode % 256) as u8
}

/// The instruction's low twelve bits, `nnn`.
pub open spec fn opcode_nnn(opcode: u16) -> u16 {
    opcode % 4096
}

impl CpuState {
    /// Every part has its declared size.
    pub open spec fn wf(self) -> bool {
        &&& self.ram.len() == MEMORY_SIZE
        &&& self.v.len() == 16
        &&& self.keys.len() == KEY_COUNT
        &&& self.stack.len() <= STACK_CAPACITY
        &&& self.frame.len() == CHIP8_HEIGHT
        &&& forall|r: int| 0 <= r < CHIP8_HEIGHT ==> (#[trigger] self.frame[r]).len() == CHIP8_WIDTH
    }

    /// The state with the program counter at `pc`.
    pub open spec fn with_pc(self, pc: u16) -> CpuState {
        CpuState { pc, ..self }
    }

    /// `I = index`.
    pub open spec fn with_index(self, index: u16) -> CpuState {
        CpuState { index, ..self }
    }

    /// `Vx = value`.
    pub open spec fn with_register(self, x: u8, value: u8) -> CpuState {
        CpuState { v: self.v.update(x as int, value), ..self }
    }

    /// Whether the two-byte word at the program counter lies inside memory.
    pub open spec fn can_fetch(self) -> bool {
        self.pc + 1 < MEMORY_SIZE
    }

    /// The word at the program counter, high byte first.
    pub open spec fn word_at_pc(self) -> u16 {
        (self.ram[self.pc as int] * 256 + self.ram[self.pc + 1]) as u16
    }

    /// The state after the word at the program counter has been read.
    pub open spec fn fetched(self) -> CpuState {
        self.with_pc((self.pc + 2) as u16)
    }

    /// Whether key number `key` is held down. A number past the keypad names no key.
    pub open spec fn key_down(self, key: u8) -> bool {
        key < KEY_COUNT && self.keys[key as int]
    }

    /// Whether any key is held down.
    pub open spec fn any_key_down(self) -> bool {
        exists|k: int| 0 <= k < KEY_COUNT && self.keys[k]
    }

    /// The lowest-numbered key that is held down.
    pub open spec fn first_key_down(self) -> int {
        choose|k: int|
            0 <= k < KEY_COUNT && self.keys[k] && forall|j: int| 0 <= j < k ==> !self.keys[j]
    }

    /// All pixels off; nothing else changes.
    pub open spec fn clear_screen(self) -> CpuState {
        CpuState { frame: blank_frame(), ..self }
    }

    /// Continue at `nnn`.
    pub open spec fn jump(self, nnn: u16) -> CpuState {
        self.with_pc(nnn)
    }

    /// Remember the program counter and continue at `nnn`.
    pub open spec fn call(self, nnn: u16) -> CpuState {
        CpuState { pc: nnn, stack: pushed(self.stack, self.pc), ..self }
    }

    /// Continue at the most recently remembered address.
    pub open spec fn ret(self) -> CpuState {
        CpuState { pc: self.stack.last(), stack: popped(self.stack), ..self }
    }

    /// Whether a skip that is `taken` would carry the program counter past
    /// what sixteen bits hold.
    pub open spec fn cannot_skip(self, taken: bool) -> bool {
        taken && self.pc + 2 > u16::MAX
    }

    /// Whether no key is down and no instruction lies two bytes back.
    pub open spec fn cannot_rewind(self) -> bool {
        !self.any_key_down() && self.pc < 2
    }

    /// Whether the `len` bytes from `I` upwards reach past the end of memory.
    pub open spec fn span_out_of_memory(self, len: int) -> bool {
        len > 0 && self.index + len > MEMORY_SIZE
    }

    /// Step over the next instruction when `taken` holds.
    pub open spec fn skip_if(self, taken: bool) -> CpuState {
        if taken {
            self.with_pc((self.pc + 2) as u16)
        } else {
            self
        }
    }

    /// `Vx += nn`, wrapping, flag register untouched.
    pub open spec fn add_immediate(self, x: u8, nn: u8) -> CpuState {
        self.with_register(x, wrapping_sum(self.v[x as int], nn))
    }

    /// `Vx += Vy`, wrapping, with the carry in the flag register.
    pub open spec fn add_registers(self, x: u8, y: u8) -> CpuState {
        let a = self.v[x as int];
        let b = self.v[y as int];
        self.with_register(x, wrapping_sum(a, b)).with_register(FLAG_REGISTER, carry_flag(a, b))
    }

    /// `Vx -= Vy`, wrapping, with 1 in the flag register when nothing was borrowed.
    pub open spec fn subtract_registers(self, x: u8, y: u8) -> CpuState {
        let a = self.v[x as int];
        let b = self.v[y as int];
        self.with_register(x, wrapping_difference(a, b)).with_register(
            FLAG_REGISTER,
            no_borrow_flag(a, b),
        )
    }

    /// `Vx = Vy - Vx`, wrapping, with 1 in the flag register when nothing was borrowed.
    pub open spec fn subtract_reversed(self, x: u8, y: u8) -> CpuState {
        let a = self.v[x as int];
        let b = self.v[y as int];
        self.with_register(x, wrapping_difference(b, a)).with_register(
            FLAG_REGISTER,
            no_borrow_flag(b, a),
        )
    }

    /// The value a shift works on: `Vy` in the legacy dialect, `Vx` in the alternate one.
    pub open spec fn shift_source(self, x: u8, y: u8) -> u8 {
        if self.super_chip {
            self.v[x as int]
        } else {
            self.v[y as int]
        }
    }

    /// `Vx` takes the source shifted right by one, the flag register the bit shifted out.
    pub open spec fn shift_right(self, x: u8, y: u8) -> CpuState {
        let source = self.shift_source(x, y);
        self.with_register(x, source / 2).with_register(FLAG_REGISTER, source % 2)
    }

    /// `Vx` takes the source shifted left by one, the flag register the bit shifted out.
    pub open spec fn shift_left(self, x: u8, y: u8) -> CpuState {
        let source = self.shift_source(x, y);
        self.with_register(x, ((source * 2) % 256) as u8).with_register(
            FLAG_REGISTER,
            source / 128,
        )
    }

    /// Where an indexed jump lands: `nnn` plus `V0` in the legacy dialect,
    /// plus `Vx` in the alternate one, added at sixteen bits.
    pub open spec fn indexed_jump_target(self, x: u8, nnn: u16) -> int {
        if self.super_chip {
            self.v[x as int] + nnn
        } else {
            self.v[0] + nnn
        }
    }

    /// Continue where the indexed jump lands.
    pub open spec fn indexed_jump(self, x: u8, nnn: u16) -> CpuState {
        self.with_pc(self.indexed_jump_target(x, nnn) as u16)
    }

    /// `Vx` takes the byte `random` masked by `nn`.
    pub open spec fn store_random(self, x: u8, nn: u8, random: u8) -> CpuState {
        self.with_register(x, random & nn)
    }

    /// `Vx = delay timer`.
    pub open spec fn read_delay(self, x: u8) -> CpuState {
        self.with_register(x, self.delay_timer)
    }

    /// `delay timer = Vx`.
    pub open spec fn set_delay(self, x: u8) -> CpuState {
        CpuState { delay_timer: self.v[x as int], ..self }
    }

    /// `sound timer = Vx`.
    pub open spec fn set_sound(self, x: u8) -> CpuState {
        CpuState { sound_timer: self.v[x as int], ..self }
    }

    /// `I += Vx` at sixteen bits. A sum above `0x1000` puts 1 in the flag
    /// register; otherwise the flag register keeps its value.
    pub open spec fn add_to_index(self, x: u8) -> CpuState {
        let sum = self.index + self.v[x as int];
        CpuState {
            index: (sum % 0x10000) as u16,
            v: if sum > 0x1000 {
                self.v.update(FLAG_REGISTER as int, 1u8)
            } else {
                self.v
            },
            ..self
        }
    }

    /// With a key down, `Vx` takes the number of the lowest such key. With
    /// none, the program counter goes back to the instruction just read.
    pub open spec fn wait_key(self, x: u8) -> CpuState {
        if self.any_key_down() {
            self.with_register(x, self.first_key_down() as u8)
        } else {
            self.with_pc((self.pc - 2) as u16)
        }
    }

    /// `I` takes the address of the glyph for `Vx`.
    pub open spec fn point_at_glyph(self, x: u8) -> CpuState {
        self.with_index(glyph_address(self.v[x as int]) as u16)
    }

    /// The decimal digits of `Vx` go to memory at `I`, `I + 1` and `I + 2`.
    pub open spec fn store_bcd(self, x: u8) -> CpuState {
        let digits = bcd_digits(self.v[x as int]);
        let at = self.index as int;
        CpuState {
            ram: self.ram.update(at, digits.0).update(at + 1, digits.1).update(at + 2, digits.2),
            ..self
        }
    }

    /// `V0` to `Vx`, `x` included, go to memory from `I` upwards.
    pub open spec fn store_registers(self, x: u8) -> CpuState {
        CpuState {
            ram: Seq::new(
                MEMORY_SIZE as nat,
                |a: int|
                    if self.index <= a <= self.index + x {
                        self.v[a - self.index]
                    } else {
                        self.ram[a]
                    },
            ),
            ..self
        }
    }

    /// `V0` to `Vx`, `x` included, are read from memory from `I` upwards.
    pub open spec fn load_registers(self, x: u8) -> CpuState {
        CpuState {
            v: Seq::new(
                16,
                |i: int|
                    if i <= x {
                        self.ram[self.index + i]
                    } else {
                        self.v[i]
                    },
            ),
            ..self
        }
    }

    /// The horizontal or vertical position a draw starts from. The flag
    /// register is cleared before the position is read, so a draw that names
    /// it as a coordinate starts from 0.
    pub open spec fn draw_origin(self, register: u8) -> int {
        if register == FLAG_REGISTER {
            0
        } else {
            self.v[register as int] as int
        }
    }

    /// Whether a draw of `n` rows at `(Vx, Vy)` puts a set sprite pixel on
    /// the frame buffer's row `r`, column `c`. Positions wrap at the edges.
    pub open spec fn sprite_covers(self, x: u8, y: u8, n: u8, r: int, c: int) -> bool {
        let row = (r - self.draw_origin(y)) % (CHIP8_HEIGHT as int);
        let col = (c - self.draw_origin(x)) % (CHIP8_WIDTH as int);
        row < n && col < 8 && sprite_bit(self.ram[self.index + row], col as u8)
    }

    /// Whether the draw turns off a pixel that was lit.
    pub open spec fn draw_collides(self, x: u8, y: u8, n: u8) -> bool {
        exists|r: int, c: int|
            0 <= r < CHIP8_HEIGHT && 0 <= c < CHIP8_WIDTH && self.sprite_covers(x, y, n, r, c)
                && self.frame[r][c]
    }

    /// Every pixel under a set sprite pixel is flipped; the flag register
    /// takes 1 when a lit pixel was turned off, else 0.
    pub open spec fn draw(self, x: u8, y: u8, n: u8) -> CpuState {
        CpuState {
            frame: Seq::new(
                CHIP8_HEIGHT as nat,
                |r: int|
                    Seq::new(
                        CHIP8_WIDTH as nat,
                        |c: int| self.frame[r][c] != self.sprite_covers(x, y, n, r, c),
                    ),
            ),
            v: self.v.update(
                FLAG_REGISTER as int,
                if self.draw_collides(x, y, n) {
                    1u8
                } else {
                    0u8
                },
            ),
            ..self
        }
    }

    /// Both timers count down by one and stop at zero.
    pub open spec fn tick_timers(self) -> CpuState {
        CpuState {
            delay_timer: if self.delay_timer > 0 {
                (self.delay_timer - 1) as u8
            } else {
                0
            },
            sound_timer: if self.sound_timer > 0 {
                (self.sound_timer - 1) as u8
            } else {
                0
            },
            ..self
        }
    }

    /// The key `key` is recorded as held down or released.
    pub open spec fn with_key(self, key: int, pressed: bool) -> CpuState {
        CpuState { keys: self.keys.update(key, pressed), ..self }
    }

    /// The bytes of `rom` placed in memory from `PROGRAM_START` upwards.
    pub open spec fn with_rom(self, rom: Seq<u8>) -> CpuState {
        CpuState {
            ram: Seq::new(
                MEMORY_SIZE as nat,
                |a: int|
                    if PROGRAM_START <= a < PROGRAM_START + rom.len() {
                        rom[a - PROGRAM_START]
                    } else {
                        self.ram[a]
                    },
            ),
            ..self
        }
    }

    /// Reading the instruction at the program counter: the word and the
    /// state with the program counter past it, or a refusal where the word
    /// does not lie inside memory.
    pub open spec fn try_fetch(self) -> (Result<u16, CpuError>, CpuState) {
        if self.can_fetch() {
            (Ok(self.word_at_pc()), self.fetched())
        } else {
            (Err(CpuError::PcOutOfBounds), self)
        }
    }

    /// Loading a program image, refused where it is larger than `MAX_ROM_SIZE`.
    pub open spec fn try_load_rom(self, rom: Seq<u8>) -> Outcome {
        if rom.len() > MAX_ROM_SIZE {
            refused(self, CpuError::RomTooLarge)
        } else {
            carried_out(self.with_rom(rom))
        }
    }

    /// A call, refused where the call stack is full.
    pub open spec fn try_call(self, nnn: u16) -> Outcome {
        if self.stack.len() >= STACK_CAPACITY {
            refused(self, CpuError::StackOverflow)
        } else {
            carried_out(self.call(nnn))
        }
    }

    /// A return, refused where the call stack is empty.
    pub open spec fn try_ret(self) -> Outcome {
        if self.stack.len() == 0 {
            refused(self, CpuError::StackUnderflow)
        } else {
            carried_out(self.ret())
        }
    }

    /// A conditional skip, refused where it is taken and the program counter
    /// has no room to move on.
    pub open spec fn try_skip(self, taken: bool) -> Outcome {
        if self.cannot_skip(taken) {
            refused(self, CpuError::PcOutOfBounds)
        } else {
            carried_out(self.skip_if(taken))
        }
    }

    /// A wait for a key, refused where no key is down and the program
    /// counter cannot go back.
    pub open spec fn try_wait_key(self, x: u8) -> Outcome {
        if self.cannot_rewind() {
            refused(self, CpuError::PcOutOfBounds)
        } else {
            carried_out(self.wait_key(x))
        }
    }

    /// Storing decimal digits, refused where the three bytes at `I` do not
    /// all lie inside memory.
    pub open spec fn try_store_bcd(self, x: u8) -> Outcome {
        if self.span_out_of_memory(3) {
            refused(self, CpuError::MemoryOutOfBounds)
        } else {
            carried_out(self.store_bcd(x))
        }
    }

    /// Storing `V0` to `Vx`, refused where the `x + 1` bytes at `I` do not
    /// all lie inside memory.
    pub open spec fn try_store_registers(self, x: u8) -> Outcome {
        if self.span_out_of_memory(x + 1) {
            refused(self, CpuError::MemoryOutOfBounds)
        } else {
            carried_out(self.store_registers(x))
        }
    }

    /// Loading `V0` to `Vx`, refused where the `x + 1` bytes at `I` do not
    /// all lie inside memory.
    pub open spec fn try_load_registers(self, x: u8) -> Outcome {
        if self.span_out_of_memory(x + 1) {
            refused(self, CpuError::MemoryOutOfBounds)
        } else {
            carried_out(self.load_registers(x))
        }
    }

    /// A draw, refused where the sprite's `n` rows at `I` do not all lie
    /// inside memory.
    pub open spec fn try_draw(self, x: u8, y: u8, n: u8) -> Outcome {
        if self.span_out_of_memory(n as int) {
            refused(self, CpuError::MemoryOutOfBounds)
        } else {
            carried_out(self.draw(x, y, n))
        }
    }

    /// What carrying out the instruction `opcode` comes to. The first nibble
    /// selects the family, the others the instruction within it and its
    /// operands. `random` is the byte drawn for `CXNN`; no other instruction
    /// looks at it. A word that is no instruction changes nothing.
    pub open spec fn execute(self, opcode: u16, random: u8) -> Outcome {
        let family = opcode_family(opcode);
        let x = opcode_x(opcode);
        let y = opcode_y(opcode);
        let n = opcode_n(opcode);
        let nn = opcode_nn(opcode);
        let nnn = opcode_nnn(opcode);
        let vx = self.v[x as int];
        let vy = self.v[y as int];
        if opcode == 0x00E0 {
            carried_out(self.clear_screen())
        } else if opcode == 0x00EE {
            self.try_ret()
        } else if family == 0x1 {
            carried_out(self.jump(nnn))
        } else if family == 0x2 {
            self.try_call(nnn)
        } else if family == 0x3 {
            self.try_skip(vx == nn)
        } else if family == 0x4 {
            self.try_skip(vx != nn)
        } else if family == 0x5 && n == 0 {
            self.try_skip(vx == vy)
        } else if family == 0x6 {
            carried_out(self.with_register(x, nn))
        } else if family == 0x7 {
            carried_out(self.add_immediate(x, nn))
        } else if family == 0x8 && n == 0x0 {
            carried_out(self.with_register(x, vy))
        } else if family == 0x8 && n == 0x1 {
            carried_out(self.with_register(x, vx | vy))
        } else if family == 0x8 && n == 0x2 {
            carried_out(self.with_register(x, vx & vy))
        } else if family == 0x8 && n == 0x3 {
            carried_out(self.with_register(x, vx ^ vy))
        } else if family == 0x8 && n == 0x4 {
            carried_out(self.add_registers(x, y))
        } else if family == 0x8 && n == 0x5 {
            carried_out(self.subtract_registers(x, y))
        } else if family == 0x8 && n == 0x6 {
            carried_out(self.shift_right(x, y))
        } else if family == 0x8 && n == 0x7 {
            carried_out(self.subtract_reversed(x, y))
        } else if family == 0x8 && n == 0xE {
            carried_out(self.shift_left(x, y))
        } else if family == 0x9 && n == 0 {
            self.try_skip(vx != vy)
        } else if family == 0xA {
            carried_out(self.with_index(nnn))
        } else if family == 0xB {
            carried_out(self.indexed_jump(x, nnn))
        } else if family == 0xC {
            carried_out(self.store_random(x, nn, random))
        } else if family == 0xD {
            self.try_draw(x, y, n)
        } else if family == 0xE && nn == 0x9E {
            self.try_skip(self.key_down(vx))
        } else if family == 0xE && nn == 0xA1 {
            self.try_skip(!self.key_down(vx))
        } else if family == 0xF && nn == 0x07 {
            carried_out(self.read_delay(x))
        } else if family == 0xF && nn == 0x0A {
            self.try_wait_key(x)
        } else if family == 0xF && nn == 0x15 {
            carried_out(self.set_delay(x))
        } else if family == 0xF && nn == 0x18 {
            carried_out(self.set_sound(x))
        } else if family == 0xF && nn == 0x1E {
            carried_out(self.add_to_index(x))
        } else if family == 0xF && nn == 0x29 {
            carried_out(self.point_at_glyph(x))
        } else if family == 0xF && nn == 0x33 {
            self.try_store_bcd(x)
        } else if family == 0xF && nn == 0x55 {
            self.try_store_registers(x)
        } else if family == 0xF && nn == 0x65 {
            self.try_load_registers(x)
        } else {
            carried_out(self)
        }
    }

    /// What one cycle comes to: the instruction at the program counter is
    /// read and carried out. Where it cannot be read, nothing changes; where
    /// it cannot be carried out, the program counter is left past it.
    pub open spec fn run_cycle(self, random: u8) -> Outcome {
        if self.can_fetch() {
            self.fetched().execute(self.word_at_pc(), random)
        } else {
            refused(self, CpuError::PcOutOfBounds)
        }
    }
}

/// A draw reads the sprite and its position from what it does not change,
/// so a second draw of the same sprite covers the same pixels as the first.
pub proof fn lemma_draw_keeps_sprite(s: CpuState, x: u8, y: u8, n: u8, r: int, c: int)
    requires
        s.wf(),
        x < 16,
        y < 16,
    ensures
        s.draw(x, y, n).sprite_covers(x, y, n, r, c) == s.sprite_covers(x, y, n, r, c),
{
}

/// Drawing a sprite twice at the same place gives back the frame buffer
/// there was before the first draw. The second draw ends with the flag
/// register at 1 exactly when a set sprite pixel lies on a pixel that was
/// dark before the first draw; otherwise it ends with 0.
pub proof fn lemma_draw_twice(s: CpuState, x: u8, y: u8, n: u8)
    requires
        s.wf(),
        x < 16,
        y < 16,
    ensures
        s.draw(x, y, n).draw(x, y, n).frame == s.frame,
        s.draw(x, y, n).draw(x, y, n).v[FLAG_REGISTER as int] <= 1,
        s.draw(x, y, n).draw(x, y, n).v[FLAG_REGISTER as int] == 1 <==> exists|r: int, c: int|
            0 <= r < CHIP8_HEIGHT && 0 <= c < CHIP8_WIDTH && s.sprite_covers(x, y, n, r, c)
                && !s.frame[r][c],
{
    let once = s.draw(x, y, n);
    let twice = once.draw(x, y, n);
    assert forall|r: int, c: int|
        once.sprite_covers(x, y, n, r, c) == s.sprite_covers(x, y, n, r, c) by {
        lemma_draw_keeps_sprite(s, x, y, n, r, c);
    }
    assert(twice.frame =~~= s.frame);
    if once.draw_collides(x, y, n) {
        let (r, c) = choose|r: int, c: int|
            0 <= r < CHIP8_HEIGHT && 0 <= c < CHIP8_WIDTH && once.sprite_covers(x, y, n, r, c)
                && once.frame[r][c];
        assert(s.sprite_covers(x, y, n, r, c) && !s.frame[r][c]);
    }
    if exists|r: int, c: int|
        0 <= r < CHIP8_HEIGHT && 0 <= c < CHIP8_WIDTH && s.sprite_covers(x, y, n, r, c)
            && !s.frame[r][c] {
        let (r, c) = choose|r: int, c: int|
            0 <= r < CHIP8_HEIGHT && 0 <= c < CHIP8_WIDTH && s.sprite_covers(x, y, n, r, c)
                && !s.frame[r][c];
        assert(once.sprite_covers(x, y, n, r, c) && once.frame[r][c]);
    }
}

/// A return undoes a call: it continues at the address the call came from
/// and leaves the call stack as it was before the call.
pub proof fn lemma_call_then_ret(s: CpuState, nnn: u16)
    ensures
        s.call(nnn).ret() == s,
{
    assert(s.call(nnn).ret().stack =~= s.stack);
}

/// The same state under the other dialect.
pub open spec fn other_dialect(s: CpuState) -> CpuState {
    CpuState { super_chip: !s.super_chip, ..s }
}

/// The two dialects part on a shift exactly where `Vx` and `Vy` differ:
/// with `x` not the flag register, the registers after a shift are the same
/// under both dialects if and only if `Vx == Vy`.
pub proof fn lemma_dialects_part_on_shift(s: CpuState, x: u8, y: u8)
    requires
        s.wf(),
        x < 16,
        y < 16,
        x != FLAG_REGISTER,
    ensures
        s.shift_right(x, y).v == other_dialect(s).shift_right(x, y).v <==> s.v[x as int]
            == s.v[y as int],
        s.shift_left(x, y).v == other_dialect(s).shift_left(x, y).v <==> s.v[x as int]
            == s.v[y as int],
{
    let a = s.shift_source(x, y);
    let b = other_dialect(s).shift_source(x, y);
    assert(a == b <==> s.v[x as int] == s.v[y as int]);
    assert(a == b <==> a / 2 == b / 2 && a % 2 == b % 2);
    assert(a == b <==> (a * 2) % 256 == (b * 2) % 256 && a / 128 == b / 128);
    let right = s.shift_right(x, y).v;
    let other_right = other_dialect(s).shift_right(x, y).v;
    assert(right[x as int] == a / 2 && right[FLAG_REGISTER as int] == a % 2);
    assert(other_right[x as int] == b / 2 && other_right[FLAG_REGISTER as int] == b % 2);
    let left = s.shift_left(x, y).v;
    let other_left = other_dialect(s).shift_left(x, y).v;
    assert(left[x as int] == (a * 2) % 256 && left[FLAG_REGISTER as int] == a / 128);
    assert(other_left[x as int] == (b * 2) % 256 && other_left[FLAG_REGISTER as int] == b / 128);
    if a == b {
        assert(right =~= other_right);
        assert(left =~= other_left);
    }
}

/// The two dialects part on an indexed jump exactly where `V0` and `Vx`
/// differ: the jump lands at the same address under both if and only if
/// `V0 == Vx`.
pub proof fn lemma_dialects_part_on_indexed_jump(s: CpuState, x: u8, nnn: u16)
    requires
        s.wf(),
        x < 16,
        nnn <= 0x0FFF,
    ensures
        s.indexed_jump(x, nnn).pc == other_dialect(s).indexed_jump(x, nnn).pc <==> s.v[0]
            == s.v[x as int],
        s.indexed_jump(x, nnn).pc == s.indexed_jump_target(x, nnn),
{
}

/// No instruction takes the state out of its declared sizes; in particular
/// the call stack never grows past its capacity.
pub proof fn lemma_execute_keeps_wf(s: CpuState, opcode: u16, random: u8)
    requires
        s.wf(),
    ensures
        s.execute(opcode, random).1.wf(),
{
    let x = opcode_x(opcode);
    let y = opcode_y(opcode);
    let n = opcode_n(opcode);
    assert(s.clear_screen().wf());
    assert(s.draw(x, y, n).wf());
    assert(s.store_registers(x).wf());
    assert(s.load_registers(x).wf());
}

/// The interpreter only reads the keypad, and the dialect is fixed when the
/// machine is made: no instruction changes either.
pub proof fn lemma_execute_keeps_keys_and_dialect(s: CpuState, opcode: u16, random: u8)
    ensures
        s.execute(opcode, random).1.keys == s.keys,
        s.execute(opcode, random).1.super_chip == s.super_chip,
{
}

/// Only clearing the screen and drawing change the frame buffer.
pub proof fn lemma_execute_keeps_frame(s: CpuState, opcode: u16, random: u8)
    requires
        opcode != 0x00E0,
        opcode_family(opcode) != 0xD,
    ensures
        s.execute(opcode, random).1.frame == s.frame,
{
}

/// No instruction counts a timer down: the timers change only where a
/// program sets them, and otherwise wait for the tick.
pub proof fn lemma_execute_keeps_timers(s: CpuState, opcode: u16, random: u8)
    requires
        !(opcode_family(opcode) == 0xF && opcode_nn(opcode) == 0x15),
        !(opcode_family(opcode) == 0xF && opcode_nn(opcode) == 0x18),
    ensures
        s.execute(opcode, random).1.delay_timer == s.delay_timer,
        s.execute(opcode, random).1.sound_timer == s.sound_timer,
{
}

/// An instruction that is refused changes nothing.
pub proof fn lemma_refused_changes_nothing(s: CpuState, opcode: u16, random: u8)
    requires
        s.execute(opcode, random).0 is Err,
    ensures
        s.execute(opcode, random).1 == s,
{
}

} // verus!
