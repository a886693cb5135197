//! The executable machine.

use vstd::prelude::*;
use crate::model;
use crate::model::{
    Fault, Machine, FONT_SET_SIZE, FONT_SET_START_ADDRESS, MEMORY_SIZE, PIXEL_OFF, PIXEL_ON,
    START_ADDRESS, VIDEO_HEIGHT, VIDEO_SIZE, VIDEO_WIDTH,
};

verus! {

/// The machine: memory, registers, stack, timers, keys and screen.
#[derive(Debug)]
pub struct Chip {
    pub memory: [u8; 4096],
    pub registers: [u8; 16],
    pub index: u16,
    pub pc: u16,
    pub sp: u8,
    pub stack: [u16; 16],
    pub delay_timer: u8,
    pub sound_timer: u8,
    pub keypad: [bool; 16],
    pub video: [u32; 2048],
    pub opcode: u16,
}

impl View for Chip {
    type V = Machine;

    open spec fn view(&self) -> Machine {
        Machine {
            memory: self.memory@,
            registers: self.registers@,
            index: self.index,
            pc: self.pc,
            sp: self.sp,
            stack: self.stack@,
            delay_timer: self.delay_timer,
            sound_timer: self.sound_timer,
            keypad: self.keypad@,
            video: self.video@,
            opcode: self.opcode,
        }
    }
}

impl Chip {
    /// At most sixteen live frames, and every pixel dark or lit.
    pub open spec fn wf(&self) -> bool {
        self@.wf()
    }

    /// Whether the machine has the shape that every operation asks for and
    /// keeps. A host that writes to the fields can test it before a step.
    pub fn is_valid(&self) -> (valid: bool)
        ensures
            valid == self.wf(),
    {
        if self.sp > 16 {
            return false;
        }
        let mut i: usize = 0;
        while i < VIDEO_SIZE
            invariant
                i <= 2048,
                forall|j: int|
                    0 <= j < i ==> #[trigger] self.video@[j] == PIXEL_OFF || self.video@[j]
                        == PIXEL_ON,
            decreases 2048 - i,
        {
            if self.video[i] != PIXEL_OFF && self.video[i] != PIXEL_ON {
                return false;
            }
            i += 1;
        }
        true
    }

    /// A machine ready for a program: the glyphs in memory, the program
    /// counter at the start address, everything else zero.
    pub fn new() -> (chip: Chip)
        ensures
            chip.wf(),
            chip@ == model::initial(),
    {
        let font_set: [u8; 80] = [
            0xF0, 0x90, 0x90, 0x90, 0xF0,
            0x20, 0x60, 0x20, 0x20, 0x70,
            0xF0, 0x10, 0xF0, 0x80, 0xF0,
            0xF0, 0x10, 0xF0, 0x10, 0xF0,
            0x90, 0x90, 0xF0, 0x10, 0x10,
            0xF0, 0x80, 0xF0, 0x10, 0xF0,
            0xF0, 0x80, 0xF0, 0x90, 0xF0,
            0xF0, 0x10, 0x20, 0x40, 0x40,
            0xF0, 0x90, 0xF0, 0x90, 0xF0,
            0xF0, 0x90, 0xF0, 0x10, 0xF0,
            0xF0, 0x90, 0xF0, 0x90, 0x90,
            0xE0, 0x90, 0xE0, 0x90, 0xE0,
            0xF0, 0x80, 0x80, 0x80, 0xF0,
            0xE0, 0x90, 0x90, 0x90, 0xE0,
            0xF0, 0x80, 0xF0, 0x80, 0xF0,
            0xF0, 0x80, 0xF0, 0x80, 0x80,
        ];
        assert(font_set@ =~= model::font_set());
        let mut chip = Chip {
            registers: [0; 16],
            memory: [0; 4096],
            index: 0,
            pc: START_ADDRESS,
            sp: 0,
            stack: [0; 16],
            delay_timer: 0,
            sound_timer: 0,
            keypad: [false; 16],
            video: [PIXEL_OFF; 2048],
            opcode: 0,
        };
        let ghost blank = chip@;
        let mut i: usize = 0;
        while i < FONT_SET_SIZE
            invariant
                i <= 80,
                font_set@ == model::font_set(),
                chip@ == (Machine { memory: chip.memory@, ..blank }),
                forall|a: int|
                    0 <= a < 4096 ==> #[trigger] chip.memory@[a] == if 0x50 <= a < 0x50 + i {
                        font_set@[a - 0x50]
                    } else {
                        0u8
                    },
            decreases 80 - i,
        {
            chip.memory[FONT_SET_START_ADDRESS as usize + i] = font_set[i];
            i += 1;
        }
        proof {
            let s = model::initial();
            assert(chip@.memory =~= s.memory);
            assert(chip@.registers =~= s.registers);
            assert(chip@.stack =~= s.stack);
            assert(chip@.keypad =~= s.keypad);
            assert(chip@.video =~= s.video);
        }
        chip
    }

    /// Copies a program to the start address. One that does not fit between
    /// there and the end of memory is refused, and nothing is written.
    pub fn load_rom(&mut self, contents: &[u8]) -> (r: Result<(), Fault>)
        requires
            old(self).wf(),
        ensures
            final(self).wf(),
            model::agrees(model::with_rom(old(self)@, contents@), old(self)@, r, final(self)@),
    {
        let len = contents.len();
        if len > MEMORY_SIZE - START_ADDRESS as usize {
            return Err(Fault::RomTooLarge);
        }
        let mut i: usize = 0;
        while i < len
            invariant
                i <= len,
                len == contents@.len(),
                len <= 4096 - 0x200,
                self.wf(),
                self@ == (Machine { memory: self.memory@, ..old(self)@ }),
                forall|a: int|
                    0 <= a < 4096 ==> #[trigger] self.memory@[a] == if 0x200 <= a < 0x200 + i {
                        contents@[a - 0x200]
                    } else {
                        old(self).memory@[a]
                    },
            decreases len - i,
        {
            self.memory[START_ADDRESS as usize + i] = contents[i];
            i += 1;
        }
        assert(self.memory@ =~= model::with_rom(old(self)@, contents@).unwrap().memory);
        Ok(())
    }

    /// One step: fetches the instruction word at the program counter, moves
    /// the program counter past it, carries the instruction out and lowers
    /// both timers that are above zero. The step is whole or not at all: on a
    /// fault the machine is as it was before. For Cxkk some byte is drawn;
    /// for every other instruction the byte plays no part.
    pub fn cycle(&mut self) -> (r: Result<(), Fault>)
        requires
            old(self).wf(),
        ensures
            final(self).wf(),
            exists|random: u8|
                model::agrees(
                    #[trigger] model::step(old(self)@, random),
                    old(self)@,
                    r,
                    final(self)@,
                ),
            model::op_family(model::word_at(old(self)@, old(self).pc as int)) != 0xC ==> forall|
                random: u8,
            |
                model::agrees(
                    #[trigger] model::step(old(self)@, random),
                    old(self)@,
                    r,
                    final(self)@,
                ),
    {
        let pc = self.pc;
        let latched = self.opcode;
        if pc as usize + 1 >= MEMORY_SIZE {
            assert(model::agrees(
                model::step(old(self)@, 0u8),
                old(self)@,
                Err(Fault::AddressOutOfRange),
                self@,
            ));
            return Err(Fault::AddressOutOfRange);
        }
        let hi_byte = self.memory[pc as usize];
        let lo_byte = self.memory[pc as usize + 1];
        let opcode = (hi_byte as u16) << 8 | lo_byte as u16;
        assert(opcode == hi_byte as u16 * 256 + lo_byte as u16) by (bit_vector)
            requires
                opcode == (hi_byte as u16) << 8 | lo_byte as u16,
        ;
        self.opcode = opcode;
        self.pc = pc + 2;
        assert(self@ == model::fetched(old(self)@));
        let r = self.execute();
        let ghost random = choose|random: u8|
            model::agrees(
                #[trigger] model::execute(model::fetched(old(self)@), random),
                model::fetched(old(self)@),
                r,
                self@,
            );
        match r {
            Ok(()) => {
                if self.delay_timer > 0 {
                    self.delay_timer -= 1;
                }
                if self.sound_timer > 0 {
                    self.sound_timer -= 1;
                }
                assert(model::agrees(model::step(old(self)@, random), old(self)@, r, self@));
            },
            Err(_) => {
                self.pc = pc;
                self.opcode = latched;
                assert(model::agrees(model::step(old(self)@, random), old(self)@, r, self@));
            },
        }
        r
    }

    /// Carries out the latched instruction.
    fn execute(&mut self) -> (r: Result<(), Fault>)
        requires
            old(self).wf(),
            2 <= old(self).pc <= 4097,
        ensures
            final(self).wf(),
            exists|random: u8|
                model::agrees(
                    #[trigger] model::execute(old(self)@, random),
                    old(self)@,
                    r,
                    final(self)@,
                ),
    {
        let family = (self.opcode & 0xF000) >> 12;
        let low = self.opcode & 0x000F;
        let low_byte = self.opcode & 0x00FF;
        proof {
            let opcode = self.opcode;
            assert(family == opcode / 4096 && low == opcode % 16 && low_byte == opcode % 256)
                by (bit_vector)
                requires
                    family == (opcode & 0xF000) >> 12,
                    low == opcode & 0x000F,
                    low_byte == opcode & 0x00FF,
            ;
        }
        let ghost mut random = 0u8;
        let unknown = Err(Fault::UnknownOpcode { opcode: self.opcode, pc: self.pc - 2 });
        let mut r = Ok(());
        match family {
            0x0 => match low {
                0x0 => self.op_00e0(),
                0xE => r = self.op_00ee(),
                _ => r = unknown,
            },
            0x1 => self.op_1nnn(),
            0x2 => r = self.op_2nnn(),
            0x3 => self.op_3xkk(),
            0x4 => self.op_4xkk(),
            0x5 => self.op_5xy0(),
            0x6 => self.op_6xkk(),
            0x7 => self.op_7xkk(),
            0x8 => match low {
                0x0 => self.op_8xy0(),
                0x1 => self.op_8xy1(),
                0x2 => self.op_8xy2(),
                0x3 => self.op_8xy3(),
                0x4 => self.op_8xy4(),
                0x5 => self.op_8xy5(),
                0x6 => self.op_8xy6(),
                0x7 => self.op_8xy7(),
                0xE => self.op_8xye(),
                _ => r = unknown,
            },
            0x9 => self.op_9xy0(),
            0xA => self.op_annn(),
            0xB => self.op_bnnn(),
            0xC => {
                self.op_cxnn();
                proof {
                    random = choose|b: u8| self@ == #[trigger] model::random_masked(old(self)@, b);
                }
            },
            0xD => r = self.op_dxyn(),
            _ => match low_byte {
                0xA1 => r = self.op_exa1(),
                0x9E => r = self.op_ex9e(),
                0x07 => self.op_fx07(),
                0x0A => self.op_fx0a(),
                0x15 => self.op_fx15(),
                0x18 => self.op_fx18(),
                0x1E => self.op_fx1e(),
                0x29 => self.op_fx29(),
                0x33 => r = self.op_fx33(),
                0x55 => r = self.op_fx55(),
                0x65 => r = self.op_fx65(),
                _ => r = unknown,
            },
        }
        assert(model::agrees(model::execute(old(self)@, random), old(self)@, r, self@));
        r
    }

    /// Dxyn: draws the sprite of `n` rows at the index register at the
    /// column in register `x` and the row in register `y`, wrapping at the
    /// screen's edges. Each set sprite bit toggles its pixel; register F
    /// tells whether a lit pixel went dark. A sprite that runs past the end
    /// of memory is a fault, and nothing is drawn.
    pub fn op_dxyn(&mut self) -> (r: Result<(), Fault>)
        requires
            old(self).wf(),
        ensures
            final(self).wf(),
            model::agrees(model::draw(old(self)@), old(self)@, r, final(self)@),
    {
        let x = reg_x(self.opcode);
        let y = reg_y(self.opcode);
        let height = imm_n(self.opcode) as usize;
        let at = self.index as usize;
        if at + height > MEMORY_SIZE {
            return Err(Fault::AddressOutOfRange);
        }
        let x_pos = (self.registers[x] % VIDEO_WIDTH) as usize;
        let y_pos = (self.registers[y] % VIDEO_HEIGHT) as usize;
        self.registers[0xF] = 0;
        let ghost s = old(self)@;
        let mut row: usize = 0;
        while row < height
            invariant
                row <= height <= 15,
                x_pos < 64,
                y_pos < 32,
                at == s.index,
                at + height <= 4096,
                s == old(self)@,
                s.wf(),
                self.wf(),
                self@ == (Machine { video: self.video@, registers: self.registers@, ..s }),
                self.registers@ == s.registers.update(
                    15,
                    model::flag(model::collides_before(s, x_pos as int, y_pos as int, row as int, 0)),
                ),
                forall|i: int|
                    0 <= i < 2048 ==> #[trigger] self.video@[i] == if model::sprite_hits_before(
                        s,
                        x_pos as int,
                        y_pos as int,
                        row as int,
                        0,
                        i,
                    ) {
                        model::toggle(s.video[i])
                    } else {
                        s.video[i]
                    },
            decreases height - row,
        {
            let sprite_byte = self.memory[at + row];
            let mut col: usize = 0;
            while col < 8
                invariant
                    col <= 8,
                    row < height <= 15,
                    x_pos < 64,
                    y_pos < 32,
                    at == s.index,
                    at + height <= 4096,
                    s.wf(),
                    self.wf(),
                    sprite_byte == s.memory[at + row],
                    self@ == (Machine { video: self.video@, registers: self.registers@, ..s }),
                    self.registers@ == s.registers.update(
                        15,
                        model::flag(
                            model::collides_before(s, x_pos as int, y_pos as int, row as int, col as int),
                        ),
                    ),
                    forall|i: int|
                        0 <= i < 2048 ==> #[trigger] self.video@[i] == if model::sprite_hits_before(
                            s,
                            x_pos as int,
                            y_pos as int,
                            row as int,
                            col as int,
                            i,
                        ) {
                            model::toggle(s.video[i])
                        } else {
                            s.video[i]
                        },
                decreases 8 - col,
            {
                let target = ((y_pos + row) % 32) * 64 + (x_pos + col) % 64;
                proof {
                    model::lemma_next_column(s, x_pos as int, y_pos as int, row as int, col as int);
                }
                if bit_is_set(sprite_byte, col as u8) {
                    let pixel = self.video[target];
                    if pixel == PIXEL_ON {
                        self.registers[0xF] = 1;
                    }
                    let toggled = pixel ^ PIXEL_ON;
                    assert(toggled == model::toggle(pixel)) by (bit_vector)
                        requires
                            toggled == pixel ^ 0xFFFF_FFFFu32,
                            pixel == 0u32 || pixel == 0xFFFF_FFFFu32,
                    ;
                    self.video[target] = toggled;
                }
                col += 1;
            }
            proof {
                model::lemma_next_row(s, x_pos as int, y_pos as int, row as int);
            }
            row += 1;
        }
        assert(self.video@ =~= model::drawn_video(s, x_pos as int, y_pos as int, height as int));
        Ok(())
    }

    /// 00E0: clears the screen.
    pub fn op_00e0(&mut self)
        requires
            old(self).wf(),
        ensures
            final(self).wf(),
            final(self)@ == model::clear_screen(old(self)@),
    {
        self.video = [PIXEL_OFF; 2048];
        assert(self.video@ =~= model::clear_screen(old(self)@).video);
    }

    /// 1nnn: jumps to `nnn`.
    pub fn op_1nnn(&mut self)
        requires
            old(self).wf(),
        ensures
            final(self).wf(),
            final(self)@ == model::jump(old(self)@),
    {
        let address = imm_nnn(self.opcode);
        self.pc = address;
    }

    /// 3xkk: skips the next instruction where register `x` equals `kk`.
    pub fn op_3xkk(&mut self)
        requires
            old(self).wf(),
            old(self).pc <= 0xFFFD,
        ensures
            final(self).wf(),
            final(self)@ == model::skip_eq_imm(old(self)@),
    {
        let x = reg_x(self.opcode);
        let byte = imm_kk(self.opcode);
        if self.registers[x] == byte {
            self.pc += 2;
        }
    }

    /// 4xkk: skips the next instruction where register `x` differs from `kk`.
    pub fn op_4xkk(&mut self)
        requires
            old(self).wf(),
            old(self).pc <= 0xFFFD,
        ensures
            final(self).wf(),
            final(self)@ == model::skip_ne_imm(old(self)@),
    {
        let x = reg_x(self.opcode);
        let byte = imm_kk(self.opcode);
        if self.registers[x] != byte {
            self.pc += 2;
        }
    }

    /// 5xy0: skips the next instruction where registers `x` and `y` are equal.
    pub fn op_5xy0(&mut self)
        requires
            old(self).wf(),
            old(self).pc <= 0xFFFD,
        ensures
            final(self).wf(),
            final(self)@ == model::skip_eq_reg(old(self)@),
    {
        let x = reg_x(self.opcode);
        let y = reg_y(self.opcode);
        if self.registers[x] == self.registers[y] {
            self.pc += 2;
        }
    }

    /// 7xkk: adds `kk` to register `x`, wrapping at eight bits.
    pub fn op_7xkk(&mut self)
        requires
            old(self).wf(),
        ensures
            final(self).wf(),
            final(self)@ == model::add_imm(old(self)@),
    {
        let x = reg_x(self.opcode);
        let byte = imm_kk(self.opcode);
        let sum: u16 = self.registers[x] as u16 + byte as u16;
        self.registers[x] = (sum % 256) as u8;
    }

    /// 8xy0: copies register `y` to register `x`.
    pub fn op_8xy0(&mut self)
        requires
            old(self).wf(),
        ensures
            final(self).wf(),
            final(self)@ == model::copy_reg(old(self)@),
    {
        let x = reg_x(self.opcode);
        let y = reg_y(self.opcode);
        self.registers[x] = self.registers[y];
    }

    /// 8xy1: ors register `y` into register `x`.
    pub fn op_8xy1(&mut self)
        requires
            old(self).wf(),
        ensures
            final(self).wf(),
            final(self)@ == model::or_reg(old(self)@),
    {
        let x = reg_x(self.opcode);
        let y = reg_y(self.opcode);
        self.registers[x] = self.registers[x] | self.registers[y];
    }

    /// 8xy2: ands register `y` into register `x`.
    pub fn op_8xy2(&mut self)
        requires
            old(self).wf(),
        ensures
            final(self).wf(),
            final(self)@ == model::and_reg(old(self)@),
    {
        let x = reg_x(self.opcode);
        let y = reg_y(self.opcode);
        self.registers[x] = self.registers[x] & self.registers[y];
    }

    /// 8xy3: exclusive-ors register `y` into register `x`.
    pub fn op_8xy3(&mut self)
        requires
            old(self).wf(),
        ensures
            final(self).wf(),
            final(self)@ == model::xor_reg(old(self)@),
    {
        let x = reg_x(self.opcode);
        let y = reg_y(self.opcode);
        self.registers[x] = self.registers[x] ^ self.registers[y];
    }

    /// 8xy4: adds register `y` to register `x`; register F takes the carry first.
    pub fn op_8xy4(&mut self)
        requires
            old(self).wf(),
        ensures
            final(self).wf(),
            final(self)@ == model::add_carry(old(self)@),
    {
        let x = reg_x(self.opcode);
        let y = reg_y(self.opcode);
        let sum: u16 = self.registers[x] as u16 + self.registers[y] as u16;
        if sum > 255 {
            self.registers[0xF] = 1;
        } else {
            self.registers[0xF] = 0;
        }
        self.registers[x] = (sum % 256) as u8;
    }

    /// 8xy5: register F becomes 1 where register `x` is above register `y`, else 0; then
    /// register `y` is subtracted from register `x`, wrapping at eight bits.
    pub fn op_8xy5(&mut self)
        requires
            old(self).wf(),
        ensures
            final(self).wf(),
            final(self)@ == model::sub_borrow(old(self)@),
    {
        let x = reg_x(self.opcode);
        let y = reg_y(self.opcode);
        if self.registers[x] > self.registers[y] {
            self.registers[0xF] = 1;
        } else {
            self.registers[0xF] = 0;
        }
        let difference: u16 = (256 + self.registers[x] as u16 - self.registers[y] as u16) % 256;
        self.registers[x] = difference as u8;
    }

    /// 8xy6: register F becomes the lowest bit of register `x`; then register `x` is
    /// shifted right by one.
    pub fn op_8xy6(&mut self)
        requires
            old(self).wf(),
        ensures
            final(self).wf(),
            final(self)@ == model::shift_right(old(self)@),
    {
        let x = reg_x(self.opcode);
        let value = self.registers[x];
        let low = value & 0x1;
        assert(low == value % 2) by (bit_vector)
            requires
                low == value & 0x1,
        ;
        self.registers[0xF] = low;
        let value = self.registers[x];
        let half = value >> 1;
        assert(half == value / 2) by (bit_vector)
            requires
                half == value >> 1,
        ;
        self.registers[x] = half;
    }

    /// 8xy7: register F becomes 1 where register `y` is above register `x`, else 0; then
    /// register `x` becomes register `y` minus itself, wrapping at eight bits.
    pub fn op_8xy7(&mut self)
        requires
            old(self).wf(),
        ensures
            final(self).wf(),
            final(self)@ == model::sub_reverse(old(self)@),
    {
        let x = reg_x(self.opcode);
        let y = reg_y(self.opcode);
        if self.registers[y] > self.registers[x] {
            self.registers[0xF] = 1;
        } else {
            self.registers[0xF] = 0;
        }
        let difference: u16 = (256 + self.registers[y] as u16 - self.registers[x] as u16) % 256;
        self.registers[x] = difference as u8;
    }

    /// 8xyE: register F becomes the highest bit of register `x`; then register `x` is
    /// shifted left by one, the top bit dropped.
    pub fn op_8xye(&mut self)
        requires
            old(self).wf(),
        ensures
            final(self).wf(),
            final(self)@ == model::shift_left(old(self)@),
    {
        let x = reg_x(self.opcode);
        let value = self.registers[x];
        let high = (value & 0x80) >> 7;
        assert(high == value / 128) by (bit_vector)
            requires
                high == (value & 0x80) >> 7,
        ;
        self.registers[0xF] = high;
        let value = self.registers[x];
        let doubled: u16 = (value as u16 * 2) % 256;
        self.registers[x] = doubled as u8;
    }

    /// 9xy0: skips the next instruction where registers `x` and `y` differ.
    pub fn op_9xy0(&mut self)
        requires
            old(self).wf(),
            old(self).pc <= 0xFFFD,
        ensures
            final(self).wf(),
            final(self)@ == model::skip_ne_reg(old(self)@),
    {
        let x = reg_x(self.opcode);
        let y = reg_y(self.opcode);
        if self.registers[x] != self.registers[y] {
            self.pc += 2;
        }
    }

    /// Annn: sets the index register to `nnn`.
    pub fn op_annn(&mut self)
        requires
            old(self).wf(),
        ensures
            final(self).wf(),
            final(self)@ == model::load_index(old(self)@),
    {
        let address = imm_nnn(self.opcode);
        self.index = address;
    }

    /// Bnnn: jumps to register 0 plus `nnn`.
    pub fn op_bnnn(&mut self)
        requires
            old(self).wf(),
        ensures
            final(self).wf(),
            final(self)@ == model::jump_offset(old(self)@),
    {
        let address = imm_nnn(self.opcode);
        self.pc = self.registers[0] as u16 + address;
    }

    /// Fx07: reads the delay timer into register `x`.
    pub fn op_fx07(&mut self)
        requires
            old(self).wf(),
        ensures
            final(self).wf(),
            final(self)@ == model::read_delay(old(self)@),
    {
        let x = reg_x(self.opcode);
        self.registers[x] = self.delay_timer;
    }

    /// Fx15: sets the delay timer from register `x`.
    pub fn op_fx15(&mut self)
        requires
            old(self).wf(),
        ensures
            final(self).wf(),
            final(self)@ == model::set_delay(old(self)@),
    {
        let x = reg_x(self.opcode);
        self.delay_timer = self.registers[x];
    }

    /// Fx18: sets the sound timer from register `x`.
    pub fn op_fx18(&mut self)
        requires
            old(self).wf(),
        ensures
            final(self).wf(),
            final(self)@ == model::set_sound(old(self)@),
    {
        let x = reg_x(self.opcode);
        self.sound_timer = self.registers[x];
    }

    /// Fx1E: adds register `x` to the index register, wrapping at sixteen bits.
    pub fn op_fx1e(&mut self)
        requires
            old(self).wf(),
        ensures
            final(self).wf(),
            final(self)@ == model::add_index(old(self)@),
    {
        let x = reg_x(self.opcode);
        let sum: u32 = self.index as u32 + self.registers[x] as u32;
        self.index = (sum % 65536) as u16;
    }

    /// Fx29: points the index register at the glyph whose number is in register `x`.
    pub fn op_fx29(&mut self)
        requires
            old(self).wf(),
        ensures
            final(self).wf(),
            final(self)@ == model::glyph_address(old(self)@),
    {
        let x = reg_x(self.opcode);
        let digit = self.registers[x];
        self.index = FONT_SET_START_ADDRESS + 5 * (digit as u16);
    }

    /// 6xkk: sets register `x` to `kk`.
    pub fn op_6xkk(&mut self)
        requires
            old(self).wf(),
        ensures
            final(self).wf(),
            final(self)@ == model::load_imm(old(self)@),
    {
        let x = reg_x(self.opcode);
        let byte = imm_kk(self.opcode);
        self.registers[x] = byte;
    }

    /// 00EE: returns to the address in the newest stack frame. With no frame
    /// live the machine is left as it was and the fault is reported.
    pub fn op_00ee(&mut self) -> (r: Result<(), Fault>)
        requires
            old(self).wf(),
        ensures
            final(self).wf(),
            model::agrees(model::ret(old(self)@), old(self)@, r, final(self)@),
    {
        if self.sp == 0 {
            return Err(Fault::StackUnderflow);
        }
        self.sp -= 1;
        self.pc = self.stack[self.sp as usize];
        Ok(())
    }

    /// 2nnn: pushes the program counter and jumps to `nnn`. With sixteen
    /// frames live the machine is left as it was and the fault is reported.
    pub fn op_2nnn(&mut self) -> (r: Result<(), Fault>)
        requires
            old(self).wf(),
        ensures
            final(self).wf(),
            model::agrees(model::call(old(self)@), old(self)@, r, final(self)@),
    {
        if self.sp >= 16 {
            return Err(Fault::StackOverflow);
        }
        let address = imm_nnn(self.opcode);
        self.stack[self.sp as usize] = self.pc;
        self.sp += 1;
        self.pc = address;
        Ok(())
    }

    /// Cxkk: register `x` becomes a random byte masked by `kk`.
    pub fn op_cxnn(&mut self)
        requires
            old(self).wf(),
        ensures
            final(self).wf(),
            exists|random: u8| final(self)@ == #[trigger] model::random_masked(old(self)@, random),
    {
        let random = random_byte();
        self.load_masked(random);
    }

    /// The effect of Cxkk once the byte has been drawn: register `x` becomes
    /// `random` masked by `kk`.
    pub fn load_masked(&mut self, random: u8)
        requires
            old(self).wf(),
        ensures
            final(self).wf(),
            final(self)@ == model::random_masked(old(self)@, random),
    {
        let x = reg_x(self.opcode);
        let byte = imm_kk(self.opcode);
        self.registers[x] = random & byte;
    }

    /// Ex9E: skips the next instruction where the key whose number is in
    /// register `x` is down. A number above fifteen is a fault.
    pub fn op_ex9e(&mut self) -> (r: Result<(), Fault>)
        requires
            old(self).wf(),
            old(self).pc <= 0xFFFD,
        ensures
            final(self).wf(),
            model::agrees(model::skip_key_down(old(self)@), old(self)@, r, final(self)@),
    {
        let x = reg_x(self.opcode);
        let key = self.registers[x];
        if key >= 16 {
            return Err(Fault::KeyOutOfRange);
        }
        if self.keypad[key as usize] {
            self.pc += 2;
        }
        Ok(())
    }

    /// ExA1: skips the next instruction where the key whose number is in
    /// register `x` is up. A number above fifteen is a fault.
    pub fn op_exa1(&mut self) -> (r: Result<(), Fault>)
        requires
            old(self).wf(),
            old(self).pc <= 0xFFFD,
        ensures
            final(self).wf(),
            model::agrees(model::skip_key_up(old(self)@), old(self)@, r, final(self)@),
    {
        let x = reg_x(self.opcode);
        let key = self.registers[x];
        if key >= 16 {
            return Err(Fault::KeyOutOfRange);
        }
        if !self.keypad[key as usize] {
            self.pc += 2;
        }
        Ok(())
    }

    /// Fx0A: waits for a key. With a key down, register `x` takes the number
    /// of the lowest one; with none, the program counter goes back by one
    /// instruction, so that the next step comes here again.
    pub fn op_fx0a(&mut self)
        requires
            old(self).wf(),
            old(self).pc >= 2,
        ensures
            final(self).wf(),
            final(self)@ == model::wait_key(old(self)@),
    {
        let x = reg_x(self.opcode);
        let mut i: usize = 0;
        while i < 16
            invariant
                i <= 16,
                x == model::op_x(old(self).opcode),
                *self == *old(self),
                self.wf(),
                self.pc >= 2,
                model::none_down_below(self.keypad@, i as int),
            decreases 16 - i,
        {
            if self.keypad[i] {
                self.registers[x] = i as u8;
                proof {
                    let keys = old(self)@.keypad;
                    assert(keys[i as int]);
                    assert(model::lowest_down(keys, i as int));
                    assert(!model::none_down_below(keys, 16));
                    let k = model::lowest_key(keys);
                    assert(keys[k]);
                    assert(k == i);
                }
                return;
            }
            i += 1;
        }
        self.pc -= 2;
    }

    /// Fx33: stores the hundreds, tens and units of register `x` at the
    /// index register and the two bytes after it.
    pub fn op_fx33(&mut self) -> (r: Result<(), Fault>)
        requires
            old(self).wf(),
        ensures
            final(self).wf(),
            model::agrees(model::store_bcd(old(self)@), old(self)@, r, final(self)@),
    {
        let x = reg_x(self.opcode);
        let value = self.registers[x];
        let at = self.index as usize;
        if at + 2 >= 4096 {
            return Err(Fault::AddressOutOfRange);
        }
        self.memory[at] = value / 100;
        self.memory[at + 1] = (value / 10) % 10;
        self.memory[at + 2] = value % 10;
        Ok(())
    }

    /// Fx55: stores registers 0 to `x` at the index register and the bytes
    /// after it.
    pub fn op_fx55(&mut self) -> (r: Result<(), Fault>)
        requires
            old(self).wf(),
        ensures
            final(self).wf(),
            model::agrees(model::store_registers(old(self)@), old(self)@, r, final(self)@),
    {
        let x = reg_x(self.opcode);
        let at = self.index as usize;
        if at + x >= 4096 {
            return Err(Fault::AddressOutOfRange);
        }
        let mut i: usize = 0;
        while i <= x
            invariant
                i <= x + 1,
                x < 16,
                at + x < 4096,
                at == old(self).index,
                self.wf(),
                self@ == (Machine { memory: self.memory@, ..old(self)@ }),
                forall|a: int|
                    0 <= a < 4096 ==> #[trigger] self.memory@[a] == if at <= a < at + i {
                        old(self).registers@[a - at]
                    } else {
                        old(self).memory@[a]
                    },
            decreases x + 1 - i,
        {
            self.memory[at + i] = self.registers[i];
            i += 1;
        }
        assert(self.memory@ =~= model::store_registers(old(self)@).unwrap().memory);
        Ok(())
    }

    /// Fx65: loads registers 0 to `x` from the index register and the bytes
    /// after it.
    pub fn op_fx65(&mut self) -> (r: Result<(), Fault>)
        requires
            old(self).wf(),
        ensures
            final(self).wf(),
            model::agrees(model::load_registers(old(self)@), old(self)@, r, final(self)@),
    {
        let x = reg_x(self.opcode);
        let at = self.index as usize;
        if at + x >= 4096 {
            return Err(Fault::AddressOutOfRange);
        }
        let mut i: usize = 0;
        while i <= x
            invariant
                i <= x + 1,
                x < 16,
                at + x < 4096,
                at == old(self).index,
                self.wf(),
                self@ == (Machine { registers: self.registers@, ..old(self)@ }),
                forall|r: int|
                    0 <= r < 16 ==> #[trigger] self.registers@[r] == if r < i {
                        old(self).memory@[at + r]
                    } else {
                        old(self).registers@[r]
                    },
            decreases x + 1 - i,
        {
            self.registers[i] = self.memory[at + i];
            i += 1;
        }
        assert(self.registers@ =~= model::load_registers(old(self)@).unwrap().registers);
        Ok(())
    }
}

/// Draws one byte from `rand::random`, the thread-local generator of the
/// `rand` crate. Nothing is claimed of the byte: any value may come back.
#[verifier::external_body]
fn random_byte() -> (byte: u8) {
    rand::random::<u8>()
}

/// Whether the bit of `byte` for sprite column `col` is set.
fn bit_is_set(byte: u8, col: u8) -> (set: bool)
    requires
        col < 8,
    ensures
        set == model::bit_set(byte, col),
{
    byte & (0x80u8 >> col) != 0
}

/// The operand `x` of an instruction word.
fn reg_x(opcode: u16) -> (x: usize)
    ensures
        x == model::op_x(opcode),
        x < 16,
{
    let x = (opcode & 0x0F00) >> 8;
    assert(x == (opcode / 256) % 16) by (bit_vector)
        requires
            x == (opcode & 0x0F00) >> 8,
    ;
    x as usize
}

/// The operand `y` of an instruction word.
fn reg_y(opcode: u16) -> (y: usize)
    ensures
        y == model::op_y(opcode),
        y < 16,
{
    let y = (opcode & 0x00F0) >> 4;
    assert(y == (opcode / 16) % 16) by (bit_vector)
        requires
            y == (opcode & 0x00F0) >> 4,
    ;
    y as usize
}

/// The operand `kk` of an instruction word.
fn imm_kk(opcode: u16) -> (kk: u8)
    ensures
        kk == model::op_kk(opcode),
{
    let kk = opcode & 0x00FF;
    assert(kk == opcode % 256) by (bit_vector)
        requires
            kk == opcode & 0x00FF,
    ;
    kk as u8
}

/// The operand `nnn` of an instruction word.
fn imm_nnn(opcode: u16) -> (nnn: u16)
    ensures
        nnn == model::op_nnn(opcode),
        nnn < 4096,
{
    let nnn = opcode & 0x0FFF;
    assert(nnn == opcode % 4096) by (bit_vector)
        requires
            nnn == opcode & 0x0FFF,
    ;
    nnn
}

/// The operand `n` of an instruction word.
fn imm_n(opcode: u16) -> (n: u16)
    ensures
        n == model::op_n(opcode),
        n < 16,
{
    let n = opcode & 0x000F;
    assert(n == opcode % 16) by (bit_vector)
        requires
            n == opcode & 0x000F,
    ;
    n
}

} // verus!
