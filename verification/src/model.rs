//! The mathematical model of the machine: its state as sequences and
//! integers, and the meaning of each instruction as a function on states.

use vstd::prelude::*;

verus! {

/// Number of addressable bytes.
pub const MEMORY_SIZE: usize = 4096;

/// Address at which a program is loaded and execution begins.
pub const START_ADDRESS: u16 = 0x200;

/// Address of the first byte of the built-in glyphs.
pub const FONT_SET_START_ADDRESS: u16 = 0x50;

/// Number of bytes of the built-in glyphs: sixteen glyphs of five rows.
pub const FONT_SET_SIZE: usize = 80;

/// Width of the framebuffer in pixels.
pub const VIDEO_WIDTH: u8 = 64;

/// Height of the framebuffer in pixels.
pub const VIDEO_HEIGHT: u8 = 32;

/// Number of pixels of the framebuffer.
pub const VIDEO_SIZE: usize = 2048;

/// A pixel that is lit: all bits set.
pub const PIXEL_ON: u32 = 0xFFFF_FFFF;

/// A pixel that is dark.
pub const PIXEL_OFF: u32 = 0;

/// Why a step, or loading a program, could not be carried out.
#[derive(Clone, Copy, Debug, PartialEq, Eq, Structural)]
pub enum Fault {
    /// The program does not fit between the start address and the end of memory.
    RomTooLarge,
    /// The instruction word fetched at `pc` is not an instruction.
    UnknownOpcode { opcode: u16, pc: u16 },
    /// A call with sixteen frames already live.
    StackOverflow,
    /// A return with no live frame.
    StackUnderflow,
    /// An instruction fetch or a memory operand beyond the last byte of memory.
    AddressOutOfRange,
    /// A key number above fifteen.
    KeyOutOfRange,
}

/// The state of the machine as plain mathematical values.
pub struct Machine {
    pub memory: Seq<u8>,
    pub registers: Seq<u8>,
    pub index: u16,
    pub pc: u16,
    pub sp: u8,
    pub stack: Seq<u16>,
    pub delay_timer: u8,
    pub sound_timer: u8,
    pub keypad: Seq<bool>,
    pub video: Seq<u32>,
    pub opcode: u16,
}

impl Machine {
    /// The shape every machine state has: the sizes of its parts, at most
    /// sixteen live frames, and pixels that are either dark or lit.
    pub open spec fn wf(self) -> bool {
        &&& self.memory.len() == 4096
        &&& self.registers.len() == 16
        &&& self.stack.len() == 16
        &&& self.keypad.len() == 16
        &&& self.video.len() == 2048
        &&& self.sp <= 16
        &&& forall|i: int|
            0 <= i < 2048 ==> #[trigger] self.video[i] == PIXEL_OFF || self.video[i] == PIXEL_ON
    }

    /// Register `i`, as an integer.
    pub open spec fn reg(self, i: int) -> int {
        self.registers[i] as int
    }
}

/// The sixteen built-in glyphs, five rows each, for the digits 0 to F.
pub open spec fn font_set() -> Seq<u8> {
    seq![
        0xF0u8, 0x90u8, 0x90u8, 0x90u8, 0xF0u8,
        0x20u8, 0x60u8, 0x20u8, 0x20u8, 0x70u8,
        0xF0u8, 0x10u8, 0xF0u8, 0x80u8, 0xF0u8,
        0xF0u8, 0x10u8, 0xF0u8, 0x10u8, 0xF0u8,
        0x90u8, 0x90u8, 0xF0u8, 0x10u8, 0x10u8,
        0xF0u8, 0x80u8, 0xF0u8, 0x10u8, 0xF0u8,
        0xF0u8, 0x80u8, 0xF0u8, 0x90u8, 0xF0u8,
        0xF0u8, 0x10u8, 0x20u8, 0x40u8, 0x40u8,
        0xF0u8, 0x90u8, 0xF0u8, 0x90u8, 0xF0u8,
        0xF0u8, 0x90u8, 0xF0u8, 0x10u8, 0xF0u8,
        0xF0u8, 0x90u8, 0xF0u8, 0x90u8, 0x90u8,
        0xE0u8, 0x90u8, 0xE0u8, 0x90u8, 0xE0u8,
        0xF0u8, 0x80u8, 0x80u8, 0x80u8, 0xF0u8,
        0xE0u8, 0x90u8, 0x90u8, 0x90u8, 0xE0u8,
        0xF0u8, 0x80u8, 0xF0u8, 0x80u8, 0xF0u8,
        0xF0u8, 0x80u8, 0xF0u8, 0x80u8, 0x80u8,
    ]
}

/// The machine as it is built: the glyphs in place, the program counter at
/// the start address, everything else zero.
pub open spec fn initial() -> Machine {
    Machine {
        memory: Seq::new(4096, |a: int| if 0x50 <= a < 0xA0 { font_set()[a - 0x50] } else { 0u8 }),
        registers: Seq::new(16, |i: int| 0u8),
        index: 0,
        pc: START_ADDRESS,
        sp: 0,
        stack: Seq::new(16, |i: int| 0u16),
        delay_timer: 0,
        sound_timer: 0,
        keypad: Seq::new(16, |i: int| false),
        video: Seq::new(2048, |i: int| PIXEL_OFF),
        opcode: 0,
    }
}

/// The state after the program `rom` has been copied to the start address;
/// a program that does not fit is refused.
pub open spec fn with_rom(s: Machine, rom: Seq<u8>) -> Result<Machine, Fault> {
    if rom.len() > 4096 - 0x200 {
        Err(Fault::RomTooLarge)
    } else {
        Ok(
            Machine {
                memory: Seq::new(
                    4096,
                    |a: int|
                        if 0x200 <= a < 0x200 + rom.len() {
                            rom[a - 0x200]
                        } else {
                            s.memory[a]
                        },
                ),
                ..s
            },
        )
    }
}

// ---------------------------------------------------------------------
// Operand fields of an instruction word
// ---------------------------------------------------------------------

/// The family of an instruction: bits 12 to 15.
pub open spec fn op_family(opcode: u16) -> int {
    opcode as int / 4096
}

/// The operand `x`: bits 8 to 11.
pub open spec fn op_x(opcode: u16) -> int {
    (opcode as int / 256) % 16
}

/// The operand `y`: bits 4 to 7.
pub open spec fn op_y(opcode: u16) -> int {
    (opcode as int / 16) % 16
}

/// The operand `n`: bits 0 to 3.
pub open spec fn op_n(opcode: u16) -> int {
    opcode as int % 16
}

/// The operand `kk`: bits 0 to 7.
pub open spec fn op_kk(opcode: u16) -> u8 {
    (opcode as int % 256) as u8
}

/// The operand `nnn`: bits 0 to 11.
pub open spec fn op_nnn(opcode: u16) -> u16 {
    (opcode as int % 4096) as u16
}

/// The state with register `i` set to `v`.
pub open spec fn set_reg(s: Machine, i: int, v: u8) -> Machine {
    Machine { registers: s.registers.update(i, v), ..s }
}

/// The state with the program counter moved past one more instruction.
pub open spec fn skip(s: Machine) -> Machine {
    Machine { pc: (s.pc + 2) as u16, ..s }
}

/// The state with the next instruction skipped where `cond` holds.
pub open spec fn skip_if(s: Machine, cond: bool) -> Machine {
    if cond { skip(s) } else { s }
}

/// The flag value of a condition: 1 where it holds, 0 where not.
pub open spec fn flag(cond: bool) -> u8 {
    if cond { 1u8 } else { 0u8 }
}

// ---------------------------------------------------------------------
// Control flow
// ---------------------------------------------------------------------

/// 00E0: every pixel dark.
pub open spec fn clear_screen(s: Machine) -> Machine {
    Machine { video: Seq::new(2048, |i: int| PIXEL_OFF), ..s }
}

/// 00EE: the newest frame leaves the stack and becomes the program counter.
pub open spec fn ret(s: Machine) -> Result<Machine, Fault> {
    if s.sp == 0 {
        Err(Fault::StackUnderflow)
    } else {
        Ok(Machine { sp: (s.sp - 1) as u8, pc: s.stack[s.sp - 1], ..s })
    }
}

/// 1nnn: the program counter becomes `nnn`.
pub open spec fn jump(s: Machine) -> Machine {
    Machine { pc: op_nnn(s.opcode), ..s }
}

/// 2nnn: the program counter is pushed, then becomes `nnn`.
pub open spec fn call(s: Machine) -> Result<Machine, Fault> {
    if s.sp >= 16 {
        Err(Fault::StackOverflow)
    } else {
        Ok(
            Machine {
                stack: s.stack.update(s.sp as int, s.pc),
                sp: (s.sp + 1) as u8,
                pc: op_nnn(s.opcode),
                ..s
            },
        )
    }
}

/// 3xkk: skip where register `x` equals `kk`.
pub open spec fn skip_eq_imm(s: Machine) -> Machine {
    skip_if(s, s.registers[op_x(s.opcode)] == op_kk(s.opcode))
}

/// 4xkk: skip where register `x` differs from `kk`.
pub open spec fn skip_ne_imm(s: Machine) -> Machine {
    skip_if(s, s.registers[op_x(s.opcode)] != op_kk(s.opcode))
}

/// 5xy0: skip where registers `x` and `y` are equal.
pub open spec fn skip_eq_reg(s: Machine) -> Machine {
    skip_if(s, s.registers[op_x(s.opcode)] == s.registers[op_y(s.opcode)])
}

/// 9xy0: skip where registers `x` and `y` differ.
pub open spec fn skip_ne_reg(s: Machine) -> Machine {
    skip_if(s, s.registers[op_x(s.opcode)] != s.registers[op_y(s.opcode)])
}

/// Bnnn: the program counter becomes register 0 plus `nnn`.
pub open spec fn jump_offset(s: Machine) -> Machine {
    Machine { pc: (s.reg(0) + op_nnn(s.opcode)) as u16, ..s }
}

// ---------------------------------------------------------------------
// Arithmetic and logic
// ---------------------------------------------------------------------

/// 6xkk: register `x` becomes `kk`.
pub open spec fn load_imm(s: Machine) -> Machine {
    set_reg(s, op_x(s.opcode), op_kk(s.opcode))
}

/// 7xkk: `kk` is added to register `x`, modulo 256; no flag.
pub open spec fn add_imm(s: Machine) -> Machine {
    let x = op_x(s.opcode);
    set_reg(s, x, ((s.reg(x) + op_kk(s.opcode)) % 256) as u8)
}

/// 8xy0: register `x` becomes register `y`.
pub open spec fn copy_reg(s: Machine) -> Machine {
    set_reg(s, op_x(s.opcode), s.registers[op_y(s.opcode)])
}

/// 8xy1: register `x` becomes the bitwise or of registers `x` and `y`.
pub open spec fn or_reg(s: Machine) -> Machine {
    let x = op_x(s.opcode);
    set_reg(s, x, s.registers[x] | s.registers[op_y(s.opcode)])
}

/// 8xy2: register `x` becomes the bitwise and of registers `x` and `y`.
pub open spec fn and_reg(s: Machine) -> Machine {
    let x = op_x(s.opcode);
    set_reg(s, x, s.registers[x] & s.registers[op_y(s.opcode)])
}

/// 8xy3: register `x` becomes the bitwise exclusive or of registers `x` and `y`.
pub open spec fn xor_reg(s: Machine) -> Machine {
    let x = op_x(s.opcode);
    set_reg(s, x, s.registers[x] ^ s.registers[op_y(s.opcode)])
}

/// 8xy4: the sum of registers `x` and `y` is taken wide; register F becomes
/// the carry, then register `x` the sum modulo 256.
pub open spec fn add_carry(s: Machine) -> Machine {
    let x = op_x(s.opcode);
    let sum = s.reg(x) + s.reg(op_y(s.opcode));
    set_reg(set_reg(s, 15, flag(sum > 255)), x, (sum % 256) as u8)
}

/// 8xy5: register F becomes 1 where register `x` is above register `y`, else
/// 0; then register `x` becomes itself minus register `y`, modulo 256, both
/// read after the flag was written.
pub open spec fn sub_borrow(s: Machine) -> Machine {
    let x = op_x(s.opcode);
    let y = op_y(s.opcode);
    let t = set_reg(s, 15, flag(s.reg(x) > s.reg(y)));
    set_reg(t, x, ((t.reg(x) - t.reg(y)) % 256) as u8)
}

/// 8xy6: register F becomes the lowest bit of register `x`; then register `x`
/// is halved.
pub open spec fn shift_right(s: Machine) -> Machine {
    let x = op_x(s.opcode);
    let t = set_reg(s, 15, (s.reg(x) % 2) as u8);
    set_reg(t, x, (t.reg(x) / 2) as u8)
}

/// 8xy7: register F becomes 1 where register `y` is above register `x`, else
/// 0; then register `x` becomes register `y` minus itself, modulo 256, both
/// read after the flag was written.
pub open spec fn sub_reverse(s: Machine) -> Machine {
    let x = op_x(s.opcode);
    let y = op_y(s.opcode);
    let t = set_reg(s, 15, flag(s.reg(y) > s.reg(x)));
    set_reg(t, x, ((t.reg(y) - t.reg(x)) % 256) as u8)
}

/// 8xyE: register F becomes the highest bit of register `x`; then register
/// `x` is doubled, modulo 256.
pub open spec fn shift_left(s: Machine) -> Machine {
    let x = op_x(s.opcode);
    let t = set_reg(s, 15, (s.reg(x) / 128) as u8);
    set_reg(t, x, ((t.reg(x) * 2) % 256) as u8)
}

/// Cxkk: register `x` becomes the bits of `random` that `kk` keeps.
pub open spec fn random_masked(s: Machine, random: u8) -> Machine {
    set_reg(s, op_x(s.opcode), random & op_kk(s.opcode))
}

// ---------------------------------------------------------------------
// Index register, timers, memory
// ---------------------------------------------------------------------

/// Annn: the index register becomes `nnn`.
pub open spec fn load_index(s: Machine) -> Machine {
    Machine { index: op_nnn(s.opcode), ..s }
}

/// Fx07: register `x` becomes the delay timer.
pub open spec fn read_delay(s: Machine) -> Machine {
    set_reg(s, op_x(s.opcode), s.delay_timer)
}

/// Fx15: the delay timer becomes register `x`.
pub open spec fn set_delay(s: Machine) -> Machine {
    Machine { delay_timer: s.registers[op_x(s.opcode)], ..s }
}

/// Fx18: the sound timer becomes register `x`.
pub open spec fn set_sound(s: Machine) -> Machine {
    Machine { sound_timer: s.registers[op_x(s.opcode)], ..s }
}

/// Fx1E: register `x` is added to the index register, modulo 65536.
pub open spec fn add_index(s: Machine) -> Machine {
    Machine { index: ((s.index + s.reg(op_x(s.opcode))) % 65536) as u16, ..s }
}

/// Fx29: the index register becomes the address of the glyph whose number
/// is in register `x`.
pub open spec fn glyph_address(s: Machine) -> Machine {
    Machine { index: (0x50 + 5 * s.reg(op_x(s.opcode))) as u16, ..s }
}

/// Fx33: the hundreds, tens and units of register `x` go to the three bytes
/// at the index register.
pub open spec fn store_bcd(s: Machine) -> Result<Machine, Fault> {
    let v = s.reg(op_x(s.opcode));
    let i = s.index as int;
    if i + 2 >= 4096 {
        Err(Fault::AddressOutOfRange)
    } else {
        Ok(
            Machine {
                memory: s.memory.update(i, (v / 100) as u8).update(
                    i + 1,
                    ((v / 10) % 10) as u8,
                ).update(i + 2, (v % 10) as u8),
                ..s
            },
        )
    }
}

/// Fx55: registers 0 to `x` go to the bytes at the index register.
pub open spec fn store_registers(s: Machine) -> Result<Machine, Fault> {
    let x = op_x(s.opcode);
    let i = s.index as int;
    if i + x >= 4096 {
        Err(Fault::AddressOutOfRange)
    } else {
        Ok(
            Machine {
                memory: Seq::new(
                    4096,
                    |a: int| if i <= a <= i + x { s.registers[a - i] } else { s.memory[a] },
                ),
                ..s
            },
        )
    }
}

/// Fx65: registers 0 to `x` are read from the bytes at the index register.
pub open spec fn load_registers(s: Machine) -> Result<Machine, Fault> {
    let x = op_x(s.opcode);
    let i = s.index as int;
    if i + x >= 4096 {
        Err(Fault::AddressOutOfRange)
    } else {
        Ok(
            Machine {
                registers: Seq::new(
                    16,
                    |r: int| if r <= x { s.memory[i + r] } else { s.registers[r] },
                ),
                ..s
            },
        )
    }
}

// ---------------------------------------------------------------------
// Keys
// ---------------------------------------------------------------------

/// Ex9E: skip where the key whose number is in register `x` is down.
pub open spec fn skip_key_down(s: Machine) -> Result<Machine, Fault> {
    let key = s.reg(op_x(s.opcode));
    if key >= 16 {
        Err(Fault::KeyOutOfRange)
    } else {
        Ok(skip_if(s, s.keypad[key]))
    }
}

/// ExA1: skip where the key whose number is in register `x` is up.
pub open spec fn skip_key_up(s: Machine) -> Result<Machine, Fault> {
    let key = s.reg(op_x(s.opcode));
    if key >= 16 {
        Err(Fault::KeyOutOfRange)
    } else {
        Ok(skip_if(s, !s.keypad[key]))
    }
}

/// No key below number `k` is down.
pub open spec fn none_down_below(keypad: Seq<bool>, k: int) -> bool {
    forall|j: int| 0 <= j < k ==> !#[trigger] keypad[j]
}

/// `k` is the lowest-numbered key that is down.
pub open spec fn lowest_down(keypad: Seq<bool>, k: int) -> bool {
    0 <= k < 16 && keypad[k] && none_down_below(keypad, k)
}

/// The number of the lowest-numbered key that is down, where there is one.
pub open spec fn lowest_key(keypad: Seq<bool>) -> int {
    choose|k: int| lowest_down(keypad, k)
}

/// Fx0A: with a key down, register `x` becomes the lowest such key's
/// number; with none, the program counter goes back to this instruction.
pub open spec fn wait_key(s: Machine) -> Machine {
    if none_down_below(s.keypad, 16) {
        Machine { pc: (s.pc - 2) as u16, ..s }
    } else {
        set_reg(s, op_x(s.opcode), lowest_key(s.keypad) as u8)
    }
}

// ---------------------------------------------------------------------
// Sprites
// ---------------------------------------------------------------------

/// Whether the bit of `byte` for sprite column `col` is set; column 0 is the
/// highest bit.
pub open spec fn bit_set(byte: u8, col: u8) -> bool {
    byte & (0x80u8 >> col) != 0
}

/// A pixel after it has been XORed with a set sprite bit.
pub open spec fn toggle(p: u32) -> u32 {
    if p == PIXEL_ON { PIXEL_OFF } else { PIXEL_ON }
}

/// The sprite row that falls on pixel `i` for a sprite whose top is at
/// screen row `y0`.
pub open spec fn sprite_row(y0: int, i: int) -> int {
    (i / 64 + 32 - y0) % 32
}

/// The sprite column that falls on pixel `i` for a sprite whose left edge is
/// at screen column `x0`.
pub open spec fn sprite_col(x0: int, i: int) -> int {
    (i % 64 + 64 - x0) % 64
}

/// Whether the part of the sprite at the index register that comes before
/// column `c` of row `r`, drawn with its corner at (`x0`, `y0`) and wrapped
/// at the screen's edges, has a set bit on pixel `i`.
pub open spec fn sprite_hits_before(s: Machine, x0: int, y0: int, r: int, c: int, i: int) -> bool {
    let row = sprite_row(y0, i);
    let col = sprite_col(x0, i);
    &&& col < 8
    &&& row < r || (row == r && col < c)
    &&& bit_set(s.memory[s.index + row], col as u8)
}

/// Whether the sprite of `n` rows at the index register has a set bit on
/// pixel `i`.
pub open spec fn sprite_hits(s: Machine, x0: int, y0: int, n: int, i: int) -> bool {
    sprite_hits_before(s, x0, y0, n, 0, i)
}

/// Whether the sprite, as far as drawn, has a set bit on a lit pixel.
pub open spec fn collides_before(s: Machine, x0: int, y0: int, r: int, c: int) -> bool {
    exists|i: int|
        0 <= i < 2048 && #[trigger] sprite_hits_before(s, x0, y0, r, c, i) && s.video[i]
            == PIXEL_ON
}

/// The pixel on which column `c` of sprite row `r` falls.
pub open spec fn target(x0: int, y0: int, r: int, c: int) -> int {
    ((y0 + r) % 32) * 64 + (x0 + c) % 64
}

/// Column `c` of sprite row `r` falls on its target pixel and on no other.
pub proof fn lemma_target(x0: int, y0: int, r: int, c: int, i: int)
    requires
        0 <= x0 < 64,
        0 <= y0 < 32,
        0 <= r < 32,
        0 <= c < 64,
        0 <= i < 2048,
    ensures
        0 <= target(x0, y0, r, c) < 2048,
        0 <= sprite_row(y0, i) < 32,
        0 <= sprite_col(x0, i) < 64,
        (sprite_row(y0, i) == r && sprite_col(x0, i) == c) <==> i == target(x0, y0, r, c),
{
}

/// What drawing column `c` of row `r` adds to what had been drawn before it:
/// the target pixel where the bit is set, and nothing else.
pub proof fn lemma_next_column(s: Machine, x0: int, y0: int, r: int, c: int)
    requires
        s.wf(),
        0 <= x0 < 64,
        0 <= y0 < 32,
        0 <= r < 32,
        0 <= c < 8,
    ensures
        0 <= target(x0, y0, r, c) < 2048,
        !sprite_hits_before(s, x0, y0, r, c, target(x0, y0, r, c)),
        forall|i: int|
            0 <= i < 2048 ==> (#[trigger] sprite_hits_before(s, x0, y0, r, c + 1, i) <==> (
            sprite_hits_before(s, x0, y0, r, c, i) || (i == target(x0, y0, r, c) && bit_set(
                s.memory[s.index + r],
                c as u8,
            )))),
        collides_before(s, x0, y0, r, c + 1) <==> (collides_before(s, x0, y0, r, c) || (bit_set(
            s.memory[s.index + r],
            c as u8,
        ) && s.video[target(x0, y0, r, c)] == PIXEL_ON)),
{
    let t = target(x0, y0, r, c);
    lemma_target(x0, y0, r, c, t);
    assert forall|i: int| 0 <= i < 2048 implies (#[trigger] sprite_hits_before(
        s,
        x0,
        y0,
        r,
        c + 1,
        i,
    ) <==> (sprite_hits_before(s, x0, y0, r, c, i) || (i == t && bit_set(
        s.memory[s.index + r],
        c as u8,
    )))) by {
        lemma_target(x0, y0, r, c, i);
    }
    if collides_before(s, x0, y0, r, c + 1) {
        let i = choose|i: int|
            0 <= i < 2048 && #[trigger] sprite_hits_before(s, x0, y0, r, c + 1, i) && s.video[i]
                == PIXEL_ON;
        if i != t {
            assert(sprite_hits_before(s, x0, y0, r, c, i));
        }
    }
    if collides_before(s, x0, y0, r, c) {
        let i = choose|i: int|
            0 <= i < 2048 && #[trigger] sprite_hits_before(s, x0, y0, r, c, i) && s.video[i]
                == PIXEL_ON;
        assert(sprite_hits_before(s, x0, y0, r, c + 1, i));
    }
    if bit_set(s.memory[s.index + r], c as u8) && s.video[t] == PIXEL_ON {
        assert(sprite_hits_before(s, x0, y0, r, c + 1, t));
    }
}

/// A row drawn to its eighth column is a row drawn whole.
pub proof fn lemma_next_row(s: Machine, x0: int, y0: int, r: int)
    requires
        0 <= x0 < 64,
        0 <= y0 < 32,
        0 <= r < 32,
    ensures
        forall|i: int|
            0 <= i < 2048 ==> (#[trigger] sprite_hits_before(s, x0, y0, r + 1, 0, i)
                <==> sprite_hits_before(s, x0, y0, r, 8, i)),
        collides_before(s, x0, y0, r + 1, 0) <==> collides_before(s, x0, y0, r, 8),
{
    assert forall|i: int| 0 <= i < 2048 implies (#[trigger] sprite_hits_before(
        s,
        x0,
        y0,
        r + 1,
        0,
        i,
    ) <==> sprite_hits_before(s, x0, y0, r, 8, i)) by {
        lemma_target(x0, y0, r, 0, i);
    }
    if collides_before(s, x0, y0, r + 1, 0) {
        let i = choose|i: int|
            0 <= i < 2048 && #[trigger] sprite_hits_before(s, x0, y0, r + 1, 0, i) && s.video[i]
                == PIXEL_ON;
        assert(sprite_hits_before(s, x0, y0, r, 8, i));
    }
    if collides_before(s, x0, y0, r, 8) {
        let i = choose|i: int|
            0 <= i < 2048 && #[trigger] sprite_hits_before(s, x0, y0, r, 8, i) && s.video[i]
                == PIXEL_ON;
        assert(sprite_hits_before(s, x0, y0, r + 1, 0, i));
    }
}

/// The framebuffer with every pixel toggled on which the sprite of `n` rows
/// has a set bit.
pub open spec fn drawn_video(s: Machine, x0: int, y0: int, n: int) -> Seq<u32> {
    Seq::new(
        2048,
        |i: int| if sprite_hits(s, x0, y0, n, i) { toggle(s.video[i]) } else { s.video[i] },
    )
}

/// The state after the sprite of `n` rows at the index register has been
/// XORed onto the screen with its corner at (`x0`, `y0`): register F tells
/// whether a lit pixel was turned dark.
pub open spec fn draw_at(s: Machine, x0: int, y0: int, n: int) -> Machine {
    Machine {
        video: drawn_video(s, x0, y0, n),
        registers: s.registers.update(15, flag(collides_before(s, x0, y0, n, 0))),
        ..s
    }
}

/// Dxyn: the sprite of `n` rows at the index register is drawn at the
/// column in register `x` and the row in register `y`.
pub open spec fn draw(s: Machine) -> Result<Machine, Fault> {
    let n = op_n(s.opcode);
    if s.index + n > 4096 {
        Err(Fault::AddressOutOfRange)
    } else {
        Ok(draw_at(s, s.reg(op_x(s.opcode)) % 64, s.reg(op_y(s.opcode)) % 32, n))
    }
}

// ---------------------------------------------------------------------
// Outcomes
// ---------------------------------------------------------------------

/// What a fallible operation owes: on success the state that `expected`
/// names, on failure the fault that it names and the state untouched.
pub open spec fn agrees(
    expected: Result<Machine, Fault>,
    before: Machine,
    r: Result<(), Fault>,
    after: Machine,
) -> bool {
    match r {
        Ok(_) => expected == Ok::<Machine, Fault>(after),
        Err(e) => expected == Err::<Machine, Fault>(e) && after == before,
    }
}

// ---------------------------------------------------------------------
// Fetch, decode, execute, tick
// ---------------------------------------------------------------------

/// Both timers one lower, unless already zero.
pub open spec fn tick(s: Machine) -> Machine {
    Machine {
        delay_timer: if s.delay_timer > 0 { (s.delay_timer - 1) as u8 } else { 0u8 },
        sound_timer: if s.sound_timer > 0 { (s.sound_timer - 1) as u8 } else { 0u8 },
        ..s
    }
}

/// The instruction word at the program counter: two bytes, high byte first.
pub open spec fn word_at(s: Machine, pc: int) -> u16 {
    (s.memory[pc] as int * 256 + s.memory[pc + 1] as int) as u16
}

/// The state after the fetch: the instruction word latched and the program
/// counter past it.
pub open spec fn fetched(s: Machine) -> Machine {
    Machine { opcode: word_at(s, s.pc as int), pc: (s.pc + 2) as u16, ..s }
}

/// The fault for an instruction word that is no instruction; the program
/// counter named is that of the word.
pub open spec fn unknown(s: Machine) -> Fault {
    Fault::UnknownOpcode { opcode: s.opcode, pc: (s.pc - 2) as u16 }
}

/// Family 0, told apart by the lowest four bits.
pub open spec fn execute_0(s: Machine) -> Result<Machine, Fault> {
    let low = op_n(s.opcode);
    if low == 0x0 {
        Ok(clear_screen(s))
    } else if low == 0xE {
        ret(s)
    } else {
        Err(unknown(s))
    }
}

/// Family 8, told apart by the lowest four bits.
pub open spec fn execute_8(s: Machine) -> Result<Machine, Fault> {
    let low = op_n(s.opcode);
    if low == 0x0 {
        Ok(copy_reg(s))
    } else if low == 0x1 {
        Ok(or_reg(s))
    } else if low == 0x2 {
        Ok(and_reg(s))
    } else if low == 0x3 {
        Ok(xor_reg(s))
    } else if low == 0x4 {
        Ok(add_carry(s))
    } else if low == 0x5 {
        Ok(sub_borrow(s))
    } else if low == 0x6 {
        Ok(shift_right(s))
    } else if low == 0x7 {
        Ok(sub_reverse(s))
    } else if low == 0xE {
        Ok(shift_left(s))
    } else {
        Err(unknown(s))
    }
}

/// Families E and F, told apart by the lowest eight bits.
pub open spec fn execute_ef(s: Machine) -> Result<Machine, Fault> {
    let low = op_kk(s.opcode);
    if low == 0xA1 {
        skip_key_up(s)
    } else if low == 0x9E {
        skip_key_down(s)
    } else if low == 0x07 {
        Ok(read_delay(s))
    } else if low == 0x0A {
        Ok(wait_key(s))
    } else if low == 0x15 {
        Ok(set_delay(s))
    } else if low == 0x18 {
        Ok(set_sound(s))
    } else if low == 0x1E {
        Ok(add_index(s))
    } else if low == 0x29 {
        Ok(glyph_address(s))
    } else if low == 0x33 {
        store_bcd(s)
    } else if low == 0x55 {
        store_registers(s)
    } else if low == 0x65 {
        load_registers(s)
    } else {
        Err(unknown(s))
    }
}

/// The effect of the latched instruction on a state after the fetch, with
/// `random` as the byte drawn for Cxkk.
pub open spec fn execute(s: Machine, random: u8) -> Result<Machine, Fault> {
    let family = op_family(s.opcode);
    if family == 0x0 {
        execute_0(s)
    } else if family == 0x1 {
        Ok(jump(s))
    } else if family == 0x2 {
        call(s)
    } else if family == 0x3 {
        Ok(skip_eq_imm(s))
    } else if family == 0x4 {
        Ok(skip_ne_imm(s))
    } else if family == 0x5 {
        Ok(skip_eq_reg(s))
    } else if family == 0x6 {
        Ok(load_imm(s))
    } else if family == 0x7 {
        Ok(add_imm(s))
    } else if family == 0x8 {
        execute_8(s)
    } else if family == 0x9 {
        Ok(skip_ne_reg(s))
    } else if family == 0xA {
        Ok(load_index(s))
    } else if family == 0xB {
        Ok(jump_offset(s))
    } else if family == 0xC {
        Ok(random_masked(s, random))
    } else if family == 0xD {
        draw(s)
    } else {
        execute_ef(s)
    }
}

/// One whole step: fetch, execute, tick. A fault leaves no trace: the step
/// either completes or the state stays as it was.
pub open spec fn step(s: Machine, random: u8) -> Result<Machine, Fault> {
    if s.pc + 1 >= 4096 {
        Err(Fault::AddressOutOfRange)
    } else {
        match execute(fetched(s), random) {
            Ok(t) => Ok(tick(t)),
            Err(e) => Err(e),
        }
    }
}

/// As many steps in a row as `randoms` has bytes, the i-th with the i-th
/// byte; the first fault ends the run.
pub open spec fn run(s: Machine, randoms: Seq<u8>) -> Result<Machine, Fault>
    decreases randoms.len(),
{
    if randoms.len() == 0 {
        Ok(s)
    } else {
        match run(s, randoms.drop_last()) {
            Ok(t) => step(t, randoms.last()),
            Err(e) => Err(e),
        }
    }
}

} // verus!
