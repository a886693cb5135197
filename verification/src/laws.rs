//! What the instruction semantics imply for programs. Each law is stated
//! over the model, and so holds of every run of the executable machine.

use vstd::prelude::*;
use crate::model;
use crate::model::{Fault, Machine, PIXEL_OFF, PIXEL_ON};

verus! {

/// 8xy4 with a destination other than register F leaves the carry in
/// register F, 1 exactly where the sum of the two operands exceeds 255, and
/// the low eight bits of the sum in the destination.
pub proof fn law_add_carry(s: Machine)
    requires
        s.wf(),
        model::op_x(s.opcode) != 15,
    ensures
        model::add_carry(s).reg(15) == 1 <==> s.reg(model::op_x(s.opcode)) + s.reg(
            model::op_y(s.opcode),
        ) > 255,
        model::add_carry(s).reg(15) == 0 || model::add_carry(s).reg(15) == 1,
        model::add_carry(s).reg(model::op_x(s.opcode)) == (s.reg(model::op_x(s.opcode)) + s.reg(
            model::op_y(s.opcode),
        )) % 256,
{
}

/// 8xy5 with a destination other than register F and operands that differ
/// leaves 1 in register F exactly where no borrow occurs, that is where
/// register `x` is at least register `y`; where register `y` is not register
/// F either, the destination holds the difference modulo 256.
pub proof fn law_sub_borrow(s: Machine)
    requires
        s.wf(),
        model::op_x(s.opcode) != 15,
        s.reg(model::op_x(s.opcode)) != s.reg(model::op_y(s.opcode)),
    ensures
        model::sub_borrow(s).reg(15) == 1 <==> s.reg(model::op_x(s.opcode)) >= s.reg(
            model::op_y(s.opcode),
        ),
        model::sub_borrow(s).reg(15) == 0 || model::sub_borrow(s).reg(15) == 1,
        model::op_y(s.opcode) != 15 ==> model::sub_borrow(s).reg(model::op_x(s.opcode)) == (s.reg(
            model::op_x(s.opcode),
        ) - s.reg(model::op_y(s.opcode))) % 256,
{
}

/// 8xy7 with a destination other than register F and operands that differ
/// leaves 1 in register F exactly where no borrow occurs, that is where
/// register `y` is at least register `x`; where register `y` is not register
/// F either, the destination holds the difference modulo 256.
pub proof fn law_sub_reverse(s: Machine)
    requires
        s.wf(),
        model::op_x(s.opcode) != 15,
        s.reg(model::op_x(s.opcode)) != s.reg(model::op_y(s.opcode)),
    ensures
        model::sub_reverse(s).reg(15) == 1 <==> s.reg(model::op_y(s.opcode)) >= s.reg(
            model::op_x(s.opcode),
        ),
        model::sub_reverse(s).reg(15) == 0 || model::sub_reverse(s).reg(15) == 1,
        model::op_y(s.opcode) != 15 ==> model::sub_reverse(s).reg(model::op_x(s.opcode)) == (s.reg(
            model::op_y(s.opcode),
        ) - s.reg(model::op_x(s.opcode))) % 256,
{
}

/// Whether the sprite of `n` rows has a set bit on a dark pixel.
pub open spec fn lights_a_pixel(s: Machine, x0: int, y0: int, n: int) -> bool {
    exists|i: int|
        0 <= i < 2048 && #[trigger] model::sprite_hits(s, x0, y0, n, i) && s.video[i] == PIXEL_OFF
}

/// Drawing the same sprite at the same place twice restores the screen. The
/// second draw reports a collision exactly where the first lit a pixel.
pub proof fn law_draw_twice(s: Machine, x0: int, y0: int, n: int)
    requires
        s.wf(),
        0 <= x0 < 64,
        0 <= y0 < 32,
        0 <= n <= 15,
    ensures
        model::draw_at(model::draw_at(s, x0, y0, n), x0, y0, n).video == s.video,
        model::draw_at(model::draw_at(s, x0, y0, n), x0, y0, n).registers[15] == model::flag(
            lights_a_pixel(s, x0, y0, n),
        ),
{
    let t = model::draw_at(s, x0, y0, n);
    let u = model::draw_at(t, x0, y0, n);
    assert forall|i: int| 0 <= i < 2048 implies model::sprite_hits(t, x0, y0, n, i)
        == model::sprite_hits(s, x0, y0, n, i) by {}
    assert(u.video =~= s.video);
    if lights_a_pixel(s, x0, y0, n) {
        let i = choose|i: int|
            0 <= i < 2048 && #[trigger] model::sprite_hits(s, x0, y0, n, i) && s.video[i]
                == PIXEL_OFF;
        assert(model::sprite_hits_before(t, x0, y0, n, 0, i) && t.video[i] == PIXEL_ON);
    }
    if model::collides_before(t, x0, y0, n, 0) {
        let i = choose|i: int|
            0 <= i < 2048 && #[trigger] model::sprite_hits_before(t, x0, y0, n, 0, i) && t.video[i]
                == PIXEL_ON;
        assert(model::sprite_hits(s, x0, y0, n, i) && s.video[i] == PIXEL_OFF);
    }
}

/// Dxyn carried out twice in a row, with neither operand register being
/// register F, restores the screen.
pub proof fn law_draw_instruction_twice(s: Machine)
    requires
        s.wf(),
        model::op_x(s.opcode) != 15,
        model::op_y(s.opcode) != 15,
        model::draw(s) is Ok,
    ensures
        model::draw(model::draw(s).unwrap()) is Ok,
        model::draw(model::draw(s).unwrap()).unwrap().video == s.video,
        model::draw(model::draw(s).unwrap()).unwrap().registers[15] == model::flag(
            lights_a_pixel(
                s,
                s.reg(model::op_x(s.opcode)) % 64,
                s.reg(model::op_y(s.opcode)) % 32,
                model::op_n(s.opcode),
            ),
        ),
{
    law_draw_twice(
        s,
        s.reg(model::op_x(s.opcode)) % 64,
        s.reg(model::op_y(s.opcode)) % 32,
        model::op_n(s.opcode),
    );
}

/// A sprite touches a pixel only within eight columns to the right of its
/// left edge and `n` rows below its top, both counted around the screen's
/// edges.
pub proof fn law_sprite_wraps(s: Machine, x0: int, y0: int, n: int, i: int)
    requires
        0 <= x0 < 64,
        0 <= y0 < 32,
        0 <= n <= 15,
        0 <= i < 2048,
        model::sprite_hits(s, x0, y0, n, i),
    ensures
        exists|r: int, c: int|
            0 <= r < n && 0 <= c < 8 && i == #[trigger] model::target(x0, y0, r, c) && model::bit_set(
                s.memory[s.index + r],
                c as u8,
            ),
{
    let r = model::sprite_row(y0, i);
    let c = model::sprite_col(x0, i);
    model::lemma_target(x0, y0, r, c, i);
    assert(i == model::target(x0, y0, r, c));
}

/// Whether an instruction word is one of the skip instructions.
pub open spec fn is_skip(opcode: u16) -> bool {
    let family = model::op_family(opcode);
    let low = model::op_kk(opcode);
    family == 0x3 || family == 0x4 || family == 0x5 || family == 0x9 || (family >= 0xE && (low
        == 0x9E || low == 0xA1))
}

/// The condition on which the latched skip instruction skips.
pub open spec fn skip_taken(s: Machine) -> bool {
    let family = model::op_family(s.opcode);
    let vx = s.registers[model::op_x(s.opcode)];
    let vy = s.registers[model::op_y(s.opcode)];
    if family == 0x3 {
        vx == model::op_kk(s.opcode)
    } else if family == 0x4 {
        vx != model::op_kk(s.opcode)
    } else if family == 0x5 {
        vx == vy
    } else if family == 0x9 {
        vx != vy
    } else if model::op_kk(s.opcode) == 0x9E {
        s.keypad[vx as int]
    } else {
        !s.keypad[vx as int]
    }
}

/// Whether the latched instruction names a key by a register that holds a
/// number above fifteen.
pub open spec fn bad_key(s: Machine) -> bool {
    model::op_family(s.opcode) >= 0xE && s.reg(model::op_x(s.opcode)) >= 16
}

/// A step at a skip instruction moves the program counter by four where the
/// condition holds and by two where it does not, and changes nothing else
/// but the timers and the latched word. The one fault is a key number above
/// fifteen.
pub proof fn law_skip(s: Machine, random: u8)
    requires
        s.wf(),
        s.pc + 1 < 4096,
        is_skip(model::word_at(s, s.pc as int)),
    ensures
        bad_key(model::fetched(s)) ==> model::step(s, random) == Err::<Machine, Fault>(
            Fault::KeyOutOfRange,
        ),
        !bad_key(model::fetched(s)) ==> model::step(s, random) == Ok::<Machine, Fault>(
            model::tick(
                Machine {
                    pc: (s.pc + if skip_taken(model::fetched(s)) { 4int } else { 2int }) as u16,
                    ..model::fetched(s)
                },
            ),
        ),
{
}

/// A call followed at once by a return comes back to the instruction after
/// the call, with as many frames live as before.
pub proof fn law_call_return(s: Machine, random: u8)
    requires
        s.wf(),
        s.sp < 16,
        s.pc + 1 < 4096,
        model::op_family(model::word_at(s, s.pc as int)) == 0x2,
        model::op_nnn(model::word_at(s, s.pc as int)) + 1 < 4096,
        model::op_family(
            model::word_at(s, model::op_nnn(model::word_at(s, s.pc as int)) as int),
        ) == 0x0,
        model::op_n(model::word_at(s, model::op_nnn(model::word_at(s, s.pc as int)) as int))
            == 0xE,
    ensures
        model::step(s, random) is Ok,
        model::step(s, random).unwrap().pc == model::op_nnn(model::word_at(s, s.pc as int)),
        model::step(s, random).unwrap().sp == s.sp + 1,
        model::step(model::step(s, random).unwrap(), random) is Ok,
        model::step(model::step(s, random).unwrap(), random).unwrap().pc == s.pc + 2,
        model::step(model::step(s, random).unwrap(), random).unwrap().sp == s.sp,
{
    let t = model::step(s, random).unwrap();
    assert(t.memory == s.memory);
}

/// Whether an instruction word is Fx15, which sets the delay timer.
pub open spec fn sets_delay(opcode: u16) -> bool {
    model::op_family(opcode) >= 0xE && model::op_kk(opcode) == 0x15
}

/// Whether an instruction word is Fx18, which sets the sound timer.
pub open spec fn sets_sound(opcode: u16) -> bool {
    model::op_family(opcode) >= 0xE && model::op_kk(opcode) == 0x18
}

/// A timer after one more step of counting down.
pub open spec fn counted_down(timer: u8) -> u8 {
    if timer > 0 { (timer - 1) as u8 } else { 0u8 }
}

/// Every step that completes lowers each timer by one, and never below
/// zero, unless the instruction was the one that sets that timer.
pub proof fn law_timers(s: Machine, random: u8)
    requires
        s.wf(),
        model::step(s, random) is Ok,
    ensures
        !sets_delay(model::word_at(s, s.pc as int)) ==> model::step(s, random).unwrap().delay_timer
            == counted_down(s.delay_timer),
        !sets_sound(model::word_at(s, s.pc as int)) ==> model::step(s, random).unwrap().sound_timer
            == counted_down(s.sound_timer),
{
}

/// A timer that a step sets is one below the register it was set from,
/// unless that was zero.
pub proof fn law_timer_set(s: Machine, random: u8)
    requires
        s.wf(),
        s.pc + 1 < 4096,
    ensures
        model::step(s, random) is Ok && sets_delay(model::word_at(s, s.pc as int))
            ==> model::step(s, random).unwrap().delay_timer == counted_down(
            s.registers[model::op_x(model::word_at(s, s.pc as int))],
        ),
        model::step(s, random) is Ok && sets_sound(model::word_at(s, s.pc as int))
            ==> model::step(s, random).unwrap().sound_timer == counted_down(
            s.registers[model::op_x(model::word_at(s, s.pc as int))],
        ),
{
}

/// Whether an instruction word is Fx0A, which waits for a key.
pub open spec fn is_wait_key(opcode: u16) -> bool {
    model::op_family(opcode) >= 0xE && model::op_kk(opcode) == 0x0A
}

/// A step at Fx0A with no key down leaves the program counter, the memory,
/// the registers and the keys as they were, so that the next step meets the
/// same instruction again.
pub proof fn law_wait_key_stalls(s: Machine, random: u8)
    requires
        s.wf(),
        s.pc + 1 < 4096,
        is_wait_key(model::word_at(s, s.pc as int)),
        model::none_down_below(s.keypad, 16),
    ensures
        model::step(s, random) == Ok::<Machine, Fault>(
            model::tick(Machine { opcode: model::word_at(s, s.pc as int), ..s }),
        ),
        model::step(s, random).unwrap().pc == s.pc,
        is_wait_key(
            model::word_at(model::step(s, random).unwrap(), model::step(s, random).unwrap().pc as int),
        ),
{
}

/// However many steps are taken at Fx0A while no key is down, the program
/// counter stays at the instruction, and memory, registers, stack and
/// screen stay as they were.
pub proof fn law_wait_key_stalls_for_ever(s: Machine, randoms: Seq<u8>)
    requires
        s.wf(),
        s.pc + 1 < 4096,
        is_wait_key(model::word_at(s, s.pc as int)),
        model::none_down_below(s.keypad, 16),
    ensures
        model::run(s, randoms) is Ok,
        model::run(s, randoms).unwrap().wf(),
        model::run(s, randoms).unwrap().pc == s.pc,
        model::run(s, randoms).unwrap().memory == s.memory,
        model::run(s, randoms).unwrap().registers == s.registers,
        model::run(s, randoms).unwrap().keypad == s.keypad,
        model::run(s, randoms).unwrap().stack == s.stack,
        model::run(s, randoms).unwrap().sp == s.sp,
        model::run(s, randoms).unwrap().index == s.index,
        model::run(s, randoms).unwrap().video == s.video,
    decreases randoms.len(),
{
    if randoms.len() > 0 {
        law_wait_key_stalls_for_ever(s, randoms.drop_last());
        let t = model::run(s, randoms.drop_last()).unwrap();
        law_wait_key_stalls(t, randoms.last());
    }
}

/// A step at Fx0A with key `k` the lowest one down moves the program counter
/// past the instruction and leaves `k` in register `x`.
pub proof fn law_wait_key_proceeds(s: Machine, random: u8, k: int)
    requires
        s.wf(),
        s.pc + 1 < 4096,
        is_wait_key(model::word_at(s, s.pc as int)),
        model::lowest_down(s.keypad, k),
    ensures
        model::step(s, random) is Ok,
        model::step(s, random).unwrap().pc == s.pc + 2,
        model::step(s, random).unwrap().reg(model::op_x(model::word_at(s, s.pc as int))) == k,
{
    let l = model::lowest_key(s.keypad);
    assert(s.keypad[k]);
    assert(model::lowest_down(s.keypad, l));
    assert(s.keypad[l]);
    assert(l == k);
}

/// Storing registers 0 to `x` at the index register and loading the same
/// range back at once gives every register the value it had.
pub proof fn law_store_load(s: Machine, load_opcode: u16)
    requires
        s.wf(),
        s.index + model::op_x(s.opcode) < 4096,
        model::op_x(load_opcode) == model::op_x(s.opcode),
    ensures
        model::store_registers(s) is Ok,
        model::load_registers(
            Machine { opcode: load_opcode, ..model::store_registers(s).unwrap() },
        ) is Ok,
        model::load_registers(
            Machine { opcode: load_opcode, ..model::store_registers(s).unwrap() },
        ).unwrap().registers == s.registers,
{
    let t = Machine { opcode: load_opcode, ..model::store_registers(s).unwrap() };
    assert(model::load_registers(t).unwrap().registers =~= s.registers);
}

/// The byte drawn plays a part in Cxkk alone: a step at any other
/// instruction has one outcome.
pub proof fn law_random_only_matters_for_cxkk(s: Machine, a: u8, b: u8)
    requires
        model::op_family(model::word_at(s, s.pc as int)) != 0xC,
    ensures
        model::step(s, a) == model::step(s, b),
{
}

/// Whatever byte is drawn, Cxkk leaves in register `x` no bit that `kk`
/// lacks.
pub proof fn law_random_is_masked(s: Machine, random: u8)
    requires
        s.wf(),
    ensures
        model::random_masked(s, random).registers[model::op_x(s.opcode)] & !model::op_kk(s.opcode)
            == 0,
{
    let r = model::random_masked(s, random).registers[model::op_x(s.opcode)];
    let kk = model::op_kk(s.opcode);
    assert(r & !kk == 0) by (bit_vector)
        requires
            r == random & kk,
    ;
}

/// A step that completes leaves a machine of the same shape: at most
/// sixteen live frames and every pixel dark or lit.
pub proof fn law_step_keeps_shape(s: Machine, random: u8)
    requires
        s.wf(),
        model::step(s, random) is Ok,
    ensures
        model::step(s, random).unwrap().wf(),
{
}

} // verus!
