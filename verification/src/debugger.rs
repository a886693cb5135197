//! A one-line trace of the instruction the machine is at: its mnemonic and
//! operands, written from the four hexadecimal digits of the instruction
//! word.

use vstd::prelude::*;
use vstd::string::StringExecFns;
use crate::chip::Chip;

verus! {

/// The text of the instruction last traced.
pub struct CpuState {
    pub mnemonic: String,
}

/// The upper-case hexadecimal digit for a value below sixteen.
pub open spec fn hex_char(d: int) -> char {
    if d == 0 {
        '0'
    } else if d == 1 {
        '1'
    } else if d == 2 {
        '2'
    } else if d == 3 {
        '3'
    } else if d == 4 {
        '4'
    } else if d == 5 {
        '5'
    } else if d == 6 {
        '6'
    } else if d == 7 {
        '7'
    } else if d == 8 {
        '8'
    } else if d == 9 {
        '9'
    } else if d == 10 {
        'A'
    } else if d == 11 {
        'B'
    } else if d == 12 {
        'C'
    } else if d == 13 {
        'D'
    } else if d == 14 {
        'E'
    } else {
        'F'
    }
}

/// A number in upper-case hexadecimal, without leading zeros.
pub open spec fn hex_text(v: nat) -> Seq<char>
    decreases v,
{
    if v < 16 {
        seq![hex_char(v as int)]
    } else {
        hex_text(v / 16).push(hex_char((v % 16) as int))
    }
}

/// Three digits in a row: an address.
pub open spec fn address_text(d2: u16, d3: u16, d4: u16) -> Seq<char> {
    hex_text(d2 as nat) + hex_text(d3 as nat) + hex_text(d4 as nat)
}

/// A register and a byte.
pub open spec fn register_byte_text(d2: u16, d3: u16, d4: u16) -> Seq<char> {
    "V"@ + hex_text(d2 as nat) + ", "@ + hex_text(d3 as nat) + hex_text(d4 as nat)
}

/// Two registers.
pub open spec fn register_pair_text(d2: u16, d3: u16) -> Seq<char> {
    "V"@ + hex_text(d2 as nat) + ", V"@ + hex_text(d3 as nat)
}

/// The mnemonic of family 8, padded to the column of its operands.
pub open spec fn arithmetic_name(d4: u16) -> Option<Seq<char>> {
    if d4 == 0 {
        Some("LD    "@)
    } else if d4 == 1 {
        Some("OR    "@)
    } else if d4 == 2 {
        Some("AND   "@)
    } else if d4 == 3 {
        Some("XOR   "@)
    } else if d4 == 4 {
        Some("ADD   "@)
    } else if d4 == 5 {
        Some("SUB   "@)
    } else if d4 == 6 {
        Some("SHR   "@)
    } else if d4 == 7 {
        Some("SUBN  "@)
    } else if d4 == 0xE {
        Some("SHL  "@)
    } else {
        None
    }
}

/// The text of the instructions of family F, by their last two digits.
pub open spec fn register_transfer_text(d2: u16, d3: u16, d4: u16) -> Option<Seq<char>> {
    let vx = "V"@ + hex_text(d2 as nat);
    if d3 == 0 && d4 == 7 {
        Some("LD    "@ + vx + ", DT"@)
    } else if d3 == 0 && d4 == 0xA {
        Some("LD    "@ + vx + ", K"@)
    } else if d3 == 1 && d4 == 5 {
        Some("LD    DT, "@ + vx)
    } else if d3 == 1 && d4 == 8 {
        Some("LD    ST, "@ + vx)
    } else if d3 == 1 && d4 == 0xE {
        Some("ADD   I, "@ + vx)
    } else if d3 == 2 && d4 == 9 {
        Some("LD    F, "@ + vx)
    } else if d3 == 3 && d4 == 3 {
        Some("LD    B, "@ + vx)
    } else if d3 == 5 && d4 == 5 {
        Some("LD    [I], "@ + vx)
    } else if d3 == 6 && d4 == 5 {
        Some("LD    "@ + vx + ", [I]"@)
    } else {
        None
    }
}

/// The text of the instruction whose word has the digits `d1` to `d4`, the
/// highest first; none where the digits make no instruction.
pub open spec fn mnemonic_text(d1: u16, d2: u16, d3: u16, d4: u16) -> Option<Seq<char>> {
    if d1 == 0 {
        if d4 == 0xE {
            Some("RET"@)
        } else {
            Some("CLR"@)
        }
    } else if d1 == 1 {
        Some("JMP   "@ + address_text(d2, d3, d4))
    } else if d1 == 2 {
        Some("CALL  "@ + address_text(d2, d3, d4))
    } else if d1 == 3 {
        Some("SE    "@ + register_byte_text(d2, d3, d4))
    } else if d1 == 4 {
        Some("SNE   "@ + register_byte_text(d2, d3, d4))
    } else if d1 == 5 {
        Some("SE    "@ + register_pair_text(d2, d3))
    } else if d1 == 6 {
        Some("LD    "@ + register_byte_text(d2, d3, d4))
    } else if d1 == 7 {
        Some("ADD   "@ + register_byte_text(d2, d3, d4))
    } else if d1 == 8 {
        match arithmetic_name(d4) {
            Some(name) => Some(name + register_pair_text(d2, d3)),
            None => None,
        }
    } else if d1 == 9 {
        Some("SNE  "@ + register_pair_text(d2, d3))
    } else if d1 == 0xA {
        Some("LD    I, "@ + address_text(d2, d3, d4))
    } else if d1 == 0xB {
        Some("JP    V0, "@ + address_text(d2, d3, d4))
    } else if d1 == 0xC {
        Some("RND   "@ + register_byte_text(d2, d3, d4))
    } else if d1 == 0xD {
        Some("DRW   "@ + register_pair_text(d2, d3) + ", "@ + hex_text(d4 as nat))
    } else if d1 == 0xE {
        if d3 == 9 && d4 == 0xE {
            Some("SKP   V"@ + hex_text(d2 as nat))
        } else if d3 == 0xA && d4 == 1 {
            Some("SKNP  V"@ + hex_text(d2 as nat))
        } else {
            None
        }
    } else if d1 == 0xF {
        register_transfer_text(d2, d3, d4)
    } else {
        None
    }
}

/// The line of a trace: a zero, the program counter in hexadecimal, a colon
/// and the instruction's text.
pub open spec fn trace_line(pc: u16, text: Seq<char>) -> Seq<char> {
    "0"@ + hex_text(pc as nat) + ": "@ + text
}

impl CpuState {
    /// A record with no instruction traced yet.
    pub fn new() -> (state: CpuState)
        ensures
            state.mnemonic@ == Seq::<char>::empty(),
    {
        CpuState { mnemonic: String::new() }
    }

    /// Records the text of the instruction with the digits `d1` to `d4` and
    /// returns the trace line for it at the machine's program counter. Where
    /// the digits make no instruction nothing is recorded and no line
    /// returned.
    pub fn show_cpu_state(
        &mut self,
        chip: &Chip,
        digit1: u16,
        digit2: u16,
        digit3: u16,
        digit4: u16,
    ) -> (line: Option<String>)
        ensures
            match line {
                Some(l) => {
                    &&& mnemonic_text(digit1, digit2, digit3, digit4) == Some(
                        final(self).mnemonic@,
                    )
                    &&& l@ == trace_line(chip.pc, final(self).mnemonic@)
                },
                None => {
                    &&& mnemonic_text(digit1, digit2, digit3, digit4) is None
                    &&& final(self).mnemonic@ == old(self).mnemonic@
                },
            },
    {
        match disassemble(digit1, digit2, digit3, digit4) {
            Some(text) => {
                let mut line = String::from_str("0");
                push_hex(&mut line, chip.pc);
                line.append(": ");
                line.append(text.as_str());
                self.mnemonic = text;
                Some(line)
            },
            None => None,
        }
    }
}

/// The text of the instruction whose word has the digits `d1` to `d4`.
pub fn disassemble(d1: u16, d2: u16, d3: u16, d4: u16) -> (text: Option<String>)
    ensures
        match text {
            Some(t) => mnemonic_text(d1, d2, d3, d4) == Some(t@),
            None => mnemonic_text(d1, d2, d3, d4) is None,
        },
{
    let mut text = String::new();
    assert(text@ + "RET"@ =~= "RET"@);
    assert(text@ + "CLR"@ =~= "CLR"@);
    match d1 {
        0x0 => {
            if d4 == 0xE {
                text.append("RET");
            } else {
                text.append("CLR");
            }
        },
        0x1 => {
            text.append("JMP   ");
            push_address(&mut text, d2, d3, d4);
        },
        0x2 => {
            text.append("CALL  ");
            push_address(&mut text, d2, d3, d4);
        },
        0x3 => {
            text.append("SE    ");
            push_register_byte(&mut text, d2, d3, d4);
        },
        0x4 => {
            text.append("SNE   ");
            push_register_byte(&mut text, d2, d3, d4);
        },
        0x5 => {
            text.append("SE    ");
            push_register_pair(&mut text, d2, d3);
        },
        0x6 => {
            text.append("LD    ");
            push_register_byte(&mut text, d2, d3, d4);
        },
        0x7 => {
            text.append("ADD   ");
            push_register_byte(&mut text, d2, d3, d4);
        },
        0x8 => {
            match d4 {
                0x0 => text.append("LD    "),
                0x1 => text.append("OR    "),
                0x2 => text.append("AND   "),
                0x3 => text.append("XOR   "),
                0x4 => text.append("ADD   "),
                0x5 => text.append("SUB   "),
                0x6 => text.append("SHR   "),
                0x7 => text.append("SUBN  "),
                0xE => text.append("SHL  "),
                _ => {
                    return None;
                },
            }
            push_register_pair(&mut text, d2, d3);
        },
        0x9 => {
            text.append("SNE  ");
            push_register_pair(&mut text, d2, d3);
        },
        0xA => {
            text.append("LD    I, ");
            push_address(&mut text, d2, d3, d4);
        },
        0xB => {
            text.append("JP    V0, ");
            push_address(&mut text, d2, d3, d4);
        },
        0xC => {
            text.append("RND   ");
            push_register_byte(&mut text, d2, d3, d4);
        },
        0xD => {
            text.append("DRW   ");
            push_register_pair(&mut text, d2, d3);
            text.append(", ");
            push_hex(&mut text, d4);
        },
        0xE => {
            if d3 == 9 && d4 == 0xE {
                text.append("SKP   V");
            } else if d3 == 0xA && d4 == 1 {
                text.append("SKNP  V");
            } else {
                return None;
            }
            push_hex(&mut text, d2);
        },
        0xF => {
            if d3 == 0 && d4 == 7 {
                text.append("LD    ");
                push_register(&mut text, d2);
                text.append(", DT");
            } else if d3 == 0 && d4 == 0xA {
                text.append("LD    ");
                push_register(&mut text, d2);
                text.append(", K");
            } else if d3 == 1 && d4 == 5 {
                text.append("LD    DT, ");
                push_register(&mut text, d2);
            } else if d3 == 1 && d4 == 8 {
                text.append("LD    ST, ");
                push_register(&mut text, d2);
            } else if d3 == 1 && d4 == 0xE {
                text.append("ADD   I, ");
                push_register(&mut text, d2);
            } else if d3 == 2 && d4 == 9 {
                text.append("LD    F, ");
                push_register(&mut text, d2);
            } else if d3 == 3 && d4 == 3 {
                text.append("LD    B, ");
                push_register(&mut text, d2);
            } else if d3 == 5 && d4 == 5 {
                text.append("LD    [I], ");
                push_register(&mut text, d2);
            } else if d3 == 6 && d4 == 5 {
                text.append("LD    ");
                push_register(&mut text, d2);
                text.append(", [I]");
            } else {
                return None;
            }
        },
        _ => {
            return None;
        },
    }
    assert(mnemonic_text(d1, d2, d3, d4) is Some);
    assert(text@ =~= mnemonic_text(d1, d2, d3, d4).unwrap());
    Some(text)
}

/// Appends a register's name: `V` and its number.
fn push_register(text: &mut String, d: u16)
    ensures
        final(text)@ == old(text)@ + ("V"@ + hex_text(d as nat)),
{
    text.append("V");
    push_hex(text, d);
    assert(text@ =~= old(text)@ + ("V"@ + hex_text(d as nat)));
}

/// Appends three digits in a row.
fn push_address(text: &mut String, d2: u16, d3: u16, d4: u16)
    ensures
        final(text)@ == old(text)@ + address_text(d2, d3, d4),
{
    push_hex(text, d2);
    push_hex(text, d3);
    push_hex(text, d4);
    assert(text@ =~= old(text)@ + address_text(d2, d3, d4));
}

/// Appends a register and a byte.
fn push_register_byte(text: &mut String, d2: u16, d3: u16, d4: u16)
    ensures
        final(text)@ == old(text)@ + register_byte_text(d2, d3, d4),
{
    text.append("V");
    push_hex(text, d2);
    text.append(", ");
    push_hex(text, d3);
    push_hex(text, d4);
    assert(text@ =~= old(text)@ + register_byte_text(d2, d3, d4));
}

/// Appends two registers.
fn push_register_pair(text: &mut String, d2: u16, d3: u16)
    ensures
        final(text)@ == old(text)@ + register_pair_text(d2, d3),
{
    text.append("V");
    push_hex(text, d2);
    text.append(", V");
    push_hex(text, d3);
    assert(text@ =~= old(text)@ + register_pair_text(d2, d3));
}

/// Appends a number in upper-case hexadecimal, without leading zeros.
fn push_hex(text: &mut String, value: u16)
    ensures
        final(text)@ == old(text)@ + hex_text(value as nat),
    decreases value,
{
    if value >= 16 {
        push_hex(text, value / 16);
    }
    text.append(hex_digit(value % 16));
    proof {
        if value >= 16 {
            assert(text@ =~= old(text)@ + hex_text((value / 16) as nat).push(
                hex_char((value % 16) as int),
            ));
        } else {
            assert(text@ =~= old(text)@ + seq![hex_char(value as int)]);
        }
    }
}

/// The upper-case hexadecimal digit for a value below sixteen.
fn hex_digit(d: u16) -> (digit: &'static str)
    requires
        d < 16,
    ensures
        digit@ == seq![hex_char(d as int)],
{
    proof {
        reveal_strlit("0");
        reveal_strlit("1");
        reveal_strlit("2");
        reveal_strlit("3");
        reveal_strlit("4");
        reveal_strlit("5");
        reveal_strlit("6");
        reveal_strlit("7");
        reveal_strlit("8");
        reveal_strlit("9");
        reveal_strlit("A");
        reveal_strlit("B");
        reveal_strlit("C");
        reveal_strlit("D");
        reveal_strlit("E");
        reveal_strlit("F");
    }
    let digit = match d {
        0 => "0",
        1 => "1",
        2 => "2",
        3 => "3",
        4 => "4",
        5 => "5",
        6 => "6",
        7 => "7",
        8 => "8",
        9 => "9",
        10 => "A",
        11 => "B",
        12 => "C",
        13 => "D",
        14 => "E",
        _ => "F",
    };
    assert(digit@ =~= seq![hex_char(d as int)]);
    digit
}

} // verus!
