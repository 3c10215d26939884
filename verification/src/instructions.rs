use vstd::prelude::*;

verus! {

/// A twelve-bit address, held as the three nibbles it was decoded from.
#[derive(Clone, Copy, Debug, PartialEq, Eq, Structural)]
pub struct Address {
    pub high: u8,
    pub middle: u8,
    pub low: u8,
}

/// One uppercase hexadecimal digit.
pub open spec fn hex_digit(d: nat) -> char {
    if d < 10 {
        (48 + d) as char
    } else {
        (55 + d) as char
    }
}

/// The uppercase hexadecimal numeral of `n`, without leading zeros.
pub open spec fn hex_digits(n: nat) -> Seq<char>
    decreases n,
{
    if n < 16 {
        seq![hex_digit(n)]
    } else {
        hex_digits(n / 16).push(hex_digit(n % 16))
    }
}

/// Formats `value` with std's `format!` and the specifier `{:#X}`.
/// Trusted: the result is taken to be `0x` followed by the uppercase
/// hexadecimal numeral of `value` without leading zeros, which is what
/// `core::fmt::UpperHex` documents for an unsigned integer in its alternate
/// form.
#[verifier::external_body]
fn format_upper_hex(value: u16) -> (text: String)
    ensures
        text@ == seq!['0', 'x'] + hex_digits(value as nat),
{
    format!("{:#X}", value)
}

impl Address {
    /// Each of the three fields is a nibble.
    pub open spec fn wf(&self) -> bool {
        self.high < 16 && self.middle < 16 && self.low < 16
    }

    /// The number the address stands for: `high` holds bits 11-8, `middle`
    /// bits 7-4 and `low` bits 3-0.
    pub open spec fn value(&self) -> int {
        self.high * 256 + self.middle * 16 + self.low
    }

    pub fn to_u16(&self) -> (address: u16)
        requires
            self.wf(),
        ensures
            address == self.value(),
            address < 4096,
    {
        let high = self.high as u16;
        let middle = self.middle as u16;
        assert(high << 8 == high * 256) by (bit_vector)
            requires
                high < 16,
        ;
        assert(middle << 4 == middle * 16) by (bit_vector)
            requires
                middle < 16,
        ;
        (high << 8) + (middle << 4) + self.low as u16
    }

    /// The address as text: `0x` and its uppercase hexadecimal numeral.
    pub fn to_hex_string(&self) -> (text: String)
        requires
            self.wf(),
        ensures
            text@ == seq!['0', 'x'] + hex_digits(self.value() as nat),
    {
        format_upper_hex(self.to_u16())
    }
}

/// One decoded operation. Register operands index the sixteen general
/// registers; `Invalid` stands for every word that is no operation.
#[derive(Clone, Copy, Debug, PartialEq, Eq, Structural)]
pub enum Instruction {
    Invalid,
    /// 0x00E0 - CLS
    Clear,
    /// 0x00EE - RET
    Return,
    /// 0x1nnn - JP addr
    JumpTo(Address),
    /// 0x2nnn - CALL addr
    Call(Address),
    /// 0x3xkk - SE Vx, byte
    SkipIfEqualByte { vx: usize, byte: u8 },
    /// 0x4xkk - SNE Vx, byte
    SkipIfNotEqualByte { vx: usize, byte: u8 },
    /// 0x5xy0 - SE Vx, Vy
    SkipIfEqualReg { vx: usize, vy: usize },
    /// 0x6xkk - LD Vx, byte
    LoadByte { vx: usize, byte: u8 },
    /// 0x7xkk - ADD Vx, byte
    AddByte { vx: usize, byte: u8 },
    /// 0x8xy0 - LD Vx, Vy
    LoadReg { vx: usize, vy: usize },
    /// 0x8xy1 - OR Vx, Vy
    Or { vx: usize, vy: usize },
    /// 0x8xy2 - AND Vx, Vy
    And { vx: usize, vy: usize },
    /// 0x8xy3 - XOR Vx, Vy
    Xor { vx: usize, vy: usize },
    /// 0x8xy4 - ADD Vx, Vy
    AddReg { vx: usize, vy: usize },
    /// 0x8xy5 - SUB Vx, Vy
    Subtract { vx: usize, vy: usize },
    /// 0x8xy6 - SHR Vx {, Vy}
    ShiftRight { vx: usize },
    /// 0x8xy7 - SUBN Vx, Vy
    SubtractReverse { vx: usize, vy: usize },
    /// 0x8xyE - SHL Vx {, Vy}
    ShiftLeft { vx: usize },
    /// 0x9xy0 - SNE Vx, Vy
    SkipIfNotEqualReg { vx: usize, vy: usize },
    /// 0xAnnn - LD I, addr
    LoadAddress(Address),
    /// 0xBnnn - JP V0, addr
    JumpOffset(Address),
    /// 0xCxkk - RND Vx, byte
    Random { vx: usize, byte: u8 },
    /// 0xDxyn - DRW Vx, Vy, nibble
    Draw { vx: usize, vy: usize, nibble: u8 },
    /// 0xEx9E - SKP Vx
    SkipIfKeyPressed { vx: usize },
    /// 0xExA1 - SKNP Vx
    SkipIfNotKeyPressed { vx: usize },
    /// 0xFx07 - LD Vx, DT
    LoadDelay { vx: usize },
    /// 0xFx0A - LD Vx, K
    LoadKeyPressed { vx: usize },
    /// 0xFx15 - LD DT, Vx
    SetDelay { vx: usize },
    /// 0xFx18 - LD ST, Vx
    SetSound { vx: usize },
    /// 0xFx1E - ADD I, Vx
    AddAddressOffset { vx: usize },
    /// 0xFx29 - LD F, Vx
    LoadSprite { vx: usize },
    /// 0xFx33 - LD B, Vx
    SetBCD { vx: usize },
    /// 0xFx55 - LD [I], Vx
    LoadRegisters { vx: usize },
    /// 0xFx65 - LD Vx, [I]
    ReadRegisters { vx: usize },
}

impl Instruction {
    /// Every register operand names one of the sixteen registers, every
    /// address is twelve bits wide and a sprite height is a nibble.
    pub open spec fn wf(&self) -> bool {
        match *self {
            Instruction::Invalid | Instruction::Clear | Instruction::Return => true,
            Instruction::JumpTo(addr)
            | Instruction::Call(addr)
            | Instruction::LoadAddress(addr)
            | Instruction::JumpOffset(addr) => addr.wf(),
            Instruction::SkipIfEqualByte { vx, .. }
            | Instruction::SkipIfNotEqualByte { vx, .. }
            | Instruction::LoadByte { vx, .. }
            | Instruction::AddByte { vx, .. }
            | Instruction::Random { vx, .. }
            | Instruction::ShiftRight { vx }
            | Instruction::ShiftLeft { vx }
            | Instruction::SkipIfKeyPressed { vx }
            | Instruction::SkipIfNotKeyPressed { vx }
            | Instruction::LoadDelay { vx }
            | Instruction::LoadKeyPressed { vx }
            | Instruction::SetDelay { vx }
            | Instruction::SetSound { vx }
            | Instruction::AddAddressOffset { vx }
            | Instruction::LoadSprite { vx }
            | Instruction::SetBCD { vx }
            | Instruction::LoadRegisters { vx }
            | Instruction::ReadRegisters { vx } => vx < 16,
            Instruction::SkipIfEqualReg { vx, vy }
            | Instruction::LoadReg { vx, vy }
            | Instruction::Or { vx, vy }
            | Instruction::And { vx, vy }
            | Instruction::Xor { vx, vy }
            | Instruction::AddReg { vx, vy }
            | Instruction::Subtract { vx, vy }
            | Instruction::SubtractReverse { vx, vy }
            | Instruction::SkipIfNotEqualReg { vx, vy } => vx < 16 && vy < 16,
            Instruction::Draw { vx, vy, nibble } => vx < 16 && vy < 16 && nibble < 16,
        }
    }
}

} // verus!
