use vstd::prelude::*;

verus! {

/// A fatal condition that stops the machine.
#[derive(Clone, Copy, Debug, PartialEq, Eq, Structural)]
pub enum Chip8Error {
    /// The instruction word matches no known opcode pattern.
    UnknownOpcode(u16),
    /// A memory, stack, key or program-counter access falls outside its bounds.
    OutOfRange,
}

/// One decoded instruction. Register operands are 4-bit indices, `nn` is a
/// byte and `nnn` a 12-bit address.
#[derive(Clone, Copy, Debug, PartialEq, Eq, Structural)]
pub enum Operation {
    /// `0nnn` that is none of the screen or return opcodes: does nothing.
    Sys,
    /// `00Cn`: scroll the screen down by `n` rows.
    ScrollDown(u8),
    /// `00E0`: clear the screen.
    Clear,
    /// `00EE`: return from a subroutine.
    Return,
    /// `00FB`: scroll the screen right by four columns.
    ScrollRight,
    /// `00FC`: scroll the screen left by four columns.
    ScrollLeft,
    /// `00FE`: low-resolution mode.
    LowRes,
    /// `00FF`: high-resolution mode.
    HighRes,
    /// `1nnn`: jump.
    Jump(u16),
    /// `2nnn`: call a subroutine.
    Call(u16),
    /// `3xnn`: skip if `vx == nn`.
    SkipEqImm(u8, u8),
    /// `4xnn`: skip if `vx != nn`.
    SkipNeImm(u8, u8),
    /// `5xy_`: skip if `vx == vy`.
    SkipEqReg(u8, u8),
    /// `6xnn`: `vx = nn`.
    LoadImm(u8, u8),
    /// `7xnn`: `vx += nn`, wrapping, flag untouched.
    AddImm(u8, u8),
    /// `8xy0`: `vx = vy`.
    Assign(u8, u8),
    /// `8xy1`: `vx |= vy`.
    Or(u8, u8),
    /// `8xy2`: `vx &= vy`.
    And(u8, u8),
    /// `8xy3`: `vx ^= vy`.
    Xor(u8, u8),
    /// `8xy4`: `vx += vy`, carry into `vF`.
    AddReg(u8, u8),
    /// `8xy5`: `vx -= vy`, `vF = 1` when no borrow.
    SubReg(u8, u8),
    /// `8xy6`: shift right, the shifted-out bit into `vF`.
    ShiftRight(u8, u8),
    /// `8xy7`: `vx = vy - vx`, `vF = 1` when no borrow.
    SubnReg(u8, u8),
    /// `8xyE`: shift left, the shifted-out bit into `vF`.
    ShiftLeft(u8, u8),
    /// `9xy0`: skip if `vx != vy`.
    SkipNeReg(u8, u8),
    /// `Annn`: `index = nnn`.
    LoadIndex(u16),
    /// `Bnnn`: jump to `nnn` plus a register.
    JumpOffset(u16),
    /// `Cxnn`: `vx` = a random byte masked by `nn`.
    Random(u8, u8),
    /// `Dxyn`: draw a sprite of `n` rows at `(vx, vy)`.
    Draw(u8, u8, u8),
    /// `Ex9E`: skip if key `vx` is pressed.
    SkipKey(u8),
    /// `ExA1`: skip if key `vx` is not pressed.
    SkipNoKey(u8),
    /// `Fx07`: `vx = delay`.
    ReadDelay(u8),
    /// `Fx0A`: wait for a key press and store its index in `vx`.
    WaitKey(u8),
    /// `Fx15`: `delay = vx`.
    SetDelay(u8),
    /// `Fx18`: `sound = vx`.
    SetSound(u8),
    /// `Fx1E`: `index += vx`.
    AddIndex(u8),
    /// `Fx29`: point the index at the small glyph of digit `vx`.
    Glyph(u8),
    /// `Fx30`: point the index at the large glyph of digit `vx`.
    BigGlyph(u8),
    /// `Fx33`: write the decimal digits of `vx` at the index.
    Bcd(u8),
    /// `Fx55`: store `v0..=vx` at the index.
    Store(u8),
    /// `Fx65`: load `v0..=vx` from the index.
    Load(u8),
    /// `Fx75`: save `v0..=vx` into the flag registers.
    SaveFlags(u8),
    /// `Fx85`: restore `v0..=vx` from the flag registers.
    RestoreFlags(u8),
}

/// The four nibbles of an instruction word, most significant first.
pub open spec fn nibble(op: u16, k: int) -> int {
    if k == 0 {
        op as int / 0x1000
    } else if k == 1 {
        (op as int / 0x100) % 0x10
    } else if k == 2 {
        (op as int / 0x10) % 0x10
    } else {
        op as int % 0x10
    }
}

/// What an instruction word means.
pub open spec fn decode_spec(op: u16) -> Result<Operation, Chip8Error> {
    let a = nibble(op, 0);
    let x = nibble(op, 1) as u8;
    let y = nibble(op, 2) as u8;
    let n = nibble(op, 3);
    let nn = (op % 0x100) as u8;
    let nnn = (op % 0x1000) as u16;
    if a == 0x0 {
        if x == 0 && y == 0xC {
            Ok(Operation::ScrollDown(n as u8))
        } else if op == 0x00E0 {
            Ok(Operation::Clear)
        } else if op == 0x00EE {
            Ok(Operation::Return)
        } else if op == 0x00FB {
            Ok(Operation::ScrollRight)
        } else if op == 0x00FC {
            Ok(Operation::ScrollLeft)
        } else if op == 0x00FE {
            Ok(Operation::LowRes)
        } else if op == 0x00FF {
            Ok(Operation::HighRes)
        } else {
            Ok(Operation::Sys)
        }
    } else if a == 0x1 {
        Ok(Operation::Jump(nnn))
    } else if a == 0x2 {
        Ok(Operation::Call(nnn))
    } else if a == 0x3 {
        Ok(Operation::SkipEqImm(x, nn))
    } else if a == 0x4 {
        Ok(Operation::SkipNeImm(x, nn))
    } else if a == 0x5 {
        Ok(Operation::SkipEqReg(x, y))
    } else if a == 0x6 {
        Ok(Operation::LoadImm(x, nn))
    } else if a == 0x7 {
        Ok(Operation::AddImm(x, nn))
    } else if a == 0x8 {
        if n == 0x0 {
            Ok(Operation::Assign(x, y))
        } else if n == 0x1 {
            Ok(Operation::Or(x, y))
        } else if n == 0x2 {
            Ok(Operation::And(x, y))
        } else if n == 0x3 {
            Ok(Operation::Xor(x, y))
        } else if n == 0x4 {
            Ok(Operation::AddReg(x, y))
        } else if n == 0x5 {
            Ok(Operation::SubReg(x, y))
        } else if n == 0x6 {
            Ok(Operation::ShiftRight(x, y))
        } else if n == 0x7 {
            Ok(Operation::SubnReg(x, y))
        } else if n == 0xE {
            Ok(Operation::ShiftLeft(x, y))
        } else {
            Err(Chip8Error::UnknownOpcode(op))
        }
    } else if a == 0x9 {
        if n == 0 {
            Ok(Operation::SkipNeReg(x, y))
        } else {
            Err(Chip8Error::UnknownOpcode(op))
        }
    } else if a == 0xA {
        Ok(Operation::LoadIndex(nnn))
    } else if a == 0xB {
        Ok(Operation::JumpOffset(nnn))
    } else if a == 0xC {
        Ok(Operation::Random(x, nn))
    } else if a == 0xD {
        Ok(Operation::Draw(x, y, n as u8))
    } else if a == 0xE {
        if nn == 0x9E {
            Ok(Operation::SkipKey(x))
        } else if nn == 0xA1 {
            Ok(Operation::SkipNoKey(x))
        } else {
            Err(Chip8Error::UnknownOpcode(op))
        }
    } else if nn == 0x07 {
        Ok(Operation::ReadDelay(x))
    } else if nn == 0x0A {
        Ok(Operation::WaitKey(x))
    } else if nn == 0x15 {
        Ok(Operation::SetDelay(x))
    } else if nn == 0x18 {
        Ok(Operation::SetSound(x))
    } else if nn == 0x1E {
        Ok(Operation::AddIndex(x))
    } else if nn == 0x29 {
        Ok(Operation::Glyph(x))
    } else if nn == 0x30 {
        Ok(Operation::BigGlyph(x))
    } else if nn == 0x33 {
        Ok(Operation::Bcd(x))
    } else if nn == 0x55 {
        Ok(Operation::Store(x))
    } else if nn == 0x65 {
        Ok(Operation::Load(x))
    } else if nn == 0x75 {
        Ok(Operation::SaveFlags(x))
    } else if nn == 0x85 {
        Ok(Operation::RestoreFlags(x))
    } else {
        Err(Chip8Error::UnknownOpcode(op))
    }
}

/// Register operands of a decoded instruction are valid register indices.
pub open spec fn operands_in_range(o: Operation) -> bool {
    match o {
        Operation::ScrollDown(n) => n < 16,
        Operation::Jump(a) | Operation::Call(a) | Operation::LoadIndex(a) | Operation::JumpOffset(
            a,
        ) => a < 0x1000,
        Operation::SkipEqImm(x, _) | Operation::SkipNeImm(x, _) | Operation::LoadImm(x, _)
        | Operation::AddImm(x, _) | Operation::Random(x, _) => x < 16,
        Operation::SkipEqReg(x, y) | Operation::Assign(x, y) | Operation::Or(x, y) | Operation::And(
            x,
            y,
        ) | Operation::Xor(x, y) | Operation::AddReg(x, y) | Operation::SubReg(x, y)
        | Operation::ShiftRight(x, y) | Operation::SubnReg(x, y) | Operation::ShiftLeft(x, y)
        | Operation::SkipNeReg(x, y) => x < 16 && y < 16,
        Operation::Draw(x, y, n) => x < 16 && y < 16 && n < 16,
        Operation::SkipKey(x) | Operation::SkipNoKey(x) | Operation::ReadDelay(x)
        | Operation::WaitKey(x) | Operation::SetDelay(x) | Operation::SetSound(x)
        | Operation::AddIndex(x) | Operation::Glyph(x) | Operation::BigGlyph(x) | Operation::Bcd(x)
        | Operation::Store(x) | Operation::Load(x) | Operation::SaveFlags(x)
        | Operation::RestoreFlags(x) => x < 16,
        _ => true,
    }
}

/// Splits an instruction word into its operation and operands.
pub fn decode(op: u16) -> (r: Result<Operation, Chip8Error>)
    ensures
        r == decode_spec(op),
        r matches Ok(o) ==> operands_in_range(o),
{
    let a = op / 0x1000;
    let x = ((op / 0x100) % 0x10) as u8;
    let y = ((op / 0x10) % 0x10) as u8;
    let n = (op % 0x10) as u8;
    let nn = (op % 0x100) as u8;
    let nnn = op % 0x1000;
    if a == 0x0 {
        if x == 0 && y == 0xC {
            Ok(Operation::ScrollDown(n))
        } else if op == 0x00E0 {
            Ok(Operation::Clear)
        } else if op == 0x00EE {
            Ok(Operation::Return)
        } else if op == 0x00FB {
            Ok(Operation::ScrollRight)
        } else if op == 0x00FC {
            Ok(Operation::ScrollLeft)
        } else if op == 0x00FE {
            Ok(Operation::LowRes)
        } else if op == 0x00FF {
            Ok(Operation::HighRes)
        } else {
            Ok(Operation::Sys)
        }
    } else if a == 0x1 {
        Ok(Operation::Jump(nnn))
    } else if a == 0x2 {
        Ok(Operation::Call(nnn))
    } else if a == 0x3 {
        Ok(Operation::SkipEqImm(x, nn))
    } else if a == 0x4 {
        Ok(Operation::SkipNeImm(x, nn))
    } else if a == 0x5 {
        Ok(Operation::SkipEqReg(x, y))
    } else if a == 0x6 {
        Ok(Operation::LoadImm(x, nn))
    } else if a == 0x7 {
        Ok(Operation::AddImm(x, nn))
    } else if a == 0x8 {
        match n {
            0x0 => Ok(Operation::Assign(x, y)),
            0x1 => Ok(Operation::Or(x, y)),
            0x2 => Ok(Operation::And(x, y)),
            0x3 => Ok(Operation::Xor(x, y)),
            0x4 => Ok(Operation::AddReg(x, y)),
            0x5 => Ok(Operation::SubReg(x, y)),
            0x6 => Ok(Operation::ShiftRight(x, y)),
            0x7 => Ok(Operation::SubnReg(x, y)),
            0xE => Ok(Operation::ShiftLeft(x, y)),
            _ => Err(Chip8Error::UnknownOpcode(op)),
        }
    } else if a == 0x9 {
        if n == 0 {
            Ok(Operation::SkipNeReg(x, y))
        } else {
            Err(Chip8Error::UnknownOpcode(op))
        }
    } else if a == 0xA {
        Ok(Operation::LoadIndex(nnn))
    } else if a == 0xB {
        Ok(Operation::JumpOffset(nnn))
    } else if a == 0xC {
        Ok(Operation::Random(x, nn))
    } else if a == 0xD {
        Ok(Operation::Draw(x, y, n))
    } else if a == 0xE {
        if nn == 0x9E {
            Ok(Operation::SkipKey(x))
        } else if nn == 0xA1 {
            Ok(Operation::SkipNoKey(x))
        } else {
            Err(Chip8Error::UnknownOpcode(op))
        }
    } else {
        match nn {
            0x07 => Ok(Operation::ReadDelay(x)),
            0x0A => Ok(Operation::WaitKey(x)),
            0x15 => Ok(Operation::SetDelay(x)),
            0x18 => Ok(Operation::SetSound(x)),
            0x1E => Ok(Operation::AddIndex(x)),
            0x29 => Ok(Operation::Glyph(x)),
            0x30 => Ok(Operation::BigGlyph(x)),
            0x33 => Ok(Operation::Bcd(x)),
            0x55 => Ok(Operation::Store(x)),
            0x65 => Ok(Operation::Load(x)),
            0x75 => Ok(Operation::SaveFlags(x)),
            0x85 => Ok(Operation::RestoreFlags(x)),
            _ => Err(Chip8Error::UnknownOpcode(op)),
        }
    }
}

} // verus!
