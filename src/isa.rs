use vstd::prelude::*;

verus! {

/// A decoded 16-bit instruction word.
///
/// `rs2` holds the low nibble as a register index; `imm` holds the same nibble
/// read as a signed 4-bit immediate.
#[derive(Clone, Copy, Debug, PartialEq, Eq, Structural)]
pub struct Inst {
    pub opcode: u8,
    pub rd: u8,
    pub rs1: u8,
    pub rs2: u8,
    pub imm: i8,
}

/// The nibble `n` (0..15) read as a two's-complement 4-bit value (-8..7).
pub open spec fn sign_extend4(n: u8) -> i8 {
    if n < 8 {
        n as i8
    } else {
        (n as int - 16) as i8
    }
}

/// The low nibble that stands for the immediate `v` (-8..7).
pub open spec fn nibble_of(v: int) -> u8 {
    if v >= 0 {
        v as u8
    } else {
        (v + 16) as u8
    }
}

/// The word with the four nibbles `opcode`, `rd`, `rs1`, `low`, from the most significant down.
pub open spec fn spec_encode(opcode: u8, rd: u8, rs1: u8, low: u8) -> u16 {
    ((opcode as u16) << 12u16) | ((rd as u16) << 8u16) | ((rs1 as u16) << 4u16) | (low as u16)
}

/// The fields of `raw`, nibble by nibble.
pub open spec fn spec_decode(raw: u16) -> Inst {
    Inst {
        opcode: ((raw >> 12u16) & 0xf) as u8,
        rd: ((raw >> 8u16) & 0xf) as u8,
        rs1: ((raw >> 4u16) & 0xf) as u8,
        rs2: (raw & 0xf) as u8,
        imm: sign_extend4((raw & 0xf) as u8),
    }
}

/// Packs four nibbles into an instruction word.
pub fn encode(opcode: u8, rd: u8, rs1: u8, low: u8) -> (r: u16)
    requires
        opcode < 16,
        rd < 16,
        rs1 < 16,
        low < 16,
    ensures
        r == spec_encode(opcode, rd, rs1, low),
        spec_decode(r) == (Inst { opcode, rd, rs1, rs2: low, imm: sign_extend4(low) }),
{
    proof {
        lemma_decode_encode(opcode, rd, rs1, low);
    }
    ((opcode as u16) << 12u16) | ((rd as u16) << 8u16) | ((rs1 as u16) << 4u16) | (low as u16)
}

/// Decoding an encoded word gives back each field, the low nibble both as a register
/// index and as its sign-extended immediate.
pub proof fn lemma_decode_encode(opcode: u8, rd: u8, rs1: u8, low: u8)
    requires
        opcode < 16,
        rd < 16,
        rs1 < 16,
        low < 16,
    ensures
        spec_decode(spec_encode(opcode, rd, rs1, low)) == (Inst {
            opcode,
            rd,
            rs1,
            rs2: low,
            imm: sign_extend4(low),
        }),
{
    let (o, d, s, l) = (opcode as u16, rd as u16, rs1 as u16, low as u16);
    assert(o < 16 && d < 16 && s < 16 && l < 16 ==> ((((o << 12u16) | (d << 8u16) | (s << 4u16)
        | l) >> 12u16) & 0xf) == o && ((((o << 12u16) | (d << 8u16) | (s << 4u16) | l) >> 8u16)
        & 0xf) == d && ((((o << 12u16) | (d << 8u16) | (s << 4u16) | l) >> 4u16) & 0xf) == s && ((
    (o << 12u16) | (d << 8u16) | (s << 4u16) | l) & 0xf) == l) by (bit_vector);
}

/// An immediate in -8..7 written into the low nibble decodes back to the same value.
pub proof fn lemma_decode_encode_imm(opcode: u8, rd: u8, rs1: u8, v: int)
    requires
        opcode < 16,
        rd < 16,
        rs1 < 16,
        -8 <= v <= 7,
    ensures
        nibble_of(v) < 16,
        spec_decode(spec_encode(opcode, rd, rs1, nibble_of(v))).imm as int == v,
{
    lemma_decode_encode(opcode, rd, rs1, nibble_of(v));
}

/// Splits an instruction word into its fields.
pub fn decode(raw: u16) -> (r: Inst)
    ensures
        r == spec_decode(raw),
        r.opcode < 16,
        r.rd < 16,
        r.rs1 < 16,
        r.rs2 < 16,
{
    assert(((raw >> 12u16) & 0xf) < 16 && ((raw >> 8u16) & 0xf) < 16 && ((raw >> 4u16) & 0xf)
        < 16) by (bit_vector);
    let low = (raw & 0xf) as u8;
    assert(low < 16) by (bit_vector)
        requires
            low == (raw & 0xf) as u8,
    ;
    let imm: i8 = if low < 8 {
        low as i8
    } else {
        (low as i8) - 16
    };
    Inst {
        opcode: ((raw >> 12u16) & 0xf) as u8,
        rd: ((raw >> 8u16) & 0xf) as u8,
        rs1: ((raw >> 4u16) & 0xf) as u8,
        rs2: low,
        imm,
    }
}

} // verus!
