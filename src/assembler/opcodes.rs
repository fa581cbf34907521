use vstd::prelude::*;

use crate::text::{parse_u8, spec_parse_u8, str_eq};

verus! {

/// The opcode of each mnemonic.
pub open spec fn spec_opcode(name: Seq<char>) -> Option<u8> {
    if name == "add"@ {
        Some(0x0u8)
    } else if name == "addi"@ {
        Some(0x1u8)
    } else if name == "div"@ {
        Some(0x2u8)
    } else if name == "sub"@ {
        Some(0x3u8)
    } else if name == "mul"@ {
        Some(0x4u8)
    } else if name == "ld"@ {
        Some(0x5u8)
    } else if name == "st"@ {
        Some(0x6u8)
    } else if name == "br"@ {
        Some(0x7u8)
    } else if name == "brz"@ {
        Some(0x8u8)
    } else if name == "jmp"@ {
        Some(0x9u8)
    } else if name == "call"@ {
        Some(0xAu8)
    } else if name == "ret"@ {
        Some(0xBu8)
    } else if name == "syscall"@ {
        Some(0xCu8)
    } else if name == "cap.null"@ {
        Some(0xDu8)
    } else if name == "cap.copy"@ {
        Some(0xEu8)
    } else if name == "cap.offset"@ {
        Some(0xFu8)
    } else {
        None
    }
}

/// The index named by `prefix` followed by a decimal number below `count`.
pub open spec fn spec_indexed(s: Seq<char>, prefix: char, count: u8) -> Option<u8> {
    if s.len() >= 1 && s[0] == prefix {
        match spec_parse_u8(s.drop_first()) {
            Some(v) => if v < count {
                Some(v)
            } else {
                None
            },
            None => None,
        }
    } else {
        None
    }
}

/// The register index of a token `r0` .. `r15`.
pub open spec fn spec_reg_index(s: Seq<char>) -> Option<u8> {
    spec_indexed(s, 'r', 16)
}

/// The capability index of a token `c0` .. `c7`.
pub open spec fn spec_cap_index(s: Seq<char>) -> Option<u8> {
    spec_indexed(s, 'c', 8)
}

pub fn opcode(name: &str) -> (r: Option<u8>)
    ensures
        r == spec_opcode(name@),
{
    if str_eq(name, "add") {
        Some(0x0)
    } else if str_eq(name, "addi") {
        Some(0x1)
    } else if str_eq(name, "div") {
        Some(0x2)
    } else if str_eq(name, "sub") {
        Some(0x3)
    } else if str_eq(name, "mul") {
        Some(0x4)
    } else if str_eq(name, "ld") {
        Some(0x5)
    } else if str_eq(name, "st") {
        Some(0x6)
    } else if str_eq(name, "br") {
        Some(0x7)
    } else if str_eq(name, "brz") {
        Some(0x8)
    } else if str_eq(name, "jmp") {
        Some(0x9)
    } else if str_eq(name, "call") {
        Some(0xA)
    } else if str_eq(name, "ret") {
        Some(0xB)
    } else if str_eq(name, "syscall") {
        Some(0xC)
    } else if str_eq(name, "cap.null") {
        Some(0xD)
    } else if str_eq(name, "cap.copy") {
        Some(0xE)
    } else if str_eq(name, "cap.offset") {
        Some(0xF)
    } else {
        None
    }
}

fn indexed(s: &str, prefix: char, count: u8) -> (r: Option<u8>)
    ensures
        r == spec_indexed(s@, prefix, count),
{
    if s.unicode_len() >= 1 && s.get_char(0) == prefix {
        assert(s@.subrange(1, s@.len() as int) =~= s@.drop_first());
        match parse_u8(s, 1) {
            Some(v) => if v < count {
                Some(v)
            } else {
                None
            },
            None => None,
        }
    } else {
        None
    }
}

pub fn reg_index(s: &str) -> (r: Option<u8>)
    ensures
        r == spec_reg_index(s@),
{
    indexed(s, 'r', 16)
}

pub fn cap_index(s: &str) -> (r: Option<u8>)
    ensures
        r == spec_cap_index(s@),
{
    indexed(s, 'c', 8)
}

} // verus!
