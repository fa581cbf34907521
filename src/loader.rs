use vstd::prelude::*;

use crate::bytes::{
    le_u64_at, lemma_u64_le_round_trip, push_u64_le, read_u64_le, u16_le_bytes, u64_le_bytes,
    write_at,
};
use crate::cap::{Capability, PERM_EXEC, PERM_READ, PERM_WRITE};
use crate::cpu::CPU;
use crate::mem::Memory;

verus! {

/// Size in bytes of the container header: five little-endian 64-bit fields.
pub const HEADER_SIZE: usize = 40;

/// Why a container could not be loaded.
#[derive(Clone, Copy, Debug, PartialEq, Eq, Structural)]
pub enum LoadError {
    /// Shorter than the header.
    TooSmall,
    /// The text section does not fit in memory.
    TextOutOfBounds { base: u64, size: u64 },
    /// The data section does not fit in memory.
    DataOutOfBounds { base: u64, size: u64 },
    /// The file ends before the sections it announces.
    Truncated,
}

/// Header field `k` (0 = entry, 1 = text base, 2 = text size, 3 = data base, 4 = data size).
pub open spec fn header_field(d: Seq<u8>, k: int) -> u64 {
    le_u64_at(d, 8 * k)
}

/// Whether the container `d` can be loaded into `mem_len` bytes of memory, and if not, why.
pub open spec fn load_check(d: Seq<u8>, mem_len: nat) -> Result<(), LoadError> {
    if d.len() < HEADER_SIZE {
        Err(LoadError::TooSmall)
    } else {
        let text_base = header_field(d, 1);
        let text_size = header_field(d, 2);
        let data_base = header_field(d, 3);
        let data_size = header_field(d, 4);
        if text_base as int + text_size as int > mem_len {
            Err(LoadError::TextOutOfBounds { base: text_base, size: text_size })
        } else if data_base as int + data_size as int > mem_len {
            Err(LoadError::DataOutOfBounds { base: data_base, size: data_size })
        } else if HEADER_SIZE + text_size as int + data_size as int > d.len() {
            Err(LoadError::Truncated)
        } else {
            Ok(())
        }
    }
}

/// The text section's bytes in `d`.
pub open spec fn text_bytes(d: Seq<u8>) -> Seq<u8> {
    d.subrange(HEADER_SIZE as int, HEADER_SIZE + header_field(d, 2) as int)
}

/// The data section's bytes in `d`.
pub open spec fn data_bytes(d: Seq<u8>) -> Seq<u8> {
    let start = HEADER_SIZE + header_field(d, 2) as int;
    d.subrange(start, start + header_field(d, 4) as int)
}

/// Memory `m` after text, then data, are copied to their bases.
pub open spec fn loaded_mem(m: Seq<u8>, d: Seq<u8>) -> Seq<u8> {
    write_at(
        write_at(m, header_field(d, 1) as int, text_bytes(d)),
        header_field(d, 3) as int,
        data_bytes(d),
    )
}

/// The boot capability for code: the text section, execute only.
pub open spec fn text_cap(d: Seq<u8>) -> Capability {
    Capability {
        base: header_field(d, 1),
        length: header_field(d, 2),
        offset: 0,
        perms: PERM_EXEC,
        valid: true,
        sealed: false,
    }
}

/// The boot capability for data: the data section, read and write.
pub open spec fn data_cap(d: Seq<u8>) -> Capability {
    Capability {
        base: header_field(d, 3),
        length: header_field(d, 4),
        offset: 0,
        perms: PERM_READ | PERM_WRITE,
        valid: true,
        sealed: false,
    }
}

/// Copies `src[from .. from + count]` to `mem[to .. to + count]`.
fn copy_section(mem: &mut Memory, to: u64, src: &[u8], from: usize, count: u64)
    requires
        to as int + count as int <= old(mem).bytes@.len(),
        from as int + count as int <= src@.len(),
    ensures
        final(mem).bytes@ == write_at(
            old(mem).bytes@,
            to as int,
            src@.subrange(from as int, from + count as int),
        ),
{
    let n = mem.bytes.len();
    let src_len = src.len();
    let ghost before = mem.bytes@;
    let ghost piece = src@.subrange(from as int, from + count as int);
    let to_at = to as usize;
    let count_n = count as usize;
    let mut k: usize = 0;
    while k < count_n
        invariant
            k <= count_n,
            count_n == count,
            to_at == to,
            to_at + count_n <= n,
            n == before.len(),
            from + count_n <= src_len,
            src_len == src@.len(),
            piece == src@.subrange(from as int, from + count as int),
            mem.bytes@ == write_at(before, to as int, piece.subrange(0, k as int)),
        decreases count_n - k,
    {
        mem.bytes.set(to_at + k, src[from + k]);
        assert(mem.bytes@ =~= write_at(before, to as int, piece.subrange(0, k + 1)));
        k = k + 1;
    }
    assert(piece.subrange(0, count as int) =~= piece);
}

/// Loads a container image: copies its sections into memory, sets the program counter to
/// the entry point and installs the boot capabilities in `c1` (code) and `c2` (data).
pub fn load_osl_bin(cpu: &mut CPU, mem: &mut Memory, data: &[u8]) -> (r: Result<(), LoadError>)
    ensures
        r == load_check(data@, old(mem).bytes@.len()),
        r is Err ==> *final(cpu) == *old(cpu) && final(mem).bytes@ == old(mem).bytes@,
        r is Ok ==> {
            &&& final(mem).bytes@ == loaded_mem(old(mem).bytes@, data@)
            &&& final(cpu).pc == header_field(data@, 0)
            &&& final(cpu).c@ == old(cpu).c@.update(1, text_cap(data@)).update(2, data_cap(data@))
            &&& final(cpu).r@ == old(cpu).r@
            &&& final(cpu).trap == old(cpu).trap
        },
{
    if data.len() < HEADER_SIZE {
        return Err(LoadError::TooSmall);
    }
    let entry = read_u64_le(data, 0);
    let text_base = read_u64_le(data, 8);
    let text_size = read_u64_le(data, 16);
    let data_base = read_u64_le(data, 24);
    let data_size = read_u64_le(data, 32);
    let mem_len = mem.bytes.len() as u64;
    if text_base > mem_len || text_size > mem_len - text_base {
        return Err(LoadError::TextOutOfBounds { base: text_base, size: text_size });
    }
    if data_base > mem_len || data_size > mem_len - data_base {
        return Err(LoadError::DataOutOfBounds { base: data_base, size: data_size });
    }
    let avail = (data.len() - HEADER_SIZE) as u64;
    if text_size > avail || data_size > avail - text_size {
        return Err(LoadError::Truncated);
    }
    let ghost m0 = mem.bytes@;
    copy_section(mem, text_base, data, HEADER_SIZE, text_size);
    let data_start = HEADER_SIZE + text_size as usize;
    copy_section(mem, data_base, data, data_start, data_size);
    cpu.pc = entry;
    cpu.c[1] = Capability {
        base: text_base,
        length: text_size,
        offset: 0,
        perms: PERM_EXEC,
        valid: true,
        sealed: false,
    };
    cpu.c[2] = Capability {
        base: data_base,
        length: data_size,
        offset: 0,
        perms: PERM_READ | PERM_WRITE,
        valid: true,
        sealed: false,
    };
    Ok(())
}

} // verus!

verus! {

/// The little-endian bytes of each word of `s`, in order.
pub open spec fn words_le_bytes(s: Seq<u16>) -> Seq<u8>
    decreases s.len(),
{
    if s.len() == 0 {
        Seq::empty()
    } else {
        words_le_bytes(s.drop_last()) + u16_le_bytes(s.last())
    }
}

/// The container holding `words` as its text, entered at `text_base`, with an empty data
/// section at `data_base`.
pub open spec fn osl_image(words: Seq<u16>, text_base: u64, data_base: u64) -> Seq<u8> {
    u64_le_bytes(text_base) + u64_le_bytes(text_base) + u64_le_bytes((2 * words.len()) as u64)
        + u64_le_bytes(data_base) + u64_le_bytes(0) + words_le_bytes(words)
}

pub proof fn lemma_words_le_bytes_len(s: Seq<u16>)
    ensures
        words_le_bytes(s).len() == 2 * s.len(),
    decreases s.len(),
{
    if s.len() > 0 {
        lemma_words_le_bytes_len(s.drop_last());
    }
}

/// Eight bytes that spell `v` read back as `v`, wherever they stand.
pub proof fn lemma_le_u64_window(s: Seq<u8>, at: int, v: u64)
    requires
        0 <= at,
        at + 8 <= s.len(),
        s.subrange(at, at + 8) == u64_le_bytes(v),
    ensures
        le_u64_at(s, at) == v,
{
    let w = s.subrange(at, at + 8);
    assert(s[at] == w[0] && s[at + 1] == w[1] && s[at + 2] == w[2] && s[at + 3] == w[3]);
    assert(s[at + 4] == w[4] && s[at + 5] == w[5] && s[at + 6] == w[6] && s[at + 7] == w[7]);
    lemma_u64_le_round_trip(v);
}

/// Serialises `text` as a container entered at `text_base`, with an empty data section at
/// `data_base`.
pub fn encode_osl_bin(text: &[u16], text_base: u64, data_base: u64) -> (r: Vec<u8>)
    requires
        2 * text@.len() <= u64::MAX,
    ensures
        r@ == osl_image(text@, text_base, data_base),
{
    let text_size = (text.len() as u64) * 2;
    let mut out: Vec<u8> = Vec::new();
    push_u64_le(&mut out, text_base);
    push_u64_le(&mut out, text_base);
    push_u64_le(&mut out, text_size);
    push_u64_le(&mut out, data_base);
    push_u64_le(&mut out, 0);
    let ghost header = out@;
    let mut k: usize = 0;
    while k < text.len()
        invariant
            k <= text@.len(),
            out@ == header + words_le_bytes(text@.subrange(0, k as int)),
        decreases text@.len() - k,
    {
        let w = text[k];
        out.push(#[verifier::truncate] ((w & 0xff) as u8));
        out.push(#[verifier::truncate] (((w >> 8u16) & 0xff) as u8));
        assert(text@.subrange(0, k + 1).drop_last() =~= text@.subrange(0, k as int));
        assert(out@ =~= header + words_le_bytes(text@.subrange(0, k + 1)));
        k = k + 1;
    }
    assert(text@.subrange(0, text@.len() as int) =~= text@);
    out
}

/// Writing a container and loading it back puts exactly the text bytes at `text_base`,
/// enters at `text_base`, and gives `c1` an execute-only window of two bytes per word.
pub proof fn lemma_osl_round_trip(words: Seq<u16>, text_base: u64, data_base: u64, m: Seq<u8>)
    requires
        2 * words.len() <= u64::MAX,
        text_base as int + 2 * words.len() <= m.len(),
        data_base <= m.len(),
    ensures
        ({
            let img = osl_image(words, text_base, data_base);
            &&& load_check(img, m.len()) is Ok
            &&& header_field(img, 0) == text_base
            &&& loaded_mem(m, img).subrange(text_base as int, text_base + 2 * words.len())
                == words_le_bytes(words)
            &&& text_cap(img) == (Capability {
                base: text_base,
                length: (2 * words.len()) as u64,
                offset: 0,
                perms: PERM_EXEC,
                valid: true,
                sealed: false,
            })
        }),
{
    let img = osl_image(words, text_base, data_base);
    let size = (2 * words.len()) as u64;
    let w = words_le_bytes(words);
    lemma_words_le_bytes_len(words);
    assert(img.subrange(0, 8) =~= u64_le_bytes(text_base));
    assert(img.subrange(8, 16) =~= u64_le_bytes(text_base));
    assert(img.subrange(16, 24) =~= u64_le_bytes(size));
    assert(img.subrange(24, 32) =~= u64_le_bytes(data_base));
    assert(img.subrange(32, 40) =~= u64_le_bytes(0));
    lemma_le_u64_window(img, 0, text_base);
    lemma_le_u64_window(img, 8, text_base);
    lemma_le_u64_window(img, 16, size);
    lemma_le_u64_window(img, 24, data_base);
    lemma_le_u64_window(img, 32, 0);
    assert(text_bytes(img) =~= w);
    assert(data_bytes(img) =~= Seq::<u8>::empty());
    let m1 = write_at(m, text_base as int, w);
    assert(write_at(m1, data_base as int, Seq::<u8>::empty()) =~= m1);
    assert(m1.subrange(text_base as int, text_base + 2 * words.len()) =~= w);
}

} // verus!
