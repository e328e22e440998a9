use vstd::prelude::*;

use crate::errors::VmError;

verus! {

/// Size of the flat address space, in bytes.
pub const MEM_SIZE: usize = 4096;

/// Offset at which ROM images are loaded and execution starts.
pub const ROM_OFFSET: usize = 512;

/// Height of a built-in glyph sprite, in bytes (one byte per row).
pub const GLYPH_HEIGHT: usize = 5;

/// Number of built-in glyphs (the sixteen hexadecimal digit shapes).
pub const GLYPH_COUNT: usize = 16;

/// The five rows of the built-in sprite for hexadecimal digit `d`.
pub open spec fn glyph_rows(d: int) -> (u8, u8, u8, u8, u8) {
    if d == 0x0 {
        (0xF0, 0x90, 0x90, 0x90, 0xF0)
    } else if d == 0x1 {
        (0x20, 0x60, 0x20, 0x20, 0x70)
    } else if d == 0x2 {
        (0xF0, 0x10, 0xF0, 0x80, 0xF0)
    } else if d == 0x3 {
        (0xF0, 0x10, 0xF0, 0x10, 0xF0)
    } else if d == 0x4 {
        (0x90, 0x90, 0xF0, 0x10, 0x10)
    } else if d == 0x5 {
        (0xF0, 0x80, 0xF0, 0x10, 0xF0)
    } else if d == 0x6 {
        (0xF0, 0x80, 0xF0, 0x90, 0xF0)
    } else if d == 0x7 {
        (0xF0, 0x10, 0x20, 0x40, 0x40)
    } else if d == 0x8 {
        (0xF0, 0x90, 0xF0, 0x90, 0xF0)
    } else if d == 0x9 {
        (0xF0, 0x90, 0xF0, 0x10, 0xF0)
    } else if d == 0xA {
        (0xF0, 0x90, 0xF0, 0x90, 0x90)
    } else if d == 0xB {
        (0xE0, 0x90, 0xE0, 0x90, 0xE0)
    } else if d == 0xC {
        (0xF0, 0x80, 0x80, 0x80, 0xF0)
    } else if d == 0xD {
        (0xE0, 0x90, 0x90, 0x90, 0xE0)
    } else if d == 0xE {
        (0xF0, 0x80, 0xF0, 0x80, 0xF0)
    } else {
        (0xF0, 0x80, 0xF0, 0x80, 0x80)
    }
}

/// Byte `k` of the glyph table that occupies the reserved low-memory
/// region: row `k % 5` of the sprite for digit `k / 5`.
pub open spec fn glyph_byte(k: int) -> u8 {
    let g = glyph_rows(k / 5);
    let r = k % 5;
    if r == 0 {
        g.0
    } else if r == 1 {
        g.1
    } else if r == 2 {
        g.2
    } else if r == 3 {
        g.3
    } else {
        g.4
    }
}

/// The five rows of the built-in sprite for hexadecimal digit `d`.
fn glyph_rows_of(d: u8) -> (g: (u8, u8, u8, u8, u8))
    ensures
        g == glyph_rows(d as int),
{
    if d == 0x0 {
        (0xF0, 0x90, 0x90, 0x90, 0xF0)
    } else if d == 0x1 {
        (0x20, 0x60, 0x20, 0x20, 0x70)
    } else if d == 0x2 {
        (0xF0, 0x10, 0xF0, 0x80, 0xF0)
    } else if d == 0x3 {
        (0xF0, 0x10, 0xF0, 0x10, 0xF0)
    } else if d == 0x4 {
        (0x90, 0x90, 0xF0, 0x10, 0x10)
    } else if d == 0x5 {
        (0xF0, 0x80, 0xF0, 0x10, 0xF0)
    } else if d == 0x6 {
        (0xF0, 0x80, 0xF0, 0x90, 0xF0)
    } else if d == 0x7 {
        (0xF0, 0x10, 0x20, 0x40, 0x40)
    } else if d == 0x8 {
        (0xF0, 0x90, 0xF0, 0x90, 0xF0)
    } else if d == 0x9 {
        (0xF0, 0x90, 0xF0, 0x10, 0xF0)
    } else if d == 0xA {
        (0xF0, 0x90, 0xF0, 0x90, 0x90)
    } else if d == 0xB {
        (0xE0, 0x90, 0xE0, 0x90, 0xE0)
    } else if d == 0xC {
        (0xF0, 0x80, 0x80, 0x80, 0xF0)
    } else if d == 0xD {
        (0xE0, 0x90, 0x90, 0x90, 0xE0)
    } else if d == 0xE {
        (0xF0, 0x80, 0xF0, 0x80, 0xF0)
    } else {
        (0xF0, 0x80, 0xF0, 0x80, 0x80)
    }
}

/// Fresh working storage: 4096 zeroed bytes.
pub fn new_memory() -> (m: Vec<u8>)
    ensures
        m@.len() == MEM_SIZE,
        forall|k: int| 0 <= k < MEM_SIZE ==> m@[k] == 0u8,
{
    let mut m: Vec<u8> = Vec::new();
    let mut k: usize = 0;
    while k < MEM_SIZE
        invariant
            m@.len() == k,
            k <= MEM_SIZE,
            forall|j: int| 0 <= j < k ==> m@[j] == 0u8,
        decreases MEM_SIZE - k,
    {
        m.push(0);
        k = k + 1;
    }
    m
}

/// Load the built-in glyph table into the reserved low-memory region:
/// sixteen fixed 5-byte sprites, the shape for digit `d` at offset `5 * d`.
/// Bytes past the table keep their value.
pub fn load_character_set(memory: &mut Vec<u8>)
    requires
        old(memory)@.len() == MEM_SIZE,
    ensures
        final(memory)@.len() == MEM_SIZE,
        forall|k: int|
            0 <= k < GLYPH_COUNT * GLYPH_HEIGHT ==> final(memory)@[k] == glyph_byte(k),
        forall|k: int|
            GLYPH_COUNT * GLYPH_HEIGHT <= k < MEM_SIZE ==> final(memory)@[k] == old(memory)@[k],
{
    let mut d: usize = 0;
    while d < GLYPH_COUNT
        invariant
            memory@.len() == MEM_SIZE,
            d <= GLYPH_COUNT,
            forall|k: int| 0 <= k < 5 * d ==> memory@[k] == glyph_byte(k),
            forall|k: int| 5 * d <= k < MEM_SIZE ==> memory@[k] == old(memory)@[k],
        decreases GLYPH_COUNT - d,
    {
        let g = glyph_rows_of(d as u8);
        let base = 5 * d;
        memory[base] = g.0;
        memory[base + 1] = g.1;
        memory[base + 2] = g.2;
        memory[base + 3] = g.3;
        memory[base + 4] = g.4;
        proof {
            assert forall|k: int| 5 * d <= k < 5 * d + 5 implies memory@[k] == glyph_byte(k) by {
                assert(k / 5 == d as int && k % 5 == k - 5 * d);
            }
        }
        d = d + 1;
    }
}

/// Load a ROM image verbatim into memory starting at the ROM offset: no
/// header, no checksum. An empty image is rejected, as is one that does not
/// fit below the end of memory; on a rejection, memory is unchanged.
pub fn load_rom(memory: &mut Vec<u8>, rom: &Vec<u8>) -> (r: Result<(), VmError>)
    requires
        old(memory)@.len() == MEM_SIZE,
    ensures
        final(memory)@.len() == MEM_SIZE,
        rom@.len() == 0 ==> r == Err::<(), VmError>(VmError::RomEmpty) && final(memory)@ == old(
            memory,
        )@,
        rom@.len() > MEM_SIZE - ROM_OFFSET ==> r == Err::<(), VmError>(VmError::RomTooLarge)
            && final(memory)@ == old(memory)@,
        (0 < rom@.len() <= MEM_SIZE - ROM_OFFSET) ==> r == Ok::<(), VmError>(()) && (forall|k: int|
            0 <= k < rom@.len() ==> final(memory)@[ROM_OFFSET + k] == rom@[k]) && (forall|k: int|
            0 <= k < MEM_SIZE && !(ROM_OFFSET <= k < ROM_OFFSET + rom@.len())
                ==> final(memory)@[k] == old(memory)@[k]),
{
    if rom.len() == 0 {
        return Err(VmError::RomEmpty);
    }
    if rom.len() > MEM_SIZE - ROM_OFFSET {
        return Err(VmError::RomTooLarge);
    }
    let mut k: usize = 0;
    while k < rom.len()
        invariant
            memory@.len() == MEM_SIZE,
            rom@.len() <= MEM_SIZE - ROM_OFFSET,
            k <= rom@.len(),
            forall|j: int| 0 <= j < k ==> memory@[ROM_OFFSET + j] == rom@[j],
            forall|j: int|
                0 <= j < MEM_SIZE && !(ROM_OFFSET <= j < ROM_OFFSET + k) ==> memory@[j] == old(
                    memory,
                )@[j],
        decreases rom@.len() - k,
    {
        memory[ROM_OFFSET + k] = rom[k];
        k = k + 1;
    }
    Ok(())
}

} // verus!
