use vstd::prelude::*;

verus! {

/// Address of the built-in font table: it occupies 0x000..0x050.
pub const FONT_ADDRESS: u16 = 0;

/// Length of the font table: 16 glyphs of 5 bytes each.
pub const FONT_BYTES: usize = 80;

/// The built-in font: one 5-byte sprite per hexadecimal digit, one byte per
/// 8-pixel row (only the high nibble of each row is drawn).
pub open spec fn spec_font() -> Seq<u8> {
    seq![
        0xF0u8, 0x90, 0x90, 0x90, 0xF0, // 0
        0x20, 0x60, 0x20, 0x20, 0x70, // 1
        0xF0, 0x10, 0xF0, 0x80, 0xF0, // 2
        0xF0, 0x10, 0xF0, 0x10, 0xF0, // 3
        0x90, 0x90, 0xF0, 0x10, 0x10, // 4
        0xF0, 0x80, 0xF0, 0x10, 0xF0, // 5
        0xF0, 0x80, 0xF0, 0x90, 0xF0, // 6
        0xF0, 0x10, 0x20, 0x40, 0x40, // 7
        0xF0, 0x90, 0xF0, 0x90, 0xF0, // 8
        0xF0, 0x90, 0xF0, 0x10, 0xF0, // 9
        0xF0, 0x90, 0xF0, 0x90, 0x90, // A
        0xE0, 0x90, 0xE0, 0x90, 0xE0, // B
        0xF0, 0x80, 0x80, 0x80, 0xF0, // C
        0xE0, 0x90, 0x90, 0x90, 0xE0, // D
        0xF0, 0x80, 0xF0, 0x80, 0xF0, // E
        0xF0, 0x80, 0xF0, 0x80, 0x80, // F
    ]
}

/// A memory image after the font table has been copied over its start.
pub open spec fn with_font(m: Seq<u8>) -> Seq<u8> {
    Seq::new(m.len(), |i: int| if 0 <= i < FONT_BYTES { spec_font()[i] } else { m[i] })
}

/// Builds the font table as bytes; `Mem::load_font` copies it to `FONT_ADDRESS`.
pub fn font_sprite() -> (r: Vec<u8>)
    ensures
        r@ == spec_font(),
{
    let mut r: Vec<u8> = Vec::new();
    r.push(0xF0); r.push(0x90); r.push(0x90); r.push(0x90); r.push(0xF0); // 0
    r.push(0x20); r.push(0x60); r.push(0x20); r.push(0x20); r.push(0x70); // 1
    r.push(0xF0); r.push(0x10); r.push(0xF0); r.push(0x80); r.push(0xF0); // 2
    r.push(0xF0); r.push(0x10); r.push(0xF0); r.push(0x10); r.push(0xF0); // 3
    r.push(0x90); r.push(0x90); r.push(0xF0); r.push(0x10); r.push(0x10); // 4
    r.push(0xF0); r.push(0x80); r.push(0xF0); r.push(0x10); r.push(0xF0); // 5
    r.push(0xF0); r.push(0x80); r.push(0xF0); r.push(0x90); r.push(0xF0); // 6
    r.push(0xF0); r.push(0x10); r.push(0x20); r.push(0x40); r.push(0x40); // 7
    r.push(0xF0); r.push(0x90); r.push(0xF0); r.push(0x90); r.push(0xF0); // 8
    r.push(0xF0); r.push(0x90); r.push(0xF0); r.push(0x10); r.push(0xF0); // 9
    r.push(0xF0); r.push(0x90); r.push(0xF0); r.push(0x90); r.push(0x90); // A
    r.push(0xE0); r.push(0x90); r.push(0xE0); r.push(0x90); r.push(0xE0); // B
    r.push(0xF0); r.push(0x80); r.push(0x80); r.push(0x80); r.push(0xF0); // C
    r.push(0xE0); r.push(0x90); r.push(0x90); r.push(0x90); r.push(0xE0); // D
    r.push(0xF0); r.push(0x80); r.push(0xF0); r.push(0x80); r.push(0xF0); // E
    r.push(0xF0); r.push(0x80); r.push(0xF0); r.push(0x80); r.push(0x80); // F
    proof {
        assert(r@ =~= spec_font());
    }
    r
}

} // verus!
