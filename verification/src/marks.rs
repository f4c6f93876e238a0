//! The semantic cell marks and their bidirectional color codec.
//!
//! A mark is persisted into a cell's style as a fixed ARGB color. The written
//! colors are deliberately off-palette (one unit away from the pure primary
//! color) so that the document writer does not collapse them into an indexed
//! palette reference. Decoding recognizes both the written off-palette values
//! and the natural primary values another tool might have written, and folds
//! them into the same mark; anything else decodes to `CellMark::Unmarked`.
use vstd::prelude::*;

verus! {

/// A semantic highlight attached to a cell, independent of its color encoding.
#[derive(Debug, Clone, Copy, PartialEq, Eq, Structural)]
pub enum CellMark {
    Unmarked,
    YellowBg,
    RedText,
    GreenText,
    BlueBg,
    MagentaText,
}

/// Background (pattern fill) color written for `YellowBg`.
pub const YELLOW_BG_WRITTEN: u32 = 0xFFFFEF00;

/// Background color written for `BlueBg`.
pub const BLUE_BG_WRITTEN: u32 = 0xFF0000FE;

/// Font color written for `RedText`.
pub const RED_TEXT_WRITTEN: u32 = 0xFFFF0001;

/// Font color written for `GreenText`.
pub const GREEN_TEXT_WRITTEN: u32 = 0xFF008001;

/// Font color written for `MagentaText`.
pub const MAGENTA_TEXT_WRITTEN: u32 = 0xFFFF00FE;

/// Font color written for cells under a background mark or a cleared mark:
/// an off-black baseline for `YellowBg` and `Unmarked`.
pub const FONT_BASELINE_DARK: u32 = 0xFF000001;

/// Font color written on `BlueBg` cells so the text stays readable.
pub const FONT_BASELINE_LIGHT: u32 = 0xFFFFFFFE;

/// Numeric value of one hex digit, or `None` for any other character.
pub open spec fn hex_digit_val(c: char) -> Option<int> {
    if '0' <= c && c <= '9' {
        Some((c as u32) - 48)
    } else if 'A' <= c && c <= 'F' {
        Some((c as u32) - 55)
    } else if 'a' <= c && c <= 'f' {
        Some((c as u32) - 87)
    } else {
        None
    }
}

/// 16 to the power `n`.
pub open spec fn pow16(n: nat) -> int
    decreases n,
{
    if n == 0 {
        1
    } else {
        16 * pow16((n - 1) as nat)
    }
}

/// Value of the first `n` characters of `s` read as big-endian hex digits,
/// or `None` if any of them is not a hex digit.
pub open spec fn hex_prefix_val(s: Seq<char>, n: int) -> Option<int>
    decreases n,
{
    if n <= 0 {
        Some(0)
    } else {
        match (hex_prefix_val(s, n - 1), hex_digit_val(s[n - 1])) {
            (Some(acc), Some(d)) => Some(acc * 16 + d),
            _ => None,
        }
    }
}

/// The ARGB value a color string denotes: eight hex digits are read as
/// alpha-red-green-blue; six hex digits are read as red-green-blue with an
/// opaque alpha; anything else denotes no recognizable color.
pub open spec fn spec_argb_value(s: Seq<char>) -> Option<int> {
    if s.len() == 8 {
        hex_prefix_val(s, 8)
    } else if s.len() == 6 {
        match hex_prefix_val(s, 6) {
            Some(v) => Some(0xFF000000 + v),
            None => None,
        }
    } else {
        None
    }
}

/// The mark a background (pattern fill) color denotes.
pub open spec fn spec_bg_mark(s: Seq<char>) -> CellMark {
    match spec_argb_value(s) {
        Some(v) => {
            if v == 0xFFFFFF00 || v == YELLOW_BG_WRITTEN {
                CellMark::YellowBg
            } else if v == 0xFF0000FF || v == BLUE_BG_WRITTEN || v == 0xFF00BFFF {
                CellMark::BlueBg
            } else {
                CellMark::Unmarked
            }
        },
        None => CellMark::Unmarked,
    }
}

/// The mark a font color denotes.
pub open spec fn spec_font_mark(s: Seq<char>) -> CellMark {
    match spec_argb_value(s) {
        Some(v) => {
            if v == 0xFFFF0000 || v == RED_TEXT_WRITTEN {
                CellMark::RedText
            } else if v == 0xFF008000 || v == GREEN_TEXT_WRITTEN || v == 0xFF00FF00 {
                CellMark::GreenText
            } else if v == 0xFFFF00FF || v == MAGENTA_TEXT_WRITTEN {
                CellMark::MagentaText
            } else {
                CellMark::Unmarked
            }
        },
        None => CellMark::Unmarked,
    }
}

/// The mark a (background color, font color) pair denotes: a background
/// match wins, and the font color is consulted only when the background
/// denotes no mark.
pub open spec fn decode_mark(bg: Seq<char>, font: Seq<char>) -> CellMark {
    if spec_bg_mark(bg) != CellMark::Unmarked {
        spec_bg_mark(bg)
    } else {
        spec_font_mark(font)
    }
}

/// The background color a mark writes, or `None` for the marks that write no
/// background (the clearing mark removes any background instead).
pub open spec fn encode_bg(m: CellMark) -> Option<Seq<char>> {
    match m {
        CellMark::YellowBg => Some("FFFFEF00"@),
        CellMark::BlueBg => Some("FF0000FE"@),
        _ => None,
    }
}

/// The font color a mark writes.
pub open spec fn encode_font(m: CellMark) -> Seq<char> {
    match m {
        CellMark::Unmarked => "FF000001"@,
        CellMark::YellowBg => "FF000001"@,
        CellMark::RedText => "FFFF0001"@,
        CellMark::GreenText => "FF008001"@,
        CellMark::BlueBg => "FFFFFFFE"@,
        CellMark::MagentaText => "FFFF00FE"@,
    }
}

proof fn lemma_pow16_le(a: nat, b: nat)
    requires
        a <= b,
    ensures
        pow16(a) <= pow16(b),
        pow16(a) >= 1,
    decreases b,
{
    if b > 0 {
        if a == b {
            lemma_pow16_le((a - 1) as nat, (b - 1) as nat);
        } else {
            lemma_pow16_le(a, (b - 1) as nat);
        }
    }
}

proof fn lemma_hex_prefix_bound(s: Seq<char>, n: int)
    requires
        n >= 0,
    ensures
        hex_prefix_val(s, n) matches Some(v) ==> 0 <= v < pow16(n as nat),
    decreases n,
{
    if n > 0 {
        lemma_hex_prefix_bound(s, n - 1);
        lemma_pow16_le(((n - 1) as nat), (n as nat));
    }
}

proof fn lemma_hex_prefix_none(s: Seq<char>, i: int, n: int)
    requires
        0 <= i < n,
        hex_digit_val(s[i]) is None,
    ensures
        hex_prefix_val(s, n) is None,
    decreases n,
{
    if n - 1 > i {
        lemma_hex_prefix_none(s, i, n - 1);
    }
}

/// One hex digit's value, or `None` for any other character.
fn hex_digit(c: char) -> (r: Option<u32>)
    ensures
        match r {
            Some(d) => hex_digit_val(c) == Some(d as int),
            None => hex_digit_val(c) is None,
        },
{
    if '0' <= c && c <= '9' {
        Some((c as u32) - 48)
    } else if 'A' <= c && c <= 'F' {
        Some((c as u32) - 55)
    } else if 'a' <= c && c <= 'f' {
        Some((c as u32) - 87)
    } else {
        None
    }
}

/// The ARGB value a color string denotes, read as 8-digit ARGB hex or
/// 6-digit RGB hex with an opaque alpha.
pub fn argb_value(s: &str) -> (r: Option<u32>)
    ensures
        match r {
            Some(v) => spec_argb_value(s@) == Some(v as int),
            None => spec_argb_value(s@) == None::<int>,
        },
{
    let n = s.unicode_len();
    if n != 8 && n != 6 {
        return None;
    }
    let mut acc: u32 = 0;
    let mut i: usize = 0;
    proof {
        lemma_pow16_le(0, 8);
        lemma_pow16_le(n as nat, 8);
        assert(pow16(8) == 0x100000000) by {
            reveal_with_fuel(pow16, 9);
        }
    }
    while i < n
        invariant
            i <= n,
            n == s@.len(),
            n == 8 || n == 6,
            hex_prefix_val(s@, i as int) == Some(acc as int),
            acc < pow16(i as nat),
            pow16(n as nat) <= pow16(8),
            pow16(8) == 0x100000000,
        decreases n - i,
    {
        let c = s.get_char(i);
        match hex_digit(c) {
            Some(d) => {
                proof {
                    lemma_pow16_le((i + 1) as nat, n as nat);
                    assert(pow16((i + 1) as nat) == 16 * pow16(i as nat));
                }
                acc = acc * 16 + d;
            },
            None => {
                proof {
                    lemma_hex_prefix_none(s@, i as int, n as int);
                }
                return None;
            },
        }
        i += 1;
    }
    if n == 8 {
        Some(acc)
    } else {
        proof {
            lemma_pow16_le(6, 8);
            lemma_hex_prefix_bound(s@, 6);
            assert(pow16(6) == 0x1000000) by {
                reveal_with_fuel(pow16, 8);
            }
        }
        Some(0xFF000000 + acc)
    }
}

/// The mark a background (pattern fill) color string denotes.
pub fn argb_to_bg_mark(argb: &str) -> (m: CellMark)
    ensures
        m == spec_bg_mark(argb@),
{
    match argb_value(argb) {
        Some(v) => {
            if v == 0xFFFFFF00 || v == YELLOW_BG_WRITTEN {
                CellMark::YellowBg
            } else if v == 0xFF0000FF || v == BLUE_BG_WRITTEN || v == 0xFF00BFFF {
                CellMark::BlueBg
            } else {
                CellMark::Unmarked
            }
        },
        None => CellMark::Unmarked,
    }
}

/// The mark a font color string denotes.
pub fn argb_to_font_mark(argb: &str) -> (m: CellMark)
    ensures
        m == spec_font_mark(argb@),
{
    match argb_value(argb) {
        Some(v) => {
            if v == 0xFFFF0000 || v == RED_TEXT_WRITTEN {
                CellMark::RedText
            } else if v == 0xFF008000 || v == GREEN_TEXT_WRITTEN || v == 0xFF00FF00 {
                CellMark::GreenText
            } else if v == 0xFFFF00FF || v == MAGENTA_TEXT_WRITTEN {
                CellMark::MagentaText
            } else {
                CellMark::Unmarked
            }
        },
        None => CellMark::Unmarked,
    }
}

proof fn lemma_argb_of_literal(s: Seq<char>, v: int)
    requires
        s.len() == 8,
        forall|k: int| 0 <= k < 8 ==> hex_digit_val(#[trigger] s[k]) is Some,
        v == ((((((hex_digit_val(s[0]).unwrap() * 16 + hex_digit_val(s[1]).unwrap()) * 16
            + hex_digit_val(s[2]).unwrap()) * 16 + hex_digit_val(s[3]).unwrap()) * 16
            + hex_digit_val(s[4]).unwrap()) * 16 + hex_digit_val(s[5]).unwrap()) * 16
            + hex_digit_val(s[6]).unwrap()) * 16 + hex_digit_val(s[7]).unwrap(),
    ensures
        spec_argb_value(s) == Some(v),
{
    reveal_with_fuel(hex_prefix_val, 9);
}

/// The round trip of the codec: writing any mark onto an unstyled cell and
/// decoding the colors that the write leaves behind yields the same mark.
/// The clearing mark leaves no background, so its background reads back as
/// the empty string.
pub proof fn lemma_mark_round_trip(m: CellMark)
    ensures
        decode_mark(
            match encode_bg(m) {
                Some(c) => c,
                None => Seq::<char>::empty(),
            },
            encode_font(m),
        ) == m,
{
    reveal_strlit("FFFFEF00");
    reveal_strlit("FF0000FE");
    reveal_strlit("FF000001");
    reveal_strlit("FFFF0001");
    reveal_strlit("FF008001");
    reveal_strlit("FFFFFFFE");
    reveal_strlit("FFFF00FE");
    lemma_argb_of_literal("FFFFEF00"@, 0xFFFFEF00);
    lemma_argb_of_literal("FF0000FE"@, 0xFF0000FE);
    lemma_argb_of_literal("FF000001"@, 0xFF000001);
    lemma_argb_of_literal("FFFF0001"@, 0xFFFF0001);
    lemma_argb_of_literal("FF008001"@, 0xFF008001);
    lemma_argb_of_literal("FFFFFFFE"@, 0xFFFFFFFE);
    lemma_argb_of_literal("FFFF00FE"@, 0xFFFF00FE);
}

proof fn lemma_argb6_of_literal(s: Seq<char>, v: int)
    requires
        s.len() == 6,
        forall|k: int| 0 <= k < 6 ==> hex_digit_val(#[trigger] s[k]) is Some,
        v == ((((hex_digit_val(s[0]).unwrap() * 16 + hex_digit_val(s[1]).unwrap()) * 16
            + hex_digit_val(s[2]).unwrap()) * 16 + hex_digit_val(s[3]).unwrap()) * 16
            + hex_digit_val(s[4]).unwrap()) * 16 + hex_digit_val(s[5]).unwrap(),
    ensures
        spec_argb_value(s) == Some(0xFF000000 + v),
{
    reveal_with_fuel(hex_prefix_val, 7);
}

/// Decoding the natural primary colors that another tool might have written,
/// in their 8-digit ARGB or 6-digit RGB spellings, yields the same marks as
/// the off-palette values this editor writes.
pub proof fn lemma_natural_colors_decode()
    ensures
        spec_bg_mark("FFFFFF00"@) == CellMark::YellowBg,
        spec_bg_mark("FFFF00"@) == CellMark::YellowBg,
        spec_bg_mark("FF0000FF"@) == CellMark::BlueBg,
        spec_bg_mark("0000FF"@) == CellMark::BlueBg,
        spec_bg_mark("FF00BFFF"@) == CellMark::BlueBg,
        spec_bg_mark("00BFFF"@) == CellMark::BlueBg,
        spec_font_mark("FFFF0000"@) == CellMark::RedText,
        spec_font_mark("FF0000"@) == CellMark::RedText,
        spec_font_mark("FF008000"@) == CellMark::GreenText,
        spec_font_mark("008000"@) == CellMark::GreenText,
        spec_font_mark("FF00FF00"@) == CellMark::GreenText,
        spec_font_mark("00FF00"@) == CellMark::GreenText,
        spec_font_mark("FFFF00FF"@) == CellMark::MagentaText,
        spec_font_mark("FF00FF"@) == CellMark::MagentaText,
{
    reveal_strlit("FFFFFF00");
    reveal_strlit("FFFF00");
    reveal_strlit("FF0000FF");
    reveal_strlit("0000FF");
    reveal_strlit("FF00BFFF");
    reveal_strlit("00BFFF");
    reveal_strlit("FFFF0000");
    reveal_strlit("FF0000");
    reveal_strlit("FF008000");
    reveal_strlit("008000");
    reveal_strlit("FF00FF00");
    reveal_strlit("00FF00");
    reveal_strlit("FFFF00FF");
    reveal_strlit("FF00FF");
    lemma_argb6_of_literal("FFFF00"@, 0xFFFF00);
    lemma_argb6_of_literal("0000FF"@, 0x0000FF);
    lemma_argb6_of_literal("00BFFF"@, 0x00BFFF);
    lemma_argb6_of_literal("FF0000"@, 0xFF0000);
    lemma_argb6_of_literal("008000"@, 0x008000);
    lemma_argb6_of_literal("00FF00"@, 0x00FF00);
    lemma_argb6_of_literal("FF00FF"@, 0xFF00FF);
    lemma_argb_of_literal("FFFFFF00"@, 0xFFFFFF00);
    lemma_argb_of_literal("FF0000FF"@, 0xFF0000FF);
    lemma_argb_of_literal("FF00BFFF"@, 0xFF00BFFF);
    lemma_argb_of_literal("FFFF0000"@, 0xFFFF0000);
    lemma_argb_of_literal("FF008000"@, 0xFF008000);
    lemma_argb_of_literal("FF00FF00"@, 0xFF00FF00);
    lemma_argb_of_literal("FFFF00FF"@, 0xFFFF00FF);
}

} // verus!
