use vstd::prelude::*;
use crate::color::Color;
use crate::color::color_dist;

verus! {

/// A color used for CSI escape codes
#[derive(Debug)]
pub struct CSIColor {
    pub color: Color,
    pub code: u8,
}

/// The 16 colors of the terminal palette, chosen to match standard 4-bit
/// terminal colors. The foreground and background tables pair these same
/// colors with different codes.
pub open spec fn palette_colors() -> Seq<Color> {
    seq![
        (Color { r: 12, g: 12, b: 12 }),
        (Color { r: 197, g: 15, b: 31 }),
        (Color { r: 19, g: 161, b: 14 }),
        (Color { r: 193, g: 156, b: 0 }),
        (Color { r: 0, g: 55, b: 218 }),
        (Color { r: 136, g: 23, b: 152 }),
        (Color { r: 58, g: 150, b: 221 }),
        (Color { r: 204, g: 204, b: 204 }),
        (Color { r: 118, g: 118, b: 118 }),
        (Color { r: 231, g: 72, b: 86 }),
        (Color { r: 22, g: 198, b: 12 }),
        (Color { r: 249, g: 241, b: 165 }),
        (Color { r: 59, g: 120, b: 255 }),
        (Color { r: 180, g: 0, b: 158 }),
        (Color { r: 97, g: 214, b: 214 }),
        (Color { r: 242, g: 242, b: 242 }),
    ]
}

/// The CSI codes that select each palette entry as the foreground color.
pub open spec fn fg_codes() -> Seq<u8> {
    seq![30u8, 31, 32, 33, 34, 35, 36, 37, 90, 91, 92, 93, 94, 95, 96, 97]
}

/// The CSI codes that select each palette entry as the background color.
pub open spec fn bg_codes() -> Seq<u8> {
    seq![40u8, 41, 42, 43, 44, 45, 46, 47, 100, 101, 102, 103, 104, 105, 106, 107]
}

/// Whether a table pairs the shared palette colors with the given codes,
/// entry by entry.
pub open spec fn is_palette_table(table: Seq<CSIColor>, codes: Seq<u8>) -> bool {
    &&& table.len() == 16
    &&& forall|i: int|
        0 <= i < 16 ==> (#[trigger] table[i]).color == palette_colors()[i] && table[i].code
            == codes[i]
}

/// The fixed foreground color table.
pub fn csi_fg() -> (v: Vec<CSIColor>)
    ensures
        is_palette_table(v@, fg_codes()),
{
    let mut v: Vec<CSIColor> = Vec::new();
    v.push(CSIColor { color: Color { r: 12, g: 12, b: 12 }, code: 30 });
    v.push(CSIColor { color: Color { r: 197, g: 15, b: 31 }, code: 31 });
    v.push(CSIColor { color: Color { r: 19, g: 161, b: 14 }, code: 32 });
    v.push(CSIColor { color: Color { r: 193, g: 156, b: 0 }, code: 33 });
    v.push(CSIColor { color: Color { r: 0, g: 55, b: 218 }, code: 34 });
    v.push(CSIColor { color: Color { r: 136, g: 23, b: 152 }, code: 35 });
    v.push(CSIColor { color: Color { r: 58, g: 150, b: 221 }, code: 36 });
    v.push(CSIColor { color: Color { r: 204, g: 204, b: 204 }, code: 37 });
    v.push(CSIColor { color: Color { r: 118, g: 118, b: 118 }, code: 90 });
    v.push(CSIColor { color: Color { r: 231, g: 72, b: 86 }, code: 91 });
    v.push(CSIColor { color: Color { r: 22, g: 198, b: 12 }, code: 92 });
    v.push(CSIColor { color: Color { r: 249, g: 241, b: 165 }, code: 93 });
    v.push(CSIColor { color: Color { r: 59, g: 120, b: 255 }, code: 94 });
    v.push(CSIColor { color: Color { r: 180, g: 0, b: 158 }, code: 95 });
    v.push(CSIColor { color: Color { r: 97, g: 214, b: 214 }, code: 96 });
    v.push(CSIColor { color: Color { r: 242, g: 242, b: 242 }, code: 97 });
    v
}

/// The fixed background color table.
pub fn csi_bg() -> (v: Vec<CSIColor>)
    ensures
        is_palette_table(v@, bg_codes()),
{
    let mut v: Vec<CSIColor> = Vec::new();
    v.push(CSIColor { color: Color { r: 12, g: 12, b: 12 }, code: 40 });
    v.push(CSIColor { color: Color { r: 197, g: 15, b: 31 }, code: 41 });
    v.push(CSIColor { color: Color { r: 19, g: 161, b: 14 }, code: 42 });
    v.push(CSIColor { color: Color { r: 193, g: 156, b: 0 }, code: 43 });
    v.push(CSIColor { color: Color { r: 0, g: 55, b: 218 }, code: 44 });
    v.push(CSIColor { color: Color { r: 136, g: 23, b: 152 }, code: 45 });
    v.push(CSIColor { color: Color { r: 58, g: 150, b: 221 }, code: 46 });
    v.push(CSIColor { color: Color { r: 204, g: 204, b: 204 }, code: 47 });
    v.push(CSIColor { color: Color { r: 118, g: 118, b: 118 }, code: 100 });
    v.push(CSIColor { color: Color { r: 231, g: 72, b: 86 }, code: 101 });
    v.push(CSIColor { color: Color { r: 22, g: 198, b: 12 }, code: 102 });
    v.push(CSIColor { color: Color { r: 249, g: 241, b: 165 }, code: 103 });
    v.push(CSIColor { color: Color { r: 59, g: 120, b: 255 }, code: 104 });
    v.push(CSIColor { color: Color { r: 180, g: 0, b: 158 }, code: 105 });
    v.push(CSIColor { color: Color { r: 97, g: 214, b: 214 }, code: 106 });
    v.push(CSIColor { color: Color { r: 242, g: 242, b: 242 }, code: 107 });
    v
}

/// Index of the first entry at minimal Manhattan distance from `target`
/// among the first `n` entries of `colors`. Exact ties keep the earlier
/// index, as only a strictly smaller distance displaces the pick.
pub open spec fn nearest_color_index(colors: Seq<Color>, target: Color, n: int) -> int
    decreases n,
{
    if n <= 1 {
        0
    } else {
        let prev = nearest_color_index(colors, target, n - 1);
        if color_dist(colors[n - 1], target) < color_dist(colors[prev], target) {
            n - 1
        } else {
            prev
        }
    }
}

/// The nearest index over a prefix of length `n >= 1` lies in `[0, n)`.
pub proof fn lemma_nearest_color_index_range(colors: Seq<Color>, target: Color, n: int)
    requires
        n >= 1,
    ensures
        0 <= nearest_color_index(colors, target, n) < n,
    decreases n,
{
    if n > 1 {
        lemma_nearest_color_index_range(colors, target, n - 1);
    }
}

/// The picked index attains the minimal Manhattan distance among the first
/// `n` entries, and every earlier entry lies strictly farther away: the
/// nearest pick is the first at minimal distance.
pub proof fn lemma_nearest_color_index_minimal(colors: Seq<Color>, target: Color, n: int)
    requires
        n >= 1,
    ensures
        forall|j: int|
            0 <= j < n ==> color_dist(colors[nearest_color_index(colors, target, n)], target)
                <= color_dist(#[trigger] colors[j], target),
        forall|j: int|
            0 <= j < nearest_color_index(colors, target, n) ==> color_dist(
                #[trigger] colors[j],
                target,
            ) > color_dist(colors[nearest_color_index(colors, target, n)], target),
    decreases n,
{
    if n > 1 {
        lemma_nearest_color_index_minimal(colors, target, n - 1);
    }
}

/// The palette index a stored color quantizes to: the first palette entry
/// at minimal Manhattan distance.
pub open spec fn quantized(c: Color) -> int {
    nearest_color_index(palette_colors(), c, 16)
}

} // verus!
