use vstd::prelude::*;
use crate::color::Color;
use crate::color::color_dist;
use crate::csi_color::CSIColor;
use crate::csi_color::{
    bg_codes, csi_bg, csi_fg, fg_codes, is_palette_table, lemma_nearest_color_index_range,
    nearest_color_index, palette_colors, quantized,
};

verus! {

broadcast use vstd::std_specs::vec::group_vec_axioms;

/// A cell's flattened index lies inside a `w * h` grid buffer.
pub proof fn lemma_cell_index_in_range(w: int, h: int, x: int, y: int)
    by (nonlinear_arith)
    requires
        0 <= x < w,
        0 <= y < h,
    ensures
        0 <= y * w + x < w * h,
{
}

/// Distinct cells of a grid have distinct flattened indices.
pub proof fn lemma_cell_index_injective(w: int, x1: int, y1: int, x2: int, y2: int)
    by (nonlinear_arith)
    requires
        0 <= x1 < w,
        0 <= x2 < w,
        y1 * w + x1 == y2 * w + x2,
    ensures
        x1 == x2 && y1 == y2,
{
}

/// A vector of `n` copies of one value.
fn filled<T: Copy>(n: usize, value: T) -> (v: Vec<T>)
    ensures
        v@.len() == n,
        forall|i: int| 0 <= i < n ==> v@[i] == value,
{
    let mut v: Vec<T> = Vec::new();
    let mut k: usize = 0;
    while k < n
        invariant
            k <= n,
            v@.len() == k,
            forall|i: int| 0 <= i < k ==> v@[i] == value,
        decreases n - k,
    {
        v.push(value);
        k = k + 1;
    }
    v
}

/// A framebuffer. Stores frame data such as dimensions and cells (colors
/// and characters for each console cell)
#[derive(Debug)]
pub struct Framebuffer {
    pub width: usize,
    pub height: usize,
    pub chars: Vec<char>,
    pub fg_colors: Vec<u8>,
    pub bg_colors: Vec<u8>,
}

impl Framebuffer {
    /// Well-formed: the glyph buffer holds exactly one entry per cell and
    /// each color buffer holds exactly three bytes per cell.
    pub open spec fn wf(&self) -> bool {
        &&& self.chars@.len() == self.width * self.height
        &&& self.fg_colors@.len() == self.width * self.height * 3
        &&& self.bg_colors@.len() == self.width * self.height * 3
    }

    /// Row-major flattened index of the cell at `(x, y)`.
    pub open spec fn cell_index(&self, x: int, y: int) -> int {
        y * self.width + x
    }

    /// The glyph stored for the cell at `(x, y)`.
    pub open spec fn cell_char(&self, x: int, y: int) -> char {
        self.chars@[self.cell_index(x, y)]
    }

    /// The foreground color stored for the cell at `(x, y)`.
    pub open spec fn cell_fg(&self, x: int, y: int) -> Color {
        (Color {
            r: self.fg_colors@[3 * self.cell_index(x, y)],
            g: self.fg_colors@[3 * self.cell_index(x, y) + 1],
            b: self.fg_colors@[3 * self.cell_index(x, y) + 2],
        })
    }

    /// The background color stored for the cell at `(x, y)`.
    pub open spec fn cell_bg(&self, x: int, y: int) -> Color {
        (Color {
            r: self.bg_colors@[3 * self.cell_index(x, y)],
            g: self.bg_colors@[3 * self.cell_index(x, y) + 1],
            b: self.bg_colors@[3 * self.cell_index(x, y) + 2],
        })
    }

    /// Create a new framebuffer
    pub fn new(width: usize, height: usize) -> (fb: Framebuffer)
        requires
            width * height * 3 <= usize::MAX,
        ensures
            fb.wf(),
            fb.width == width,
            fb.height == height,
            forall|x: int, y: int|
                0 <= x < width && 0 <= y < height ==> fb.cell_char(x, y) == ' ' && fb.cell_fg(x, y)
                    == (Color { r: 0, g: 0, b: 0 }) && fb.cell_bg(x, y) == (Color {
                    r: 0,
                    g: 0,
                    b: 0,
                }),
    {
        proof {
            assert(0 <= width * height && width * height * 3 == width * height + width * height
                + width * height) by (nonlinear_arith);
        }
        let chars_cap = width * height;
        let colors_cap = chars_cap * 3;

        let fb = Framebuffer {
            width: width,
            height: height,
            chars: filled(chars_cap, ' '),
            fg_colors: filled(colors_cap, 0),
            bg_colors: filled(colors_cap, 0),
        };

        proof {
            assert forall|x: int, y: int| 0 <= x < width && 0 <= y < height implies fb.cell_char(
                x,
                y,
            ) == ' ' && fb.cell_fg(x, y) == (Color { r: 0, g: 0, b: 0 }) && fb.cell_bg(x, y)
                == (Color { r: 0, g: 0, b: 0 }) by {
                lemma_cell_index_in_range(width as int, height as int, x, y);
            }
        }
        fb
    }

    /// Clear the framebuffer with a character and foreground/background color
    pub fn clear(&mut self, clear_char: char, clear_fg_color: Color, clear_bg_color: Color)
        requires
            old(self).wf(),
        ensures
            final (self).wf(),
            final (self).width == old(self).width,
            final (self).height == old(self).height,
            forall|x: int, y: int|
                0 <= x < old(self).width && 0 <= y < old(self).height ==> {
                    &&& final (self).cell_char(x, y) == clear_char
                    &&& final (self).cell_fg(x, y) == clear_fg_color
                    &&& final (self).cell_bg(x, y) == clear_bg_color
                },
    {
        proof {
            assert(self.chars.len() <= usize::MAX);
            assert(self.fg_colors.len() <= usize::MAX);
        }
        let buffer_size = self.width * self.height;
        let mut char_pos: usize = 0;
        let mut color_pos: usize = 0;

        proof {
            assert(0 <= buffer_size && buffer_size * 3 == buffer_size + buffer_size + buffer_size)
                by (nonlinear_arith);
        }

        while char_pos < buffer_size
            invariant
                self.wf(),
                self.width == old(self).width,
                self.height == old(self).height,
                buffer_size == self.width * self.height,
                char_pos <= buffer_size,
                color_pos == 3 * char_pos,
                forall|i: int| 0 <= i < char_pos ==> self.chars@[i] == clear_char,
                forall|i: int|
                    0 <= i < color_pos ==> self.fg_colors@[i] == spec_channel_of(
                        clear_fg_color,
                        i % 3,
                    ) && self.bg_colors@[i] == spec_channel_of(clear_bg_color, i % 3),
            decreases buffer_size - char_pos,
        {
            proof {
                assert(self.fg_colors.len() <= usize::MAX);
            }
            self.chars[char_pos] = clear_char;

            self.fg_colors[color_pos] = clear_fg_color.r;
            self.fg_colors[color_pos + 1] = clear_fg_color.g;
            self.fg_colors[color_pos + 2] = clear_fg_color.b;

            self.bg_colors[color_pos] = clear_bg_color.r;
            self.bg_colors[color_pos + 1] = clear_bg_color.g;
            self.bg_colors[color_pos + 2] = clear_bg_color.b;

            char_pos += 1;
            color_pos += 3;
        }

        proof {
            assert forall|x: int, y: int|
                0 <= x < old(self).width && 0 <= y < old(self).height implies self.cell_char(x, y)
                == clear_char && self.cell_fg(x, y) == clear_fg_color && self.cell_bg(x, y)
                == clear_bg_color by {
                lemma_cell_index_in_range(self.width as int, self.height as int, x, y);
                let p = self.cell_index(x, y);
                assert((3 * p) % 3 == 0 && (3 * p + 1) % 3 == 1 && (3 * p + 2) % 3 == 2)
                    by (nonlinear_arith);
            }
        }
    }

    /// Set a cell's character, foreground and or background colors
    pub fn set_cell(
        &mut self,
        x: usize,
        y: usize,
        character: Option<char>,
        fg_color: Option<Color>,
        bg_color: Option<Color>,
    )
        requires
            old(self).wf(),
        ensures
            final (self).wf(),
            final (self).width == old(self).width,
            final (self).height == old(self).height,
            x >= old(self).width || y >= old(self).height ==> final (self).chars@ == old(
                self,
            ).chars@ && final (self).fg_colors@ == old(self).fg_colors@ && final (self).bg_colors@
                == old(self).bg_colors@,
            x < old(self).width && y < old(self).height ==> {
                &&& final (self).cell_char(x as int, y as int) == (match character {
                    Some(c) => c,
                    None => old(self).cell_char(x as int, y as int),
                })
                &&& final (self).cell_fg(x as int, y as int) == (match fg_color {
                    Some(c) => c,
                    None => old(self).cell_fg(x as int, y as int),
                })
                &&& final (self).cell_bg(x as int, y as int) == (match bg_color {
                    Some(c) => c,
                    None => old(self).cell_bg(x as int, y as int),
                })
                &&& forall|i: int, j: int|
                    0 <= i < old(self).width && 0 <= j < old(self).height && !(i == x && j == y)
                        ==> {
                        &&& final (self).cell_char(i, j) == old(self).cell_char(i, j)
                        &&& final (self).cell_fg(i, j) == old(self).cell_fg(i, j)
                        &&& final (self).cell_bg(i, j) == old(self).cell_bg(i, j)
                    }
            },
    {
        // Abort if out of bounds
        if x >= self.width || y >= self.height {
            return ;
        }
        proof {
            assert(self.chars.len() <= usize::MAX);
            assert(self.fg_colors.len() <= usize::MAX);
            lemma_cell_index_in_range(self.width as int, self.height as int, x as int, y as int);
            assert(self.cell_index(x as int, y as int) < self.width * self.height && 3 * (
            self.cell_index(x as int, y as int)) + 2 < self.width * self.height * 3)
                by (nonlinear_arith)
                requires
                    0 <= (x as int) < self.width,
                    0 <= (y as int) < self.height,
                    self.cell_index(x as int, y as int) == y * self.width + x,
            ;
        }

        let char_pos = y * self.width + x;
        let color_pos = char_pos * 3;

        // Set character
        match character {
            Some(character) => self.chars[char_pos] = character,
            None => {},
        };

        // Set foreground color
        match fg_color {
            Some(color) => {
                self.fg_colors[color_pos] = color.r;
                self.fg_colors[color_pos + 1] = color.g;
                self.fg_colors[color_pos + 2] = color.b;
            },
            None => {},
        };

        // Set background color
        match bg_color {
            Some(color) => {
                self.bg_colors[color_pos] = color.r;
                self.bg_colors[color_pos + 1] = color.g;
                self.bg_colors[color_pos + 2] = color.b;
            },
            None => {},
        };

        proof {
            assert forall|i: int, j: int|
                0 <= i < old(self).width && 0 <= j < old(self).height && !(i == x as int && j
                    == y as int) implies self.cell_char(i, j) == old(self).cell_char(i, j)
                && self.cell_fg(i, j) == old(self).cell_fg(i, j) && self.cell_bg(i, j) == old(
                self,
            ).cell_bg(i, j) by {
                lemma_cell_index_in_range(self.width as int, self.height as int, i, j);
                if self.cell_index(i, j) == self.cell_index(x as int, y as int) {
                    lemma_cell_index_injective(self.width as int, i, j, x as int, y as int);
                }
            }
        }
    }

    /// Palette index that the cell's stored foreground quantizes to.
    pub open spec fn cell_fg_index(&self, x: int, y: int) -> int {
        quantized(self.cell_fg(x, y))
    }

    /// Palette index that the cell's stored background quantizes to.
    pub open spec fn cell_bg_index(&self, x: int, y: int) -> int {
        quantized(self.cell_bg(x, y))
    }

    /// Characters emitted for one cell: a foreground color-set sequence when
    /// the quantized foreground differs from the last emitted one, likewise
    /// independently for the background, then the cell's glyph.
    pub open spec fn cell_chars_out(&self, x: int, y: int, last_fg: int, last_bg: int) -> Seq<
        char,
    > {
        (if last_fg == self.cell_fg_index(x, y) {
            Seq::<char>::empty()
        } else {
            color_set_chars(fg_codes()[self.cell_fg_index(x, y)])
        }) + (if last_bg == self.cell_bg_index(x, y) {
            Seq::<char>::empty()
        } else {
            color_set_chars(bg_codes()[self.cell_bg_index(x, y)])
        }) + seq![self.cell_char(x, y)]
    }

    /// Characters emitted for the cells of row `y` from column `x` on, with
    /// `last_fg` and `last_bg` the palette indices last emitted (-1 when none
    /// has been).
    pub open spec fn row_chars_out(&self, y: int, x: int, last_fg: int, last_bg: int) -> Seq<char>
        decreases self.width - x,
    {
        if x < 0 || x >= self.width {
            Seq::<char>::empty()
        } else {
            self.cell_chars_out(x, y, last_fg, last_bg) + self.row_chars_out(
                y,
                x + 1,
                self.cell_fg_index(x, y),
                self.cell_bg_index(x, y),
            )
        }
    }

    /// The last-emitted foreground index after a whole row: unchanged when
    /// the row is empty.
    pub open spec fn row_end_fg(&self, y: int, last_fg: int) -> int {
        if self.width == 0 {
            last_fg
        } else {
            self.cell_fg_index(self.width - 1, y)
        }
    }

    /// The last-emitted background index after a whole row: unchanged when
    /// the row is empty.
    pub open spec fn row_end_bg(&self, y: int, last_bg: int) -> int {
        if self.width == 0 {
            last_bg
        } else {
            self.cell_bg_index(self.width - 1, y)
        }
    }

    /// Characters emitted for the rows from `y` down, each row after the
    /// first preceded by a line feed.
    pub open spec fn rows_chars_out(&self, y: int, last_fg: int, last_bg: int) -> Seq<char>
        decreases self.height - y,
    {
        if y < 0 || y >= self.height {
            Seq::<char>::empty()
        } else {
            (if y == 0 {
                Seq::<char>::empty()
            } else {
                seq!['\n']
            }) + self.row_chars_out(y, 0, last_fg, last_bg) + self.rows_chars_out(
                y + 1,
                self.row_end_fg(y, last_fg),
                self.row_end_bg(y, last_bg),
            )
        }
    }

    /// The full serialized frame: prefix, the diff-aware cell stream starting
    /// with no color emitted yet, and the suffix.
    pub open spec fn rendered(&self) -> Seq<char> {
        frame_prefix() + self.rows_chars_out(0, -1, -1) + frame_suffix()
    }

    /// Appends the decimal digits of `n`, most significant first.
    fn push_decimal(buf: &mut Vec<char>, n: usize)
        ensures
            final (buf)@ == old(buf)@ + decimal_chars(n as int),
        decreases n,
    {
        if n >= 10 {
            Self::push_decimal(buf, n / 10);
        }
        let d: usize = n % 10;
        let c: char = if d == 0 {
            '0'
        } else if d == 1 {
            '1'
        } else if d == 2 {
            '2'
        } else if d == 3 {
            '3'
        } else if d == 4 {
            '4'
        } else if d == 5 {
            '5'
        } else if d == 6 {
            '6'
        } else if d == 7 {
            '7'
        } else if d == 8 {
            '8'
        } else {
            '9'
        };
        buf.push(c);
        proof {
            assert(c == digit_char(n as int % 10));
            assert(buf@ =~= old(buf)@ + decimal_chars(n as int));
        }
    }

    /// Moves console cursor
    fn console_cursor(buf: &mut Vec<char>, x: usize, y: usize)
        requires
            x < usize::MAX,
            y < usize::MAX,
        ensures
            final (buf)@ == old(buf)@ + cursor_chars(x as int, y as int),
    {
        buf.push('\u{1b}');
        buf.push('[');
        Self::push_decimal(buf, y + 1);
        buf.push(';');
        Self::push_decimal(buf, x + 1);
        buf.push('H');
        proof {
            assert(buf@ =~= old(buf)@ + cursor_chars(x as int, y as int));
        }
    }

    /// Clears the console
    fn console_clear(buf: &mut Vec<char>)
        ensures
            final (buf)@ == old(buf)@ + seq!['\u{1b}', '[', '2', 'J'],
    {
        buf.push('\u{1b}');
        buf.push('[');
        buf.push('2');
        buf.push('J');
        proof {
            assert(buf@ =~= old(buf)@ + seq!['\u{1b}', '[', '2', 'J']);
        }
    }

    /// Pick nearest color from array. Returns index, not code
    fn pick_nearest_csi_color(colors: &Vec<CSIColor>, target: &Color) -> (picked: usize)
        requires
            colors@.len() == 16,
        ensures
            picked == nearest_color_index(
                colors@.map_values(|cc: CSIColor| cc.color),
                *target,
                16,
            ),
            picked < 16,
    {
        let ghost mapped = colors@.map_values(|cc: CSIColor| cc.color);
        let mut picked: usize = 0;
        let mut picked_dist: u16 = colors[0].color.dist(target);

        let mut i: usize = 1;
        while i < 16
            invariant
                colors@.len() == 16,
                mapped == colors@.map_values(|cc: CSIColor| cc.color),
                1 <= i <= 16,
                picked < i,
                picked == nearest_color_index(mapped, *target, i as int),
                picked_dist == color_dist(mapped[picked as int], *target),
            decreases 16 - i,
        {
            let dist = colors[i].color.dist(target);
            if dist < picked_dist {
                picked = i;
                picked_dist = dist;
            }
            i += 1;
        }

        picked
    }

    /// Sets the console back/foreground color
    fn console_color(
        buf: &mut Vec<char>,
        color: &Color,
        csi_colors: &Vec<CSIColor>,
        csi_last: &mut isize,
    )
        requires
            csi_colors@.len() == 16,
        ensures
            *final (csi_last) == nearest_color_index(
                csi_colors@.map_values(|cc: CSIColor| cc.color),
                *color,
                16,
            ),
            0 <= *final (csi_last) < 16,
            final (buf)@ == old(buf)@ + (if *old(csi_last) == *final (csi_last) {
                Seq::<char>::empty()
            } else {
                color_set_chars(csi_colors@[*final (csi_last) as int].code)
            }),
    {
        // Get nearest back/foreground color CSI code
        let this_code = Self::pick_nearest_csi_color(csi_colors, color);
        if *csi_last < 0 || this_code as isize != *csi_last {
            // Set to nearest if different than last color
            *csi_last = this_code as isize;
            buf.push('\u{1b}');
            buf.push('[');
            Self::push_decimal(buf, csi_colors[this_code].code as usize);
            buf.push('m');
            proof {
                assert(buf@ =~= old(buf)@ + color_set_chars(csi_colors@[this_code as int].code));
            }
        }
    }

    /// Resets console colors
    fn console_reset(buf: &mut Vec<char>)
        ensures
            final (buf)@ == old(buf)@ + reset_chars(),
    {
        buf.push('\u{1b}');
        buf.push('[');
        buf.push('0');
        buf.push('m');
        proof {
            assert(buf@ =~= old(buf)@ + reset_chars());
        }
    }

    /// Stops console output
    fn console_xoff(buf: &mut Vec<char>)
        ensures
            final (buf)@ == old(buf)@ + seq!['\u{13}'],
    {
        buf.push('\u{13}');  // XOFF ASCII
    }

    /// Continues console output
    fn console_xon(buf: &mut Vec<char>)
        ensures
            final (buf)@ == old(buf)@ + seq!['\u{11}'],
    {
        buf.push('\u{11}');  // XON ASCII
    }

    /// Relies on String's FromIterator<char> impl: collecting characters
    /// yields a string holding exactly those characters in order.
    #[verifier::external_body]
    fn chars_to_string(chars: &Vec<char>) -> (s: String)
        ensures
            s@ == chars@,
    {
        chars.iter().collect()
    }

    /// Render a frame to a string
    pub fn get_string(&self) -> (s: String)
        requires
            self.wf(),
        ensures
            s@ == self.rendered(),
    {
        // Make buffer
        let mut buf: Vec<char> = Vec::new();

        // Clear console
        Self::console_xoff(&mut buf);
        Self::console_reset(&mut buf);
        Self::console_clear(&mut buf);
        Self::console_cursor(&mut buf, 0, 0);
        proof {
            assert(buf@ =~= frame_prefix());
        }

        let fg_table = csi_fg();
        let bg_table = csi_bg();
        proof {
            assert(fg_table@.map_values(|cc: CSIColor| cc.color) =~= palette_colors());
            assert(bg_table@.map_values(|cc: CSIColor| cc.color) =~= palette_colors());
        }

        let ghost total: Seq<char> = frame_prefix() + self.rows_chars_out(0, -1, -1);

        // Print cells
        let mut char_pos: usize = 0;
        let mut color_pos: usize = 0;
        let mut last_fg: isize = -1;
        let mut last_bg: isize = -1;
        let mut y: usize = 0;
        while y < self.height
            invariant
                self.wf(),
                y <= self.height,
                char_pos == y * self.width,
                color_pos == 3 * char_pos,
                -1 <= last_fg < 16,
                -1 <= last_bg < 16,
                is_palette_table(fg_table@, fg_codes()),
                is_palette_table(bg_table@, bg_codes()),
                fg_table@.map_values(|cc: CSIColor| cc.color) == palette_colors(),
                bg_table@.map_values(|cc: CSIColor| cc.color) == palette_colors(),
                total == frame_prefix() + self.rows_chars_out(0, -1, -1),
                buf@ + self.rows_chars_out(y as int, last_fg as int, last_bg as int) == total,
            decreases self.height - y,
        {
            // Append line feed
            if y != 0 {
                buf.push('\n');  // LF ASCII
            }
            let ghost row_lf: int = last_fg as int;
            let ghost row_lb: int = last_bg as int;
            let ghost cont: Seq<char> = self.rows_chars_out(
                y as int + 1,
                self.row_end_fg(y as int, row_lf),
                self.row_end_bg(y as int, row_lb),
            );
            proof {
                assert(buf@ + self.row_chars_out(y as int, 0, row_lf, row_lb) + cont =~= total);
            }

            let mut x: usize = 0;
            while x < self.width
                invariant
                    self.wf(),
                    y < self.height,
                    x <= self.width,
                    char_pos == y * self.width + x,
                    color_pos == 3 * char_pos,
                    -1 <= last_fg < 16,
                    -1 <= last_bg < 16,
                    is_palette_table(fg_table@, fg_codes()),
                    is_palette_table(bg_table@, bg_codes()),
                    fg_table@.map_values(|cc: CSIColor| cc.color) == palette_colors(),
                    bg_table@.map_values(|cc: CSIColor| cc.color) == palette_colors(),
                    buf@ + self.row_chars_out(y as int, x as int, last_fg as int, last_bg as int)
                        + cont == total,
                    x == 0 ==> last_fg as int == row_lf && last_bg as int == row_lb,
                    x > 0 ==> last_fg as int == self.cell_fg_index(x - 1, y as int) && last_bg
                        as int == self.cell_bg_index(x - 1, y as int),
                    cont == self.rows_chars_out(
                        y as int + 1,
                        self.row_end_fg(y as int, row_lf),
                        self.row_end_bg(y as int, row_lb),
                    ),
                decreases self.width - x,
            {
                proof {
                    lemma_cell_index_in_range(
                        self.width as int,
                        self.height as int,
                        x as int,
                        y as int,
                    );
                    assert(self.chars.len() <= usize::MAX);
                    assert(self.fg_colors.len() <= usize::MAX);
                }
                let ghost lf0: int = last_fg as int;
                let ghost lb0: int = last_bg as int;
                let ghost buf0: Seq<char> = buf@;

                // Set colors
                let this_fg = Color {
                    r: self.fg_colors[color_pos],
                    g: self.fg_colors[color_pos + 1],
                    b: self.fg_colors[color_pos + 2],
                };
                Self::console_color(&mut buf, &this_fg, &fg_table, &mut last_fg);

                let this_bg = Color {
                    r: self.bg_colors[color_pos],
                    g: self.bg_colors[color_pos + 1],
                    b: self.bg_colors[color_pos + 2],
                };
                Self::console_color(&mut buf, &this_bg, &bg_table, &mut last_bg);

                // Set character
                buf.push(self.chars[char_pos]);

                proof {
                    assert(this_fg == self.cell_fg(x as int, y as int));
                    assert(this_bg == self.cell_bg(x as int, y as int));
                    assert(last_fg as int == self.cell_fg_index(x as int, y as int));
                    assert(last_bg as int == self.cell_bg_index(x as int, y as int));
                    assert(buf@ =~= buf0 + self.cell_chars_out(x as int, y as int, lf0, lb0));
                    assert(self.row_chars_out(y as int, x as int, lf0, lb0)
                        == self.cell_chars_out(x as int, y as int, lf0, lb0)
                        + self.row_chars_out(
                        y as int,
                        x as int + 1,
                        self.cell_fg_index(x as int, y as int),
                        self.cell_bg_index(x as int, y as int),
                    ));
                    assert(buf@ + self.row_chars_out(
                        y as int,
                        x as int + 1,
                        last_fg as int,
                        last_bg as int,
                    ) + cont =~= total);
                }

                char_pos += 1;
                color_pos += 3;
                x += 1;
            }

            proof {
                assert(self.row_chars_out(
                    y as int,
                    self.width as int,
                    last_fg as int,
                    last_bg as int,
                ) =~= Seq::<char>::empty());
                assert(last_fg as int == self.row_end_fg(y as int, row_lf));
                assert(last_bg as int == self.row_end_bg(y as int, row_lb));
                assert(buf@ + self.rows_chars_out(
                    y as int + 1,
                    last_fg as int,
                    last_bg as int,
                ) =~= total);
                assert((y as int + 1) * self.width == y as int * self.width + self.width)
                    by (nonlinear_arith);
            }
            y += 1;
        }

        proof {
            assert(self.rows_chars_out(self.height as int, last_fg as int, last_bg as int) =~= Seq::<
                char,
            >::empty());
            assert(buf@ =~= total);
        }

        // Reset colors
        Self::console_xon(&mut buf);
        Self::console_reset(&mut buf);
        proof {
            assert(buf@ =~= self.rendered());
        }
        Self::chars_to_string(&buf)
    }
}

/// The channel of a color selected by an offset in `0..3`, in buffer order.
pub open spec fn spec_channel_of(c: Color, offset: int) -> u8 {
    if offset == 0 {
        c.r
    } else if offset == 1 {
        c.g
    } else {
        c.b
    }
}

/// Decimal digit character for a value in `0..10`.
pub open spec fn digit_char(d: int) -> char {
    if d == 0 {
        '0'
    } else if d == 1 {
        '1'
    } else if d == 2 {
        '2'
    } else if d == 3 {
        '3'
    } else if d == 4 {
        '4'
    } else if d == 5 {
        '5'
    } else if d == 6 {
        '6'
    } else if d == 7 {
        '7'
    } else if d == 8 {
        '8'
    } else {
        '9'
    }
}

/// Decimal representation of a nonnegative integer, most significant digit
/// first.
pub open spec fn decimal_chars(n: int) -> Seq<char>
    recommends
        n >= 0,
    decreases n,
{
    if n < 10 {
        seq![digit_char(n)]
    } else {
        decimal_chars(n / 10) + seq![digit_char(n % 10)]
    }
}

/// The CSI sequence that sets a terminal color: escape, bracket, the code in
/// decimal, and a terminating `m`.
pub open spec fn color_set_chars(code: u8) -> Seq<char> {
    seq!['\u{1b}', '['] + decimal_chars(code as int) + seq!['m']
}

/// The CSI sequence that moves the cursor to the zero-based cell `(x, y)`
/// (the terminal itself counts rows and columns from one).
pub open spec fn cursor_chars(x: int, y: int) -> Seq<char> {
    seq!['\u{1b}', '['] + decimal_chars(y + 1) + seq![';'] + decimal_chars(x + 1) + seq!['H']
}

/// The CSI sequence that resets all terminal colors.
pub open spec fn reset_chars() -> Seq<char> {
    seq!['\u{1b}', '[', '0', 'm']
}

/// Everything emitted ahead of the cells: the flow-stop byte, a color
/// reset, a clear-screen sequence, and a cursor-home sequence.
pub open spec fn frame_prefix() -> Seq<char> {
    seq!['\u{13}'] + reset_chars() + seq!['\u{1b}', '[', '2', 'J'] + cursor_chars(0, 0)
}

/// Everything emitted after the cells: the flow-resume byte and a final
/// color reset.
pub open spec fn frame_suffix() -> Seq<char> {
    seq!['\u{11}'] + reset_chars()
}

/// Whether every cell of the framebuffer holds the glyph `g`, the foreground
/// color `fg` and the background color `bg`.
pub open spec fn uniform_cells(fb: Framebuffer, g: char, fg: Color, bg: Color) -> bool {
    forall|x: int, y: int|
        0 <= x < fb.width && 0 <= y < fb.height ==> {
            &&& #[trigger] fb.cell_char(x, y) == g
            &&& fb.cell_fg(x, y) == fg
            &&& fb.cell_bg(x, y) == bg
        }
}

/// The glyphs of the rows from `y` down in a `w`-column, `h`-row grid whose
/// every cell shows `g`: `w` copies of `g` per row, each row after the first
/// preceded by a line feed, and no color sequences at all.
pub open spec fn uniform_glyph_rows(g: char, w: int, y: int, h: int) -> Seq<char>
    decreases h - y,
{
    if y < 0 || y >= h {
        Seq::<char>::empty()
    } else {
        (if y == 0 {
            Seq::<char>::empty()
        } else {
            seq!['\n']
        }) + Seq::new(w as nat, |i: int| g) + uniform_glyph_rows(g, w, y + 1, h)
    }
}

/// In a uniform frame, a row suffix entered with both quantized palette
/// indices already emitted produces only glyphs.
proof fn lemma_uniform_row(fb: Framebuffer, g: char, fg: Color, bg: Color, y: int, x: int)
    requires
        fb.wf(),
        uniform_cells(fb, g, fg, bg),
        0 <= y < fb.height,
        0 <= x <= fb.width,
    ensures
        fb.row_chars_out(y, x, quantized(fg), quantized(bg)) == Seq::new(
            (fb.width - x) as nat,
            |i: int| g,
        ),
    decreases fb.width - x,
{
    if x < fb.width {
        lemma_uniform_row(fb, g, fg, bg, y, x + 1);
        assert(fb.cell_chars_out(x, y, quantized(fg), quantized(bg)) =~= seq![g]);
        assert(fb.row_chars_out(y, x, quantized(fg), quantized(bg)) =~= Seq::new(
            (fb.width - x) as nat,
            |i: int| g,
        ));
    } else {
        assert(fb.row_chars_out(y, x, quantized(fg), quantized(bg)) =~= Seq::new(
            (fb.width - x) as nat,
            |i: int| g,
        ));
    }
}

/// In a uniform frame, the rows from `y >= 1` down entered with both
/// quantized palette indices already emitted produce only glyphs and line
/// feeds.
proof fn lemma_uniform_rows(fb: Framebuffer, g: char, fg: Color, bg: Color, y: int)
    requires
        fb.wf(),
        uniform_cells(fb, g, fg, bg),
        1 <= y <= fb.height,
    ensures
        fb.rows_chars_out(y, quantized(fg), quantized(bg)) == uniform_glyph_rows(
            g,
            fb.width as int,
            y,
            fb.height as int,
        ),
    decreases fb.height - y,
{
    if y < fb.height {
        lemma_uniform_rows(fb, g, fg, bg, y + 1);
        lemma_uniform_row(fb, g, fg, bg, y, 0);
        if fb.width > 0 {
            assert(fb.cell_char(fb.width - 1, y) == g);
            assert(fb.row_end_fg(y, quantized(fg)) == quantized(fg));
            assert(fb.row_end_bg(y, quantized(bg)) == quantized(bg));
        }
        assert(fb.rows_chars_out(y, quantized(fg), quantized(bg)) =~= uniform_glyph_rows(
            g,
            fb.width as int,
            y,
            fb.height as int,
        ));
    } else {
        assert(fb.rows_chars_out(y, quantized(fg), quantized(bg)) =~= uniform_glyph_rows(
            g,
            fb.width as int,
            y,
            fb.height as int,
        ));
    }
}

/// A nonempty frame whose cells all hold one glyph and one pair of colors
/// serializes with exactly one foreground color-set sequence and one
/// background color-set sequence — both emitted at the first cell, after
/// which the diff-aware stream repeats only the glyph grid.
#[verifier::rlimit(60)]
pub proof fn lemma_uniform_frame_rendered(fb: Framebuffer, g: char, fg: Color, bg: Color)
    requires
        fb.wf(),
        fb.width >= 1,
        fb.height >= 1,
        uniform_cells(fb, g, fg, bg),
    ensures
        fb.rendered() == frame_prefix() + color_set_chars(fg_codes()[quantized(fg)])
            + color_set_chars(bg_codes()[quantized(bg)]) + uniform_glyph_rows(
            g,
            fb.width as int,
            0,
            fb.height as int,
        ) + frame_suffix(),
{
    let qf = quantized(fg);
    let qb = quantized(bg);
    lemma_nearest_color_index_range(palette_colors(), fg, 16);
    lemma_nearest_color_index_range(palette_colors(), bg, 16);

    assert(fb.cell_chars_out(0, 0, -1, -1) == color_set_chars(fg_codes()[qf]) + color_set_chars(
        bg_codes()[qb],
    ) + seq![g]);

    lemma_uniform_row(fb, g, fg, bg, 0, 1);
    lemma_uniform_rows(fb, g, fg, bg, 1);

    assert(fb.row_chars_out(0, 0, -1, -1) == fb.cell_chars_out(0, 0, -1, -1) + fb.row_chars_out(
        0,
        1,
        qf,
        qb,
    ));
    assert(fb.cell_char(fb.width - 1, 0) == g);
    assert(fb.cell_char(0, 0) == g);
    assert(fb.row_end_fg(0, -1) == qf && fb.row_end_bg(0, -1) == qb);
    assert(fb.rows_chars_out(0, -1, -1) == fb.row_chars_out(0, 0, -1, -1) + fb.rows_chars_out(
        1,
        qf,
        qb,
    ));

    assert(seq![g] + Seq::new((fb.width - 1) as nat, |i: int| g) =~= Seq::new(
        fb.width as nat,
        |i: int| g,
    ));
    assert(uniform_glyph_rows(g, fb.width as int, 0, fb.height as int) == Seq::new(
        fb.width as nat,
        |i: int| g,
    ) + uniform_glyph_rows(g, fb.width as int, 1, fb.height as int));

    assert(fb.rendered() =~= frame_prefix() + color_set_chars(fg_codes()[qf]) + color_set_chars(
        bg_codes()[qb],
    ) + uniform_glyph_rows(g, fb.width as int, 0, fb.height as int) + frame_suffix());
}

} // verus!
