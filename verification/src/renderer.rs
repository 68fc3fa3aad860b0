//! The integer side of frame rendering: terminal cells, the star field's colours,
//! folding half-block pixels into cells, text overlays, and the escape-sequence stream
//! that brings the terminal from one frame to the next.
use vstd::prelude::*;
use crate::palette::{Rgb, backdrop_spec, bg_seq_spec, fg_seq_spec, push_color_seq};
use crate::text::{
    ascii_upper_seq, decimal, hex_digits, is_ascii_text, push_char, push_decimal, push_hex_digits, to_uppercase,
    uppercase,
};
use vstd::wrapping::u32_specs;
use crate::controls::{Action, InputModel, Key, SPEED_COUNT, key_step};

verus! {

/// One terminal cell: a character drawn in a foreground colour on a background colour.
#[derive(Clone, PartialEq, Eq, Debug, Structural)]
pub struct Cell {
    pub fg: Rgb,
    pub bg: Rgb,
    pub ch: char,
}

pub open spec fn black() -> Rgb {
    Rgb(0, 0, 0)
}

/// An empty cell: a space on black.
pub open spec fn blank_cell() -> Cell {
    Cell { fg: black(), bg: black(), ch: ' ' }
}

impl Cell {
    pub fn blank() -> (c: Cell)
        ensures
            c == blank_cell(),
    {
        Cell { fg: Rgb(0, 0, 0), bg: Rgb(0, 0, 0), ch: ' ' }
    }
}

// ---------------------------------------------------------------------------
// Background stars

/// The 32-bit hash behind the star field's pseudo-random numbers.
pub open spec fn star_bits_spec(x: u32, y: u32) -> u32 {
    let h0 = u32_specs::wrapping_mul(x, 0x27d4eb2d) ^ u32_specs::wrapping_mul(y, 0x165667b1);
    let h1 = h0 ^ (h0 >> 15u32);
    let h2 = u32_specs::wrapping_mul(h1, 0x85ebca6b);
    let h3 = h2 ^ (h2 >> 13u32);
    let h4 = u32_specs::wrapping_mul(h3, 0xc2b2ae35);
    h4 ^ (h4 >> 16u32)
}

/// Hashes `(x, y)`; divided by `u32::MAX` the result is the star field's number in [0, 1].
pub fn star_bits(x: u32, y: u32) -> (h: u32)
    ensures
        h == star_bits_spec(x, y),
{
    let mut h = x.wrapping_mul(0x27d4eb2d);
    h = h ^ y.wrapping_mul(0x165667b1);
    h = h ^ (h >> 15);
    h = h.wrapping_mul(0x85ebca6b);
    h = h ^ (h >> 13);
    h = h.wrapping_mul(0xc2b2ae35);
    h = h ^ (h >> 16);
    h
}

/// The colour of star `i`: bright white for about 8% of stars, warm grey for about 27%,
/// dim blue-grey for the rest. The draw `h / u32::MAX` is below 0.08 exactly when
/// `h <= 343597383`, and below 0.35 exactly when `h <= 1503238553`.
pub open spec fn star_color_spec(i: usize) -> Rgb {
    let h = star_bits_spec(((i as u32) * 3 + 2) as u32, 29);
    if h <= 343597383 {
        Rgb(180, 180, 180)
    } else if h <= 1503238553 {
        Rgb(120, 108, 90)
    } else {
        Rgb(60, 63, 70)
    }
}

pub fn star_color(i: usize) -> (c: Rgb)
    requires
        (i as u32) * 3 + 2 <= u32::MAX,
    ensures
        c == star_color_spec(i),
{
    let h = star_bits((i as u32) * 3 + 2, 29);
    if h <= 343597383 {
        Rgb(180, 180, 180)
    } else if h <= 1503238553 {
        Rgb(120, 108, 90)
    } else {
        Rgb(60, 63, 70)
    }
}

/// Whether star `i` is drawn with the small glyph: its draw is below 0.10, that is
/// `h <= 429496729`.
pub open spec fn star_is_small_spec(i: usize) -> bool {
    star_bits_spec(((i as u32) * 3 + 5) as u32, 41) <= 429496729
}

pub fn star_is_small(i: usize) -> (b: bool)
    requires
        (i as u32) * 3 + 5 <= u32::MAX,
    ensures
        b == star_is_small_spec(i),
{
    star_bits((i as u32) * 3 + 5, 41) <= 429496729
}

/// A star on a cell: drawn only where the cell is still blank.
pub open spec fn star_over(c: Cell, star: Option<(Rgb, bool)>) -> Cell {
    match star {
        Some((color, small)) => if c == blank_cell() {
            Cell { fg: color, bg: black(), ch: if small { '◉' } else { '●' } }
        } else {
            c
        },
        None => c,
    }
}

/// Puts the star layer (one optional star per cell, with its colour and whether it is
/// small) over the blank cells of a frame; cells that show anything keep it.
pub fn overlay_stars(cells: &mut [Cell], stars: &[Option<(Rgb, bool)>])
    requires
        forall|k: int| 0 <= k < stars@.len() && (#[trigger] stars@[k]) is Some ==> k < old(cells)@.len(),
    ensures
        final(cells)@.len() == old(cells)@.len(),
        forall|k: int|
            0 <= k < old(cells)@.len() ==> #[trigger] final(cells)@[k] == star_over(
                old(cells)@[k],
                if k < stars@.len() { stars@[k] } else { None },
            ),
{
    let ghost start = cells@;
    let mut i: usize = 0;
    while i < stars.len()
        invariant
            i <= stars@.len(),
            cells@.len() == start.len(),
            forall|k: int| 0 <= k < stars@.len() && (#[trigger] stars@[k]) is Some ==> k < start.len(),
            forall|k: int|
                0 <= k < start.len() ==> #[trigger] cells@[k] == if k < i {
                    star_over(start[k], stars@[k])
                } else {
                    start[k]
                },
        decreases stars@.len() - i,
    {
        if let Some((color, small)) = stars[i] {
            if cells[i] == Cell::blank() {
                let ch = if small { '◉' } else { '●' };
                cells[i] = Cell { fg: color, bg: Rgb(0, 0, 0), ch };
            }
        }
        i = i + 1;
    }
}

// ---------------------------------------------------------------------------
// Half-block pixels to cells

/// A cell showing two stacked pixels: the upper half block takes the top pixel as its
/// foreground; a lone bottom pixel is drawn with the lower half block; no pixels, a blank.
pub open spec fn pixel_pair_cell(top: Option<Rgb>, bot: Option<Rgb>) -> Cell {
    match (top, bot) {
        (Some(t), Some(b)) => Cell { fg: t, bg: b, ch: '▀' },
        (Some(t), None) => Cell { fg: t, bg: black(), ch: '▀' },
        (None, Some(b)) => Cell { fg: b, bg: black(), ch: '▄' },
        (None, None) => blank_cell(),
    }
}

/// The cell at index `k` of a frame `width` cells wide, from the pixel rows
/// `2 * row` and `2 * row + 1` above it.
pub open spec fn cell_from_pixels(pixels: Seq<Option<Rgb>>, width: int, k: int) -> Cell {
    let row = k / width;
    let col = k % width;
    pixel_pair_cell(pixels[2 * row * width + col], pixels[(2 * row + 1) * width + col])
}

proof fn lemma_pixel_indices(k: int, width: int, height: int)
    requires
        0 <= k < width * height,
        0 < width,
    ensures
        0 <= k / width < height,
        0 <= k % width < width,
        0 <= (k / width * 2) * width + k % width,
        (k / width * 2) * width + k % width < 2 * height * width,
        (k / width * 2 + 1) * width == (k / width * 2) * width + width,
        (k / width * 2 + 1) * width + k % width < 2 * height * width,
{
    let q = k / width;
    let r = k % width;
    assert(k == q * width + r && 0 <= r < width && 0 <= q) by (nonlinear_arith)
        requires
            0 < width,
            0 <= k,
            q == k / width,
            r == k % width,
    ;
    assert(q < height) by (nonlinear_arith)
        requires
            k == q * width + r,
            0 <= r,
            0 <= k < width * height,
            0 < width,
    {
        if q >= height {
            assert(q * width >= height * width);
            assert(height * width == width * height);
        }
    }
    assert((q * 2 + 1) * width + r < 2 * height * width && 0 <= (q * 2) * width + r
        && (q * 2 + 1) * width == (q * 2) * width + width) by (nonlinear_arith)
        requires
            0 <= q < height,
            0 <= r < width,
    ;
}

/// Folds a pixel grid `pixel_h` rows high into terminal cells, two pixel rows per cell row.
pub fn pixels_to_cells(pixels: &[Option<Rgb>], width: usize, pixel_h: usize) -> (cells: Vec<Cell>)
    requires
        2 * (pixel_h / 2) * width <= pixels@.len(),
    ensures
        cells@.len() == width * (pixel_h / 2),
        forall|k: int|
            0 <= k < cells@.len() ==> #[trigger] cells@[k] == cell_from_pixels(
                pixels@,
                width as int,
                k,
            ),
{
    let height = pixel_h / 2;
    let plen = pixels.len();
    assert(width * height <= pixels@.len()) by (nonlinear_arith)
        requires
            2 * height * width <= pixels@.len(),
    ;
    let total = width * height;
    let mut cells: Vec<Cell> = Vec::new();
    let mut k: usize = 0;
    while k < total
        invariant
            total == width * height,
            height == pixel_h / 2,
            2 * height * width <= pixels@.len(),
            pixels@.len() == plen,
            k <= total,
            cells@.len() == k,
            forall|j: int|
                0 <= j < k ==> #[trigger] cells@[j] == cell_from_pixels(pixels@, width as int, j),
        decreases total - k,
    {
        proof {
            lemma_pixel_indices(k as int, width as int, height as int);
        }
        let row = k / width;
        let col = k % width;
        let top = pixels[(row * 2) * width + col];
        let bot = pixels[(row * 2 + 1) * width + col];
        let cell = match (top, bot) {
            (Some(t), Some(b)) => Cell { fg: t, bg: b, ch: '▀' },
            (Some(t), None) => Cell { fg: t, bg: Rgb(0, 0, 0), ch: '▀' },
            (None, Some(b)) => Cell { fg: b, bg: Rgb(0, 0, 0), ch: '▄' },
            (None, None) => Cell::blank(),
        };
        cells.push(cell);
        k = k + 1;
    }
    cells
}

/// A cell is blank exactly when neither of its two pixels is lit.
pub proof fn lemma_blank_iff_no_pixels(top: Option<Rgb>, bot: Option<Rgb>)
    ensures
        (pixel_pair_cell(top, bot) == blank_cell()) <==> (top is None && bot is None),
{
}

// ---------------------------------------------------------------------------
// Text

/// The cells after writing `text` on row `row` from column `col0`, cut off at the
/// right edge of a frame `width` cells wide.
pub open spec fn put_str_spec(
    cells: Seq<Cell>,
    width: int,
    row: int,
    col0: int,
    text: Seq<char>,
    fg: Rgb,
    bg: Rgb,
) -> Seq<Cell> {
    Seq::new(cells.len(), |k: int| put_str_cell(cells[k], k - row * width, width, col0, text, fg, bg))
}

/// The cell in column `col` after the write: a character of `text` where the text
/// covers it within the frame, else the cell as it was.
pub open spec fn put_str_cell(
    old: Cell,
    col: int,
    width: int,
    col0: int,
    text: Seq<char>,
    fg: Rgb,
    bg: Rgb,
) -> Cell {
    if col0 <= col && col < width && col - col0 < text.len() {
        Cell { fg, bg, ch: text[col - col0] }
    } else {
        old
    }
}

/// Every cell that writing `len` characters at `(row, col0)` touches lies in the frame.
pub open spec fn put_str_fits(cells_len: int, width: int, row: int, col0: int, len: int) -> bool {
    col0 < width && len > 0 ==> row * width + (if col0 + len < width { col0 + len } else { width })
        <= cells_len
}

/// Writes `text` in the given colours on row `row`, starting at column `col0` and
/// stopping at the right edge.
pub fn put_str(cells: &mut [Cell], width: usize, row: usize, col0: usize, text: &str, fg: Rgb, bg: Rgb)
    requires
        put_str_fits(old(cells)@.len() as int, width as int, row as int, col0 as int, text@.len() as int),
    ensures
        final(cells)@ == put_str_spec(old(cells)@, width as int, row as int, col0 as int, text@, fg, bg),
{
    let ghost start = cells@;
    let len = cells.len();
    let n = text.unicode_len();
    let mut i: usize = 0;
    while i < n
        invariant
            n == text@.len(),
            i <= n,
            col0 + i <= width || i == 0,
            start.len() == len,
            cells@.len() == len,
            put_str_fits(start.len() as int, width as int, row as int, col0 as int, n as int),
            cells@ == put_str_spec(start, width as int, row as int, col0 as int, text@.take(i as int), fg, bg),
        ensures
            i == n || col0 + i >= width,
            cells@ == put_str_spec(start, width as int, row as int, col0 as int, text@.take(i as int), fg, bg),
        decreases n - i,
    {
        let col = col0 + i;
        if col >= width {
            break;
        }
        assert(row * width + col < start.len()) by (nonlinear_arith)
            requires
                put_str_fits(start.len() as int, width as int, row as int, col0 as int, n as int),
                col == col0 + i,
                i < n,
                col < width,
        ;
        let idx = row * width + col;
        let ghost before = cells@;
        cells[idx] = Cell { fg, bg, ch: text.get_char(i) };
        proof {
            let next = put_str_spec(start, width as int, row as int, col0 as int, text@.take(i + 1), fg, bg);
            assert forall|k: int| 0 <= k < cells@.len() implies #[trigger] cells@[k] == next[k] by {
                if k != idx {
                    assert(k - row * width != col);
                } else {
                    assert(text@.take(i + 1)[i as int] == text@[i as int]);
                }
            }
            assert(cells@ =~= next);
        }
        i = i + 1;
    }
    proof {
        let full = put_str_spec(start, width as int, row as int, col0 as int, text@, fg, bg);
        let part = put_str_spec(start, width as int, row as int, col0 as int, text@.take(i as int), fg, bg);
        assert forall|k: int| 0 <= k < cells@.len() implies #[trigger] cells@[k] == full[k] by {
            assert(cells@[k] == part[k]);
        }
        assert(cells@ =~= full);
    }
}

pub open spec fn title_fg() -> Rgb {
    Rgb(230, 230, 240)
}

pub open spec fn bracket_fg() -> Rgb {
    Rgb(120, 120, 160)
}

/// The title text: the given capitals with two spaces on each side.
pub open spec fn caps_label(caps: Seq<char>) -> Seq<char> {
    seq![' ', ' '] + caps + seq![' ', ' ']
}

/// Every cell that the title written from `caps` touches lies in a frame of
/// `cells_len` cells: the title is drawn only where it leaves two columns free.
pub open spec fn title_fits(cells_len: int, width: int, caps: Seq<char>) -> bool {
    let w = caps_label(caps).len() as int;
    w + 2 < width ==> (width - w) / 2 + w < cells_len
}

/// The frame with the title made from `caps` centred on the top row between a `[`
/// and a `]`, unless the title needs more than the width less two.
pub open spec fn draw_title_text_spec(cells: Seq<Cell>, width: int, caps: Seq<char>) -> Seq<Cell> {
    let label = caps_label(caps);
    let w = label.len() as int;
    if w + 2 >= width {
        cells
    } else {
        let start = (width - w) / 2;
        let written = put_str_spec(cells, width, 0, start, label, title_fg(), black());
        let left = if start >= 1 { start - 1 } else { 0 };
        let right = start + w;
        let with_left = if left < width {
            written.update(left, Cell { fg: bracket_fg(), bg: black(), ch: '[' })
        } else {
            written
        };
        if right < width {
            with_left.update(right, Cell { fg: bracket_fg(), bg: black(), ch: ']' })
        } else {
            with_left
        }
    }
}

/// The frame with the planet's name, in capitals, as its title.
pub open spec fn draw_title_spec(cells: Seq<Cell>, width: int, name: Seq<char>) -> Seq<Cell> {
    draw_title_text_spec(cells, width, uppercase(name))
}

/// Draws the title made from the capitals `caps`, centred on the top row.
pub fn draw_title_text(cells: &mut [Cell], width: usize, caps: &str)
    requires
        title_fits(old(cells)@.len() as int, width as int, caps@),
    ensures
        final(cells)@ == draw_title_text_spec(old(cells)@, width as int, caps@),
{
    let mut label = String::new();
    push_char(&mut label, ' ');
    push_char(&mut label, ' ');
    label.append(caps);
    push_char(&mut label, ' ');
    push_char(&mut label, ' ');
    assert(label@ =~= caps_label(caps@));
    let w = label.as_str().unicode_len();
    if w >= width || width - w <= 2 {
        return;
    }
    let start = (width - w) / 2;
    put_str(cells, width, 0, start, label.as_str(), Rgb(230, 230, 240), Rgb(0, 0, 0));
    let left = if start >= 1 { start - 1 } else { 0 };
    let right = start + w;
    if left < width {
        cells[left] = Cell { fg: Rgb(120, 120, 160), bg: Rgb(0, 0, 0), ch: '[' };
    }
    if right < width {
        cells[right] = Cell { fg: Rgb(120, 120, 160), bg: Rgb(0, 0, 0), ch: ']' };
    }
}

/// Draws the planet's name, in capitals, centred on the top row.
pub fn draw_title(cells: &mut [Cell], width: usize, name: &str)
    requires
        title_fits(old(cells)@.len() as int, width as int, uppercase(name@)),
    ensures
        final(cells)@ == draw_title_spec(old(cells)@, width as int, name@),
        is_ascii_text(name@) ==> final(cells)@ == draw_title_text_spec(
            old(cells)@,
            width as int,
            ascii_upper_seq(name@),
        ),
{
    let upper = to_uppercase(name);
    draw_title_text(cells, width, upper.as_str());
}

/// The column where the seed label starts: one cell in from the right edge.
pub open spec fn seed_label_col(width: int) -> int {
    if width >= 17 { width - 17 } else { 0 }
}

pub open spec fn seed_fg() -> Rgb {
    Rgb(65, 65, 78)
}

/// The frame with the seed, as sixteen hexadecimal digits, at the right of the top row.
pub open spec fn draw_seed_spec(cells: Seq<Cell>, width: int, seed: u64) -> Seq<Cell> {
    put_str_spec(cells, width, 0, seed_label_col(width), hex_digits(seed as nat, 16), seed_fg(), black())
}

/// Draws the seed of a generated planet in the top-right corner.
pub fn draw_seed(cells: &mut [Cell], width: usize, seed: u64)
    requires
        put_str_fits(old(cells)@.len() as int, width as int, 0, seed_label_col(width as int), 16),
    ensures
        final(cells)@ == draw_seed_spec(old(cells)@, width as int, seed),
{
    let mut label = String::new();
    push_hex_digits(&mut label, seed, 16);
    proof {
        crate::text::lemma_hex16_round_trip(seed);
    }
    assert(label@ =~= hex_digits(seed as nat, 16));
    let col0 = if width >= 17 { width - 17 } else { 0 };
    put_str(cells, width, 0, col0, label.as_str(), Rgb(65, 65, 78), Rgb(0, 0, 0));
}

/// The seed prompt as shown: ` seed: ` then the digits typed so far, a cursor and a space.
pub open spec fn seed_prompt(input: Seq<char>) -> Seq<char> {
    seq![' ', 's', 'e', 'e', 'd', ':', ' '] + input + seq!['_', ' ']
}

pub open spec fn prompt_fg() -> Rgb {
    Rgb(220, 220, 240)
}

pub open spec fn prompt_bg() -> Rgb {
    Rgb(30, 30, 45)
}

/// Whether the prompt is drawn: it must leave at least two columns free and the frame
/// must be at least three rows high.
pub open spec fn seed_prompt_shown(width: int, height: int, input: Seq<char>) -> bool {
    !(seed_prompt(input).len() + 2 >= width || height < 3)
}

/// The frame with the seed prompt centred on the second row from the bottom.
pub open spec fn draw_seed_input_spec(cells: Seq<Cell>, width: int, height: int, input: Seq<char>) -> Seq<Cell> {
    let p = seed_prompt(input);
    if !seed_prompt_shown(width, height, input) {
        cells
    } else {
        put_str_spec(cells, width, height - 2, (width - p.len()) / 2, p, prompt_fg(), prompt_bg())
    }
}

/// Draws the seed prompt with the digits typed so far.
pub fn draw_seed_input(cells: &mut [Cell], width: usize, height: usize, input: &str)
    requires
        seed_prompt_shown(width as int, height as int, input@) ==> put_str_fits(
            old(cells)@.len() as int,
            width as int,
            height - 2,
            (width - seed_prompt(input@).len()) / 2,
            seed_prompt(input@).len() as int,
        ),
    ensures
        final(cells)@ == draw_seed_input_spec(old(cells)@, width as int, height as int, input@),
{
    let mut prompt = String::new();
    push_char(&mut prompt, ' ');
    push_char(&mut prompt, 's');
    push_char(&mut prompt, 'e');
    push_char(&mut prompt, 'e');
    push_char(&mut prompt, 'd');
    push_char(&mut prompt, ':');
    push_char(&mut prompt, ' ');
    prompt.append(input);
    push_char(&mut prompt, '_');
    push_char(&mut prompt, ' ');
    assert(prompt@ =~= seed_prompt(input@));
    let w = prompt.as_str().unicode_len();
    if w >= width || width - w <= 2 || height < 3 {
        return;
    }
    let col0 = (width - w) / 2;
    put_str(cells, width, height - 2, col0, prompt.as_str(), Rgb(220, 220, 240), Rgb(30, 30, 45));
}


// ---------------------------------------------------------------------------
// Help box

/// Number of text lines in the help box.
pub const HELP_LINE_COUNT: usize = 9;

/// The lines of the help box, the first one its title.
pub open spec fn help_line(i: int) -> Seq<char> {
    if i == 0 {
        " Controls "@
    } else if i == 1 {
        ""@
    } else if i == 2 {
        " 1-8    switch planet"@
    } else if i == 3 {
        " +  -   zoom in / out"@
    } else if i == 4 {
        " [  ]   rotation speed"@
    } else if i == 5 {
        " r      random planet"@
    } else if i == 6 {
        " s      enter seed"@
    } else if i == 7 {
        " h      toggle this help"@
    } else {
        " q      quit (or close help)"@
    }
}

fn help_line_str(i: usize) -> (s: &'static str)
    requires
        i < HELP_LINE_COUNT,
    ensures
        s@ == help_line(i as int),
{
    if i == 0 {
        " Controls "
    } else if i == 1 {
        ""
    } else if i == 2 {
        " 1-8    switch planet"
    } else if i == 3 {
        " +  -   zoom in / out"
    } else if i == 4 {
        " [  ]   rotation speed"
    } else if i == 5 {
        " r      random planet"
    } else if i == 6 {
        " s      enter seed"
    } else if i == 7 {
        " h      toggle this help"
    } else {
        " q      quit (or close help)"
    }
}

/// The length of the longest of the first `n` help lines.
pub open spec fn longest_help_line(n: nat) -> nat
    decreases n,
{
    if n == 0 {
        0
    } else {
        let m = longest_help_line((n - 1) as nat);
        let l = help_line(n - 1).len();
        if l > m { l } else { m }
    }
}

/// The help box tells the truth about the keys: outside the seed prompt, each line's
/// keys do what the line says. `1` to `8` pick a planet; `+` zooms in and `-` out; `[`
/// and `]` step the rotation speed down and up within its table; `r` shows a random
/// planet; `s` opens the seed prompt; `h` toggles the help; `q` closes the help, or quits
/// when it is closed.
pub proof fn lemma_help_lines_match_keys(m: InputModel)
    requires
        m.seed_input is None,
    ensures
        help_line(0) == " Controls "@,
        help_line(1) == ""@,
        help_line(2) == " 1-8    switch planet"@,
        help_line(2)[1] == '1' && help_line(2)[3] == '8',
        forall|c: char| '1' <= c <= '8' ==> #[trigger] key_step(m, Key::Char(c)).1 is SelectPlanet,
        help_line(3) == " +  -   zoom in / out"@,
        key_step(m, Key::Char(help_line(3)[1])) == (m, Action::ZoomIn),
        key_step(m, Key::Char(help_line(3)[4])) == (m, Action::ZoomOut),
        help_line(4) == " [  ]   rotation speed"@,
        key_step(m, Key::Char(help_line(4)[1])).1 == Action::Nothing,
        key_step(m, Key::Char(help_line(4)[4])).1 == Action::Nothing,
        m.speed_idx > 0 ==> key_step(m, Key::Char(help_line(4)[1])).0.speed_idx == m.speed_idx - 1,
        m.speed_idx + 1 < SPEED_COUNT ==> key_step(m, Key::Char(help_line(4)[4])).0.speed_idx == m.speed_idx + 1,
        help_line(5) == " r      random planet"@,
        key_step(m, Key::Char(help_line(5)[1])) == (m, Action::RandomPlanet),
        help_line(6) == " s      enter seed"@,
        key_step(m, Key::Char(help_line(6)[1])).0.seed_input == Some(Seq::<char>::empty()),
        help_line(7) == " h      toggle this help"@,
        key_step(m, Key::Char(help_line(7)[1])).0.show_help == !m.show_help,
        help_line(8) == " q      quit (or close help)"@,
        m.show_help ==> key_step(m, Key::Char(help_line(8)[1])).0.show_help == false,
        !m.show_help ==> key_step(m, Key::Char(help_line(8)[1])).1 == Action::Quit,
{
    reveal_strlit(" 1-8    switch planet");
    reveal_strlit(" +  -   zoom in / out");
    reveal_strlit(" [  ]   rotation speed");
    reveal_strlit(" r      random planet");
    reveal_strlit(" s      enter seed");
    reveal_strlit(" h      toggle this help");
    reveal_strlit(" q      quit (or close help)");
}

/// The inside width of the help box: the longest line and two columns either side.
pub open spec fn help_box_width() -> int {
    (longest_help_line(HELP_LINE_COUNT as nat) + 4) as int
}

/// The inside height of the help box: the lines and a border row above and below.
pub open spec fn help_box_height() -> int {
    HELP_LINE_COUNT + 2
}

pub open spec fn help_border_fg() -> Rgb {
    Rgb(200, 200, 230)
}

pub open spec fn help_title_fg() -> Rgb {
    Rgb(255, 220, 140)
}

pub open spec fn help_text_fg() -> Rgb {
    Rgb(230, 230, 240)
}

/// The border character at box position `(yy, xx)`: rounded corners, horizontal
/// lines on the top and bottom rows, vertical lines on the sides.
pub open spec fn help_border_char(yy: int, xx: int) -> char {
    let iw = help_box_width();
    let ih = help_box_height();
    if yy == 0 && xx == 0 {
        '╭'
    } else if yy == 0 && xx == iw - 1 {
        '╮'
    } else if yy == ih - 1 && xx == 0 {
        '╰'
    } else if yy == ih - 1 && xx == iw - 1 {
        '╯'
    } else if yy == 0 || yy == ih - 1 {
        '─'
    } else {
        '│'
    }
}

pub open spec fn is_help_border(yy: int, xx: int) -> bool {
    &&& 0 <= yy < help_box_height()
    &&& 0 <= xx < help_box_width()
    &&& (yy == 0 || yy == help_box_height() - 1 || xx == 0 || xx == help_box_width() - 1)
}

/// Whether box position `(yy, xx)` holds a character of help text: the lines start two
/// columns in on the rows inside the border, and stop short of the frame's last column.
pub open spec fn is_help_text(yy: int, xx: int, col: int, width: int) -> bool {
    &&& 1 <= yy <= HELP_LINE_COUNT
    &&& 2 <= xx
    &&& xx - 2 < help_line(yy - 1).len()
    &&& col < width - 1
}

/// A cell at box position `(yy, xx)` (frame column `col`) after the help box is drawn:
/// borders keep the background, text dims it, all else stays.
pub open spec fn help_cell(old: Cell, yy: int, xx: int, col: int, width: int) -> Cell {
    if is_help_border(yy, xx) {
        Cell { fg: help_border_fg(), bg: old.bg, ch: help_border_char(yy, xx) }
    } else if is_help_text(yy, xx, col, width) {
        help_text_cell(old, yy, xx)
    } else {
        old
    }
}

pub open spec fn help_text_cell(old: Cell, yy: int, xx: int) -> Cell {
    Cell {
        fg: if yy == 1 { help_title_fg() } else { help_text_fg() },
        bg: backdrop_spec(old.bg),
        ch: help_line(yy - 1)[xx - 2],
    }
}

/// Whether the help box fits in the frame: it needs its size plus one cell all round.
pub open spec fn help_fits(width: int, height: int) -> bool {
    help_box_width() + 2 <= width && help_box_height() + 2 <= height
}

/// The frame with the help box drawn near its top-left corner: the box starts one
/// hundredth of the width in and one fiftieth of the height down.
pub open spec fn draw_help_spec(cells: Seq<Cell>, width: int, height: int) -> Seq<Cell> {
    if !help_fits(width, height) {
        cells
    } else {
        Seq::new(cells.len(), |k: int| help_frame_cell(cells[k], k, width, height))
    }
}

pub open spec fn help_frame_cell(old: Cell, k: int, width: int, height: int) -> Cell {
    if k < width * height {
        help_cell(old, k / width - height / 50, k % width - width / 100, k % width, width)
    } else {
        old
    }
}

proof fn lemma_help_lines_short()
    ensures
        forall|i: int| 0 <= i < HELP_LINE_COUNT ==> #[trigger] help_line(i).len() <= 28,
{
    reveal_strlit(" Controls ");
    reveal_strlit("");
    reveal_strlit(" 1-8    switch planet");
    reveal_strlit(" +  -   zoom in / out");
    reveal_strlit(" [  ]   rotation speed");
    reveal_strlit(" r      random planet");
    reveal_strlit(" s      enter seed");
    reveal_strlit(" h      toggle this help");
    reveal_strlit(" q      quit (or close help)");
}

proof fn lemma_longest_help_line(n: nat)
    requires
        n <= HELP_LINE_COUNT,
    ensures
        longest_help_line(n) <= 28,
        forall|i: int| 0 <= i < n ==> #[trigger] help_line(i).len() <= longest_help_line(n),
    decreases n,
{
    lemma_help_lines_short();
    if n > 0 {
        lemma_longest_help_line((n - 1) as nat);
    }
}

proof fn lemma_cell_index(row: int, col: int, width: int, height: int)
    requires
        0 <= row < height,
        0 <= col < width,
    ensures
        (row * width + col) / width == row,
        (row * width + col) % width == col,
        0 <= row * width + col < width * height,
{
    vstd::arithmetic::div_mod::lemma_fundamental_div_mod_converse(row * width + col, width, row, col);
    assert(0 <= row * width + col < width * height) by (nonlinear_arith)
        requires
            0 <= row < height,
            0 <= col < width,
    ;
}

/// The index of the last cell that the help box writes: its bottom-right corner, or the
/// frame's last column on its bottom row where the frame is narrower.
pub open spec fn help_last_index(width: int, height: int) -> int {
    let right = width / 100 + help_box_width() - 1;
    (height / 50 + help_box_height() - 1) * width + if right < width - 1 { right } else { width - 1 }
}

/// Draws the box that lists the keys, over whatever the frame shows.
pub fn draw_help(cells: &mut [Cell], width: usize, height: usize)
    requires
        help_fits(width as int, height as int) ==> help_last_index(width as int, height as int)
            < old(cells)@.len(),
    ensures
        final(cells)@ == draw_help_spec(old(cells)@, width as int, height as int),
{
    let ghost start = cells@;
    let mut longest: usize = 0;
    let mut i: usize = 0;
    proof {
        lemma_longest_help_line(HELP_LINE_COUNT as nat);
    }
    while i < HELP_LINE_COUNT
        invariant
            i <= HELP_LINE_COUNT,
            longest == longest_help_line(i as nat),
        decreases HELP_LINE_COUNT - i,
    {
        proof {
            lemma_longest_help_line((i + 1) as nat);
        }
        let l = help_line_str(i).unicode_len();
        if l > longest {
            longest = l;
        }
        i = i + 1;
    }
    let inner_w = longest + 4;
    let inner_h = HELP_LINE_COUNT + 2;
    if inner_w + 2 > width || inner_h + 2 > height {
        return;
    }
    let x0 = width / 100;
    let y0 = height / 50;
    let len = cells.len();
    proof {
        lemma_longest_help_line(HELP_LINE_COUNT as nat);
    }
    let mut yy: usize = 0;
    while yy < inner_h
        invariant
            inner_w == help_box_width(),
            inner_h == help_box_height(),
            help_fits(width as int, height as int),
            help_last_index(width as int, height as int) < start.len(),
            inner_w <= 32,
            len == start.len(),
            x0 == width / 100,
            y0 == height / 50,
            yy <= inner_h,
            cells@.len() == start.len(),
            forall|k: int|
                0 <= k < start.len() ==> #[trigger] cells@[k] == if k < width * height && k / (
                width as int) < y0 + yy {
                    help_frame_cell(start[k], k, width as int, height as int)
                } else {
                    start[k]
                },
        decreases inner_h - yy,
    {
        let row = y0 + yy;
        let mut xx: usize = 0;
        while xx < inner_w
            invariant
                inner_w == help_box_width(),
                inner_h == help_box_height(),
                help_fits(width as int, height as int),
                help_last_index(width as int, height as int) < start.len(),
                inner_w <= 32,
                len == start.len(),
                x0 == width / 100,
                y0 == height / 50,
                yy < inner_h,
                row == y0 + yy,
                xx <= inner_w,
                cells@.len() == start.len(),
                forall|k: int|
                    0 <= k < start.len() ==> #[trigger] cells@[k] == if k < width * height && (k / (
                    width as int) < row || (k / (width as int) == row && k % (width as int) < x0 + xx)) {
                        help_frame_cell(start[k], k, width as int, height as int)
                    } else {
                        start[k]
                    },
            decreases inner_w - xx,
        {
            let ghost prev = cells@;
            let col = x0 + xx;
            if row < height && col < width {
                proof {
                    lemma_cell_index(row as int, col as int, width as int, height as int);
                    let last_row = y0 + inner_h - 1;
                    let right = if x0 + inner_w - 1 < width - 1 { x0 + inner_w - 1 } else { width - 1 };
                    assert(row * width + col <= last_row * width + right) by (nonlinear_arith)
                        requires
                            row <= last_row,
                            col <= right,
                    ;
                }
                let k = row * width + col;
                let old_bg = cells[k].bg;
                let is_border = yy == 0 || yy == inner_h - 1 || xx == 0 || xx == inner_w - 1;
                if is_border {
                    let ch = if yy == 0 && xx == 0 {
                        '╭'
                    } else if yy == 0 && xx == inner_w - 1 {
                        '╮'
                    } else if yy == inner_h - 1 && xx == 0 {
                        '╰'
                    } else if yy == inner_h - 1 && xx == inner_w - 1 {
                        '╯'
                    } else if yy == 0 || yy == inner_h - 1 {
                        '─'
                    } else {
                        '│'
                    };
                    cells[k] = Cell { fg: Rgb(200, 200, 230), bg: old_bg, ch };
                } else if 1 <= yy && yy <= HELP_LINE_COUNT && 2 <= xx && col < width - 1 {
                    let line = help_line_str(yy - 1);
                    if xx - 2 < line.unicode_len() {
                        let fg = if yy == 1 { Rgb(255, 220, 140) } else { Rgb(230, 230, 240) };
                        cells[k] = Cell { fg, bg: old_bg.backdrop(), ch: line.get_char(xx - 2) };
                    }
                }
                proof {
                    let ghost kk = k as int;
                    assert(cells@[kk] == help_frame_cell(start[kk], kk, width as int, height as int));
                    assert(forall|j: int| 0 <= j < start.len() && j != kk ==> cells@[j] == prev[j]);
                }
            }
            proof {
                assert forall|k: int| 0 <= k < start.len() implies #[trigger] cells@[k] == if k < width * height && (k / (
                    width as int) < row || (k / (width as int) == row && k % (width as int) < x0 + xx + 1)) {
                        help_frame_cell(start[k], k, width as int, height as int)
                    } else {
                        start[k]
                    } by {
                    vstd::arithmetic::div_mod::lemma_fundamental_div_mod(k, width as int);
                    if k < width * height && k / (width as int) == row && k % (width as int) == x0 + xx {
                        assert(k == row * width + col) by (nonlinear_arith)
                            requires
                                k == (width as int) * (k / (width as int)) + k % (width as int),
                                row == k / (width as int),
                                col == k % (width as int),
                        ;
                        assert(row < height && col < width) by (nonlinear_arith)
                            requires
                                k == row * width + col,
                                0 <= col,
                                0 <= k < width * height,
                                row == k / (width as int),
                                col == k % (width as int),
                                col < width,
                        {
                            if row >= height {
                                assert(row * width >= height * width);
                            }
                        }
                    } else {
                        assert(cells@[k] == prev[k]);
                    }
                }
            }
            xx = xx + 1;
        }
        proof {
            lemma_longest_help_line(HELP_LINE_COUNT as nat);
            assert forall|k: int| 0 <= k < start.len() implies #[trigger] cells@[k] == if k < width * height && k / (
                width as int) < y0 + yy + 1 {
                    help_frame_cell(start[k], k, width as int, height as int)
                } else {
                    start[k]
                } by {
                if k < width * height && k / (width as int) == row && k % (width as int) >= x0 + inner_w {
                    assert(help_frame_cell(start[k], k, width as int, height as int) == start[k]);
                }
            }
        }
        yy = yy + 1;
    }
    proof {
        lemma_longest_help_line(HELP_LINE_COUNT as nat);
        let target = draw_help_spec(start, width as int, height as int);
        assert forall|k: int| 0 <= k < start.len() implies #[trigger] cells@[k] == target[k] by {
            if k < width * height && k / (width as int) >= y0 + inner_h {
                assert(help_frame_cell(start[k], k, width as int, height as int) == start[k]);
            }
        }
        assert(cells@ =~= target);
    }
}


// ---------------------------------------------------------------------------
// Overlays of a frame

pub open spec fn str_view(s: Option<&str>) -> Option<Seq<char>> {
    match s {
        Some(s) => Some(s@),
        None => None,
    }
}

/// The frame with its overlays drawn in order: the title, then the seed of a generated
/// planet, then the seed prompt while it is open, then the help box while it is shown.
pub open spec fn overlays_spec(
    cells: Seq<Cell>,
    width: int,
    height: int,
    name: Seq<char>,
    seed: Option<u64>,
    seed_input: Option<Seq<char>>,
    show_help: bool,
) -> Seq<Cell> {
    let titled = draw_title_spec(cells, width, name);
    let seeded = match seed {
        Some(s) => draw_seed_spec(titled, width, s),
        None => titled,
    };
    let prompted = match seed_input {
        Some(i) => draw_seed_input_spec(seeded, width, height, i),
        None => seeded,
    };
    if show_help {
        draw_help_spec(prompted, width, height)
    } else {
        prompted
    }
}

/// Draws the text that lies over a rendered frame of `width` by `height` cells.
pub fn draw_overlays(
    cells: &mut [Cell],
    width: usize,
    height: usize,
    name: &str,
    seed: Option<u64>,
    seed_input: Option<&str>,
    show_help: bool,
)
    requires
        old(cells)@.len() == width * height,
        title_fits(old(cells)@.len() as int, width as int, uppercase(name@)),
        seed is Some ==> put_str_fits(old(cells)@.len() as int, width as int, 0, seed_label_col(width as int), 16),
    ensures
        final(cells)@ == overlays_spec(
            old(cells)@,
            width as int,
            height as int,
            name@,
            seed,
            str_view(seed_input),
            show_help,
        ),
{
    let ghost start = cells@;
    draw_title(cells, width, name);
    assert(cells@.len() == start.len());
    if let Some(s) = seed {
        draw_seed(cells, width, s);
    }
    assert(cells@.len() == start.len());
    if let Some(input) = seed_input {
        proof {
            if seed_prompt_shown(width as int, height as int, input@) {
                let w = seed_prompt(input@).len() as int;
                assert((height - 2) * width + (width - w) / 2 + w <= width * height) by (nonlinear_arith)
                    requires
                        w + 2 < width,
                        height >= 3,
                ;
            }
        }
        draw_seed_input(cells, width, height, input);
    }
    assert(cells@.len() == start.len());
    proof {
        if help_fits(width as int, height as int) {
            lemma_longest_help_line(HELP_LINE_COUNT as nat);
            let right = width / 100 + help_box_width() - 1;
            let r = if right < width - 1 { right } else { width - 1 };
            assert((height / 50 + help_box_height() - 1) * width + r < width * height) by (nonlinear_arith)
                requires
                    height >= 13,
                    r <= width - 1,
                    help_box_height() == 11,
            ;
        }
    }
    if show_help {
        draw_help(cells, width, height);
    }
}

/// Whether the title and the seed, where they are drawn, lie within the frame: on a
/// frame with no rows they would not.
pub open spec fn overlays_fit(cells_len: int, width: int, name: Seq<char>, seed: Option<u64>) -> bool {
    &&& title_fits(cells_len, width, uppercase(name))
    &&& seed is Some ==> put_str_fits(cells_len, width, 0, seed_label_col(width), 16)
}

/// Draws the overlays where they fit in the frame, and returns whether they did; where
/// they do not (the title or the seed would fall outside a frame with no rows) the
/// frame is left as it is.
pub fn try_draw_overlays(
    cells: &mut [Cell],
    width: usize,
    height: usize,
    name: &str,
    seed: Option<u64>,
    seed_input: Option<&str>,
    show_help: bool,
) -> (drawn: bool)
    requires
        old(cells)@.len() == width * height,
    ensures
        drawn == overlays_fit(old(cells)@.len() as int, width as int, name@, seed),
        drawn ==> final(cells)@ == overlays_spec(
            old(cells)@,
            width as int,
            height as int,
            name@,
            seed,
            str_view(seed_input),
            show_help,
        ),
        !drawn ==> final(cells)@ == old(cells)@,
{
    let len = cells.len();
    let upper = to_uppercase(name);
    let n = upper.as_str().unicode_len();
    let title_ok = if n >= usize::MAX - 6 || n + 6 >= width {
        true
    } else {
        let w = n + 4;
        (width - w) / 2 + w < len
    };
    proof {
        assert(caps_label(uppercase(name@)).len() == n + 4);
    }
    let seed_ok = match seed {
        Some(_) => {
            let col0 = if width >= 17 { width - 17 } else { 0 };
            col0 >= width || (if col0 + 16 < width { col0 + 16 } else { width }) <= len
        },
        None => true,
    };
    if title_ok && seed_ok {
        draw_overlays(cells, width, height, name, seed, seed_input, show_help);
        true
    } else {
        false
    }
}

// ---------------------------------------------------------------------------
// Sending a frame to the terminal

/// `ESC [ row ; col H`: moves the cursor to a 0-based cell, written 1-based.
pub open spec fn cursor_to(row: nat, col: nat) -> Seq<char> {
    seq!['\x1b', '['] + decimal(row + 1) + seq![';'] + decimal(col + 1) + seq!['H']
}

/// What redraws one cell: move there, set both colours, write the character.
pub open spec fn cell_draw(row: nat, col: nat, c: Cell) -> Seq<char> {
    cursor_to(row, col) + bg_seq_spec(c.bg) + fg_seq_spec(c.fg) + seq![c.ch]
}

/// Whether cell `k` already shows on the terminal: the previous frame has it, equal.
pub open spec fn cell_unchanged(frame: Seq<Cell>, prev: Seq<Cell>, k: int) -> bool {
    k < prev.len() && prev[k] == frame[k]
}

/// The redraws of the changed cells among the first `n`, in row-major order.
pub open spec fn frame_diff(frame: Seq<Cell>, prev: Seq<Cell>, width: nat, n: nat) -> Seq<char>
    decreases n,
{
    if n == 0 {
        Seq::empty()
    } else {
        let k = n - 1;
        frame_diff(frame, prev, width, k as nat) + if cell_unchanged(frame, prev, k) {
            Seq::<char>::empty()
        } else {
            cell_draw((k / (width as int)) as nat, (k % (width as int)) as nat, frame[k])
        }
    }
}

/// `ESC [ 0 m`: resets the colours.
pub open spec fn reset_seq() -> Seq<char> {
    seq!['\x1b', '[', '0', 'm']
}

fn push_cell_draw(out: &mut String, row: usize, col: usize, c: &Cell)
    requires
        row < usize::MAX,
        col < usize::MAX,
    ensures
        final(out)@ == old(out)@ + cell_draw(row as nat, col as nat, *c),
{
    let ghost mark = out@;
    push_char(out, '\x1b');
    push_char(out, '[');
    push_decimal(out, (row + 1) as u64);
    push_char(out, ';');
    push_decimal(out, (col + 1) as u64);
    push_char(out, 'H');
    push_color_seq(out, '4', c.bg);
    push_color_seq(out, '3', c.fg);
    push_char(out, c.ch);
    assert(out@ =~= mark + cell_draw(row as nat, col as nat, *c));
}

/// Appends to `out` what brings a terminal that shows `prev` to show `frame`: the
/// cells that differ (or that `prev` lacks) are redrawn in row-major order, then the
/// colours are reset.
pub fn flush(out: &mut String, frame: &[Cell], prev: &[Cell], width: usize, height: usize)
    requires
        width * height <= frame@.len(),
    ensures
        final(out)@ == old(out)@ + frame_diff(frame@, prev@, width as nat, (width * height) as nat)
            + reset_seq(),
{
    let ghost start = out@;
    let flen = frame.len();
    let total = width * height;
    let mut k: usize = 0;
    while k < total
        invariant
            total == width * height,
            total <= frame@.len(),
            k <= total,
            out@ == start + frame_diff(frame@, prev@, width as nat, k as nat),
        decreases total - k,
    {
        let unchanged = k < prev.len() && prev[k] == frame[k];
        if !unchanged {
            push_cell_draw(out, k / width, k % width, &frame[k]);
        }
        proof {
            let d = frame_diff(frame@, prev@, width as nat, (k + 1) as nat);
            assert(unchanged == cell_unchanged(frame@, prev@, k as int));
            assert(d == frame_diff(frame@, prev@, width as nat, k as nat) + if cell_unchanged(frame@, prev@, k as int) {
                Seq::<char>::empty()
            } else {
                cell_draw((k / width) as nat, (k % width) as nat, frame@[k as int])
            });
        }
        assert(out@ =~= start + frame_diff(frame@, prev@, width as nat, (k + 1) as nat));
        k = k + 1;
    }
    push_char(out, '\x1b');
    push_char(out, '[');
    push_char(out, '0');
    push_char(out, 'm');
    assert(out@ =~= start + frame_diff(frame@, prev@, width as nat, total as nat) + reset_seq());
}

/// A frame equal to the one on screen is sent as the colour reset alone.
pub proof fn lemma_unchanged_frame_sends_reset_only(frame: Seq<Cell>, prev: Seq<Cell>, width: nat, n: nat)
    requires
        n <= frame.len(),
        n <= prev.len(),
        forall|k: int| 0 <= k < n ==> #[trigger] prev[k] == frame[k],
    ensures
        frame_diff(frame, prev, width, n) == Seq::<char>::empty(),
    decreases n,
{
    if n > 0 {
        lemma_unchanged_frame_sends_reset_only(frame, prev, width, (n - 1) as nat);
        assert(prev[n - 1] == frame[n - 1]);
        assert(frame_diff(frame, prev, width, n) =~= Seq::<char>::empty());
    }
}

} // verus!
