use orbitty::palette::Rgb;
use orbitty::renderer::{
    draw_help, draw_overlays, draw_seed, draw_seed_input, draw_title, draw_title_text, flush,
    overlay_stars, pixels_to_cells, put_str, star_bits, star_color, star_is_small,
    try_draw_overlays, Cell,
};

const BLACK: Rgb = Rgb(0, 0, 0);

fn blank_frame(n: usize) -> Vec<Cell> {
    vec![Cell::blank(); n]
}

fn row_text(cells: &[Cell], width: usize, row: usize) -> String {
    cells[row * width..(row + 1) * width].iter().map(|c| c.ch).collect()
}

#[test]
fn blank_cell_is_space_on_black() {
    assert_eq!(Cell::blank(), Cell { fg: BLACK, bg: BLACK, ch: ' ' });
}

#[test]
fn star_bits_known_values() {
    assert_eq!(star_bits(2, 29), 990945182);
    assert_eq!(star_bits(5, 41), 1268137883);
    assert_eq!(star_bits(0, 7), 627654035);
}

fn star_rand(x: u32, y: u32) -> f64 {
    (star_bits(x, y) as f64) / (u32::MAX as f64)
}

#[test]
fn star_colours_follow_float_thresholds() {
    for i in 0..180usize {
        let h = star_rand(i as u32 * 3 + 2, 29);
        let expected = if h < 0.08 {
            Rgb(180, 180, 180)
        } else if h < 0.35 {
            Rgb(120, 108, 90)
        } else {
            Rgb(60, 63, 70)
        };
        assert_eq!(star_color(i), expected, "star {}", i);
        assert_eq!(star_is_small(i), star_rand(i as u32 * 3 + 5, 41) < 0.10, "star {}", i);
    }
}

#[test]
fn star_thresholds_at_their_edges() {
    let m = u32::MAX as f64;
    assert!(343597383.0 / m < 0.08 && !(343597384.0 / m < 0.08));
    assert!(1503238553.0 / m < 0.35 && !(1503238554.0 / m < 0.35));
    assert!(429496729.0 / m < 0.10 && !(429496730.0 / m < 0.10));
    assert_eq!(star_color(0), Rgb(120, 108, 90));
    assert_eq!(star_color(1), Rgb(60, 63, 70));
}

#[test]
fn pixels_fold_into_half_blocks() {
    let a = Rgb(1, 2, 3);
    let b = Rgb(4, 5, 6);
    // width 2, four pixel rows -> two cell rows
    let pixels = vec![Some(a), None, Some(b), Some(b), None, Some(a), None, None];
    let cells = pixels_to_cells(&pixels, 2, 4);
    assert_eq!(cells.len(), 4);
    assert_eq!(cells[0], Cell { fg: a, bg: b, ch: '▀' });
    assert_eq!(cells[1], Cell { fg: b, bg: BLACK, ch: '▄' });
    assert_eq!(cells[2], Cell::blank());
    assert_eq!(cells[3], Cell { fg: a, bg: BLACK, ch: '▀' });
}

#[test]
fn odd_pixel_row_is_dropped() {
    let a = Rgb(9, 9, 9);
    let pixels = vec![Some(a), Some(a), Some(a)];
    let cells = pixels_to_cells(&pixels, 1, 3);
    assert_eq!(cells, vec![Cell { fg: a, bg: a, ch: '▀' }]);
}

#[test]
fn put_str_stops_at_right_edge() {
    let mut cells = blank_frame(10);
    put_str(&mut cells, 5, 1, 3, "abcd", Rgb(1, 1, 1), Rgb(2, 2, 2));
    assert_eq!(row_text(&cells, 5, 0), "     ");
    assert_eq!(row_text(&cells, 5, 1), "   ab");
    assert_eq!(cells[8], Cell { fg: Rgb(1, 1, 1), bg: Rgb(2, 2, 2), ch: 'a' });
}

#[test]
fn title_is_centred_in_capitals_between_brackets() {
    let mut cells = blank_frame(20);
    draw_title(&mut cells, 20, "earth");
    assert_eq!(row_text(&cells, 20, 0), "    [  EARTH  ]     ");
    assert_eq!(cells[4].fg, Rgb(120, 120, 160));
    assert_eq!(cells[7].fg, Rgb(230, 230, 240));
}

#[test]
fn title_left_out_when_too_wide() {
    let mut cells = blank_frame(11);
    draw_title(&mut cells, 11, "earth");
    assert_eq!(cells, blank_frame(11));
    let mut cells = blank_frame(12);
    draw_title(&mut cells, 12, "earth");
    assert_eq!(row_text(&cells, 12, 0), "[  EARTH  ] ");
}

#[test]
fn seed_label_in_top_right() {
    let mut cells = blank_frame(40);
    draw_seed(&mut cells, 40, 0x1a2b);
    assert_eq!(row_text(&cells, 40, 0), format!("{}{} ", " ".repeat(23), "0000000000001a2b"));
    assert_eq!(cells[23].fg, Rgb(65, 65, 78));
}

#[test]
fn seed_label_clipped_on_narrow_frames() {
    let mut cells = blank_frame(10);
    draw_seed(&mut cells, 10, u64::MAX);
    assert_eq!(row_text(&cells, 10, 0), "ffffffffff");
}

#[test]
fn seed_prompt_centred_above_bottom_row() {
    let mut cells = blank_frame(40 * 5);
    draw_seed_input(&mut cells, 40, 5, "ab");
    assert_eq!(row_text(&cells, 40, 3), format!("{} seed: ab_ {}", " ".repeat(14), " ".repeat(15)));
    assert_eq!(cells[3 * 40 + 14].bg, Rgb(30, 30, 45));
    let mut small = blank_frame(40 * 2);
    draw_seed_input(&mut small, 40, 2, "ab");
    assert_eq!(small, blank_frame(40 * 2));
}

#[test]
fn help_box_near_top_left() {
    let (w, h) = (80, 24);
    let mut cells = blank_frame(w * h);
    for c in cells.iter_mut() {
        c.bg = Rgb(100, 180, 20);
    }
    draw_help(&mut cells, w, h);
    assert_eq!(&row_text(&cells, w, 0)[..], format!("╭{}╮{}", "─".repeat(30), " ".repeat(48)));
    assert_eq!(row_text(&cells, w, 1), format!("│  Controls {}│{}", " ".repeat(19), " ".repeat(48)));
    assert_eq!(row_text(&cells, w, 9), format!("│  q      quit (or close help) │{}", " ".repeat(48)));
    assert_eq!(row_text(&cells, w, 10), format!("╰{}╯{}", "─".repeat(30), " ".repeat(48)));
    assert_eq!(row_text(&cells, w, 11).chars().next(), Some(' '));
    assert_eq!(cells[0].bg, Rgb(100, 180, 20));
    assert_eq!(cells[0].fg, Rgb(200, 200, 230));
    assert_eq!(cells[w + 3], Cell { fg: Rgb(255, 220, 140), bg: Rgb(35, 62, 7), ch: 'C' });
    assert_eq!(cells[3 * w + 3].fg, Rgb(230, 230, 240));
    assert_eq!(cells[w + 1].bg, Rgb(100, 180, 20));
}

#[test]
fn help_box_offset_on_large_frames() {
    let (w, h) = (250, 120);
    let mut cells = blank_frame(w * h);
    draw_help(&mut cells, w, h);
    assert_eq!(cells[2 * w + 2].ch, '╭');
    assert_eq!(cells[2 * w + 1].ch, ' ');
    assert_eq!(cells[(x0_y0_check(w, h).1) * w + x0_y0_check(w, h).0].ch, '╭');
}

fn x0_y0_check(w: usize, h: usize) -> (usize, usize) {
    ((w as f32 * 0.01) as usize, (h as f32 * 0.02) as usize)
}

#[test]
fn help_box_position_matches_float_fractions() {
    for n in 0..65536usize {
        assert_eq!((n as f32 * 0.01) as usize, n / 100);
        assert_eq!((n as f32 * 0.02) as usize, n / 50);
    }
}

#[test]
fn help_left_out_when_frame_small() {
    let mut cells = blank_frame(33 * 24);
    draw_help(&mut cells, 33, 24);
    assert_eq!(cells, blank_frame(33 * 24));
    let mut cells = blank_frame(34 * 12);
    draw_help(&mut cells, 34, 12);
    assert_eq!(cells, blank_frame(34 * 12));
    let mut cells = blank_frame(34 * 13);
    draw_help(&mut cells, 34, 13);
    assert_eq!(cells[0].ch, '╭');
    assert_eq!(cells[31].ch, '╮');
}

#[test]
fn help_text_stops_before_last_column() {
    let mut cells = blank_frame(34 * 13);
    draw_help(&mut cells, 34, 13);
    assert_eq!(row_text(&cells, 34, 9), "│  q      quit (or close help) │  ");
}

#[test]
fn stars_only_on_blank_cells() {
    let mut cells = blank_frame(3);
    cells[1] = Cell { fg: Rgb(5, 5, 5), bg: BLACK, ch: '▀' };
    let c = Rgb(180, 180, 180);
    let stars = vec![Some((c, true)), Some((c, false)), Some((c, false))];
    overlay_stars(&mut cells, &stars);
    assert_eq!(cells[0], Cell { fg: c, bg: BLACK, ch: '◉' });
    assert_eq!(cells[1].ch, '▀');
    assert_eq!(cells[2], Cell { fg: c, bg: BLACK, ch: '●' });
}

#[test]
fn overlays_draw_title_seed_prompt_and_help() {
    let (w, h) = (100, 20);
    let mut cells = blank_frame(w * h);
    draw_overlays(&mut cells, w, h, "Kora", Some(0xabc), Some("12"), true);
    assert_eq!(cells[1].ch, '╭');
    assert_eq!(cells[0].ch, ' ');
    assert!(row_text(&cells, w, 0).contains("  KORA  "));
    assert!(row_text(&cells, w, 0).ends_with("0000000000000abc "));
    assert!(row_text(&cells, w, h - 2).contains(" seed: 12_ "));
    let w = 60;
    let mut plain = blank_frame(w * h);
    draw_overlays(&mut plain, w, h, "Mars", None, None, false);
    assert_eq!(row_text(&plain, w, 0), format!("{}[  MARS  ]{}", " ".repeat(25), " ".repeat(25)));
    assert_eq!(row_text(&plain, w, 1), " ".repeat(w));
}

#[test]
fn flush_redraws_changed_cells_only() {
    let a = Cell { fg: Rgb(1, 2, 3), bg: Rgb(4, 5, 6), ch: 'x' };
    let frame = vec![Cell::blank(), a.clone(), Cell::blank(), Cell::blank()];
    let mut out = String::new();
    flush(&mut out, &frame, &[], 2, 2);
    let blank_seq = "\x1b[48;2;0;0;0m\x1b[38;2;0;0;0m ";
    let expected = format!(
        "\x1b[1;1H{b}\x1b[1;2H\x1b[48;2;4;5;6m\x1b[38;2;1;2;3mx\x1b[2;1H{b}\x1b[2;2H{b}\x1b[0m",
        b = blank_seq
    );
    assert_eq!(out, expected);

    let mut out = String::new();
    flush(&mut out, &frame, &frame, 2, 2);
    assert_eq!(out, "\x1b[0m");

    let prev = vec![Cell::blank(); 4];
    let mut out = String::from(">");
    flush(&mut out, &frame, &prev, 2, 2);
    assert_eq!(out, ">\x1b[1;2H\x1b[48;2;4;5;6m\x1b[38;2;1;2;3mx\x1b[0m");
}

#[test]
fn flush_positions_are_one_based() {
    let mut frame = vec![Cell::blank(); 12 * 11];
    frame[10 * 12 + 11].ch = 'z';
    let prev = vec![Cell::blank(); 12 * 11];
    let mut out = String::new();
    flush(&mut out, &frame, &prev, 12, 11);
    assert!(out.starts_with("\x1b[11;12H"));
}

#[test]
fn title_text_is_drawn_as_given() {
    let mut cells = blank_frame(20);
    draw_title_text(&mut cells, 20, "EARTH");
    assert_eq!(row_text(&cells, 20, 0), "    [  EARTH  ]     ");
    let mut lower = blank_frame(20);
    draw_title_text(&mut lower, 20, "earth");
    assert_eq!(row_text(&lower, 20, 0), "    [  earth  ]     ");
    assert_eq!(lower[3], Cell::blank());
    assert_eq!(lower[14], Cell { fg: Rgb(120, 120, 160), bg: BLACK, ch: ']' });
    assert_eq!(lower[15], Cell::blank());
}

#[test]
fn title_of_mars_in_capitals() {
    let mut cells = blank_frame(20);
    draw_title(&mut cells, 20, "Mars");
    assert_eq!(row_text(&cells, 20, 0), "     [  MARS  ]     ");
}

#[test]
fn overlays_on_a_frame_without_rows() {
    let mut cells: Vec<Cell> = Vec::new();
    assert!(try_draw_overlays(&mut cells, 5, 0, "Mercury", None, None, true));
    assert!(cells.is_empty());
    assert!(!try_draw_overlays(&mut cells, 20, 0, "Mercury", None, None, false));
    assert!(!try_draw_overlays(&mut cells, 5, 0, "Mercury", Some(1), None, false));
    assert!(try_draw_overlays(&mut cells, 0, 0, "Mercury", Some(1), Some("1"), true));
}

#[test]
fn try_overlays_matches_draw_overlays() {
    let (w, h) = (60, 20);
    let mut a = blank_frame(w * h);
    let mut b = blank_frame(w * h);
    assert!(try_draw_overlays(&mut a, w, h, "Kora", Some(0xabc), Some("12"), true));
    draw_overlays(&mut b, w, h, "Kora", Some(0xabc), Some("12"), true);
    assert_eq!(a, b);
}

/// A small terminal: reads cursor moves, true-colour settings, the reset and
/// printable characters, as the stream from `flush` uses them.
struct Screen {
    cells: Vec<Cell>,
    width: usize,
    row: usize,
    col: usize,
    fg: Option<Rgb>,
    bg: Option<Rgb>,
}

impl Screen {
    fn read(&mut self, s: &str) {
        let chars: Vec<char> = s.chars().collect();
        let mut i = 0;
        while i < chars.len() {
            if chars[i] == '\x1b' && i + 1 < chars.len() && chars[i + 1] == '[' {
                let mut j = i + 2;
                while chars[j].is_ascii_digit() || chars[j] == ';' {
                    j += 1;
                }
                let body: String = chars[i + 2..j].iter().collect();
                let ps: Vec<usize> = body.split(';').map(|p| p.parse().unwrap_or(0)).collect();
                match (chars[j], ps.as_slice()) {
                    ('H', [r, c]) => {
                        self.row = r - 1;
                        self.col = c - 1;
                    }
                    ('m', [0]) => {
                        self.fg = None;
                        self.bg = None;
                    }
                    ('m', [38, 2, r, g, b]) => self.fg = Some(Rgb(*r as u8, *g as u8, *b as u8)),
                    ('m', [48, 2, r, g, b]) => self.bg = Some(Rgb(*r as u8, *g as u8, *b as u8)),
                    _ => {}
                }
                i = j + 1;
            } else {
                let k = self.row * self.width + self.col;
                self.cells[k] = Cell {
                    fg: self.fg.unwrap_or(BLACK),
                    bg: self.bg.unwrap_or(BLACK),
                    ch: chars[i],
                };
                self.col += 1;
                i += 1;
            }
        }
    }
}

#[test]
fn flushed_stream_brings_terminal_to_new_frame() {
    let (w, h) = (4, 3);
    let prev: Vec<Cell> = (0..w * h)
        .map(|k| Cell { fg: Rgb(k as u8, 0, 0), bg: Rgb(0, k as u8, 9), ch: 'a' })
        .collect();
    let mut frame = prev.clone();
    frame[0].ch = '█';
    frame[5] = Cell { fg: Rgb(255, 1, 2), bg: Rgb(3, 4, 250), ch: 'Z' };
    frame[11].bg = Rgb(7, 7, 7);
    let mut screen = Screen { cells: prev.clone(), width: w, row: 0, col: 0, fg: None, bg: None };
    let mut out = String::new();
    flush(&mut out, &frame, &prev, w, h);
    screen.read(&out);
    assert_eq!(screen.cells, frame);
    assert_eq!((screen.fg, screen.bg), (None, None));

    // A previous frame that is shorter than the new one: the missing cells are drawn too.
    let mut screen = Screen { cells: vec![Cell::blank(); w * h], width: w, row: 0, col: 0, fg: None, bg: None };
    screen.cells[..4].clone_from_slice(&prev[..4]);
    let mut out = String::new();
    flush(&mut out, &frame, &prev[..4], w, h);
    screen.read(&out);
    assert_eq!(screen.cells, frame);
}
