//! A model of the terminal that reads the escape-sequence stream: a grid of cells, a
//! cursor and the current colours, changed by `ESC [ ... H` (cursor position),
//! `ESC [ ... m` (colours) and printable characters.
use vstd::prelude::*;
use crate::palette::{Rgb, bg_seq_spec, color_seq, fg_seq_spec};
use crate::renderer::{Cell, black, cell_draw, cell_unchanged, cursor_to, frame_diff, reset_seq};
use crate::text::{decimal, digit_char};

verus! {

pub open spec fn is_digit(c: char) -> bool {
    '0' <= c && c <= '9'
}

/// The characters that may stand between `ESC [` and the final character of a control
/// sequence: digits and the `;` between numbers.
pub open spec fn is_param_char(c: char) -> bool {
    is_digit(c) || c == ';'
}

pub open spec fn all_digits(s: Seq<char>) -> bool {
    forall|i: int| 0 <= i < s.len() ==> #[trigger] is_digit(s[i])
}

pub open spec fn all_param_chars(s: Seq<char>) -> bool {
    forall|i: int| 0 <= i < s.len() ==> #[trigger] is_param_char(s[i])
}

/// The number of parameter characters at the start of `s`.
pub open spec fn param_len(s: Seq<char>) -> nat
    decreases s.len(),
{
    if s.len() > 0 && is_param_char(s[0]) {
        1 + param_len(s.drop_first())
    } else {
        0
    }
}

/// The value of a run of decimal digits (0 for none).
pub open spec fn decimal_value(s: Seq<char>) -> nat
    decreases s.len(),
{
    if s.len() == 0 {
        0
    } else {
        decimal_value(s.drop_last()) * 10 + (s.last() as nat - '0' as nat) as nat
    }
}

/// The position of the first `;` in `s`, or its length where there is none.
pub open spec fn first_semi(s: Seq<char>) -> nat
    decreases s.len(),
{
    if s.len() == 0 || s[0] == ';' {
        0
    } else {
        1 + first_semi(s.drop_first())
    }
}

/// The numbers of a parameter string: the values of its `;`-separated fields.
pub open spec fn params(body: Seq<char>) -> Seq<nat>
    decreases body.len(),
{
    let i = first_semi(body);
    if i < body.len() {
        seq![decimal_value(body.take(i as int))] + params(body.skip(i + 1int))
    } else {
        seq![decimal_value(body)]
    }
}

proof fn lemma_param_len(body: Seq<char>, f: char, rest: Seq<char>)
    requires
        all_param_chars(body),
        !is_param_char(f),
    ensures
        param_len(body + seq![f] + rest) == body.len(),
    decreases body.len(),
{
    let s = body + seq![f] + rest;
    if body.len() == 0 {
        assert(s[0] == f);
    } else {
        assert(is_param_char(body[0]));
        assert(s.drop_first() =~= body.drop_first() + seq![f] + rest);
        lemma_param_len(body.drop_first(), f, rest);
    }
}

proof fn lemma_digit_char_value(d: nat)
    requires
        d < 10,
    ensures
        is_digit(digit_char(d)),
        digit_char(d) as nat - '0' as nat == d,
{
    assert('0' as nat == 48 && '1' as nat == 49 && '2' as nat == 50 && '3' as nat == 51 && '4' as nat == 52);
    assert('5' as nat == 53 && '6' as nat == 54 && '7' as nat == 55 && '8' as nat == 56 && '9' as nat == 57);
}

proof fn lemma_decimal_digits(n: nat)
    ensures
        all_digits(decimal(n)),
        decimal(n).len() > 0,
        decimal_value(decimal(n)) == n,
    decreases n,
{
    lemma_digit_char_value(n % 10);
    if n >= 10 {
        lemma_decimal_digits(n / 10);
        let d = decimal(n);
        assert(d.drop_last() =~= decimal(n / 10));
        assert(d.last() == digit_char(n % 10));
        assert(decimal_value(d) == decimal_value(d.drop_last()) * 10 + (d.last() as nat - '0' as nat) as nat);
        assert(decimal_value(d) == (n / 10) * 10 + n % 10);
        assert forall|i: int| 0 <= i < d.len() implies #[trigger] is_digit(d[i]) by {
            if i < d.len() - 1 {
                assert(d[i] == decimal(n / 10)[i]);
            }
        }
    } else {
        let d = decimal(n);
        assert(d.drop_last() =~= Seq::<char>::empty());
        assert(d.last() == digit_char(n));
        assert(decimal_value(d) == decimal_value(d.drop_last()) * 10 + (d.last() as nat - '0' as nat) as nat);
    }
}

proof fn lemma_first_semi(d: Seq<char>, rest: Seq<char>)
    requires
        all_digits(d),
    ensures
        first_semi(d + rest) == d.len() + first_semi(rest),
    decreases d.len(),
{
    if d.len() > 0 {
        assert(is_digit(d[0]));
        assert((d + rest).drop_first() =~= d.drop_first() + rest);
        lemma_first_semi(d.drop_first(), rest);
    } else {
        assert(d + rest =~= rest);
    }
}

/// The parameters of `d ; rest`, for a run of digits `d`.
proof fn lemma_params_cons(d: Seq<char>, rest: Seq<char>)
    requires
        all_digits(d),
    ensures
        params(d + seq![';'] + rest) == seq![decimal_value(d)] + params(rest),
{
    let s = d + seq![';'] + rest;
    lemma_first_semi(d, seq![';'] + rest);
    assert(s =~= d + (seq![';'] + rest));
    assert(s.take(d.len() as int) =~= d);
    assert(s.skip(d.len() + 1int) =~= rest);
}

/// The parameters of a lone run of digits.
proof fn lemma_params_last(d: Seq<char>)
    requires
        all_digits(d),
    ensures
        params(d) == seq![decimal_value(d)],
{
    lemma_first_semi(d, Seq::empty());
    assert(d + Seq::<char>::empty() =~= d);
    assert(first_semi(Seq::<char>::empty()) == 0);
}


// ---------------------------------------------------------------------------
// The terminal

/// What a terminal shows and where it will write next: `width * height` cells in
/// row-major order, a 0-based cursor, and the colours set by the last `m` sequences
/// (`None` for the terminal's own colours).
pub struct Terminal {
    pub screen: Seq<Cell>,
    pub width: nat,
    pub height: nat,
    pub row: int,
    pub col: int,
    pub fg: Option<Rgb>,
    pub bg: Option<Rgb>,
}

/// The colour a cell takes from a colour setting; the terminal's own is black.
pub open spec fn shown(c: Option<Rgb>) -> Rgb {
    match c {
        Some(c) => c,
        None => black(),
    }
}

/// Writes `ch` at the cursor, in the current colours, where the cursor lies on the
/// screen, and moves the cursor one column right.
pub open spec fn put_char(t: Terminal, ch: char) -> Terminal {
    let screen = if 0 <= t.row < t.height && 0 <= t.col < t.width {
        t.screen.update(t.row * t.width + t.col, Cell { fg: shown(t.fg), bg: shown(t.bg), ch })
    } else {
        t.screen
    };
    Terminal { screen, col: t.col + 1, ..t }
}

/// The effect of `ESC [ ps f`: `H` with two numbers moves the cursor (1-based);
/// `m` with `0` resets both colours, with `38;2;r;g;b` sets the foreground and with
/// `48;2;r;g;b` the background. Anything else changes nothing.
pub open spec fn apply_csi(t: Terminal, ps: Seq<nat>, f: char) -> Terminal {
    if f == 'H' && ps.len() == 2 && ps[0] >= 1 && ps[1] >= 1 {
        Terminal { row: ps[0] - 1, col: ps[1] - 1, ..t }
    } else if f == 'm' && ps == seq![0nat] {
        Terminal { fg: None, bg: None, ..t }
    } else if f == 'm' && ps.len() == 5 && (ps[0] == 38 || ps[0] == 48) && ps[1] == 2 && ps[2] < 256
        && ps[3] < 256 && ps[4] < 256 {
        let c = Rgb(ps[2] as u8, ps[3] as u8, ps[4] as u8);
        if ps[0] == 38 {
            Terminal { fg: Some(c), ..t }
        } else {
            Terminal { bg: Some(c), ..t }
        }
    } else {
        t
    }
}

/// The terminal after it has read `s`: a control sequence `ESC [ ps f` is applied, a
/// lone `ESC` is dropped, any other character is written; an unfinished control
/// sequence at the end waits for more input and changes nothing yet.
pub open spec fn run(t: Terminal, s: Seq<char>) -> Terminal
    decreases s.len(),
{
    if s.len() == 0 {
        t
    } else if s[0] == '\x1b' {
        if s.len() >= 2 && s[1] == '[' {
            let n = param_len(s.skip(2)) as int;
            if n + 2 < s.len() {
                run(apply_csi(t, params(s.subrange(2, 2 + n)), s[2 + n]), s.skip(3 + n))
            } else {
                t
            }
        } else {
            run(t, s.skip(1))
        }
    } else {
        run(put_char(t, s[0]), s.skip(1))
    }
}

proof fn lemma_run_csi(t: Terminal, body: Seq<char>, f: char, rest: Seq<char>)
    requires
        all_param_chars(body),
        !is_param_char(f),
    ensures
        run(t, seq!['\x1b', '['] + body + seq![f] + rest) == run(apply_csi(t, params(body), f), rest),
{
    let s = seq!['\x1b', '['] + body + seq![f] + rest;
    assert(s.skip(2) =~= body + seq![f] + rest);
    lemma_param_len(body, f, rest);
    let n = body.len() as int;
    assert(s.subrange(2, 2 + n) =~= body);
    assert(s[2 + n] == f);
    assert(s.skip(3 + n) =~= rest);
}

proof fn lemma_run_char(t: Terminal, ch: char, rest: Seq<char>)
    requires
        ch != '\x1b',
    ensures
        run(t, seq![ch] + rest) == run(put_char(t, ch), rest),
{
    assert((seq![ch] + rest).skip(1) =~= rest);
}


proof fn lemma_digits_are_params(d: Seq<char>)
    requires
        all_digits(d),
    ensures
        all_param_chars(d),
{
    assert forall|i: int| 0 <= i < d.len() implies #[trigger] is_param_char(d[i]) by {
        assert(is_digit(d[i]));
    }
}

/// `d ; rest` is made of parameter characters when `d` is a run of digits and `rest`
/// is made of them.
proof fn lemma_params_join(d: Seq<char>, rest: Seq<char>)
    requires
        all_digits(d),
        all_param_chars(rest),
    ensures
        all_param_chars(d + seq![';'] + rest),
{
    let s = d + seq![';'] + rest;
    assert forall|i: int| 0 <= i < s.len() implies #[trigger] is_param_char(s[i]) by {
        if i < d.len() {
            assert(is_digit(d[i]));
        } else if i > d.len() {
            assert(s[i] == rest[i - d.len() - 1]);
        }
    }
}

/// The parameters of `a ; rest`, for the decimal numeral of `a`.
proof fn lemma_params_decimal(a: nat, rest: Seq<char>)
    ensures
        params(decimal(a) + seq![';'] + rest) == seq![a] + params(rest),
        all_param_chars(rest) ==> all_param_chars(decimal(a) + seq![';'] + rest),
{
    lemma_decimal_digits(a);
    lemma_params_cons(decimal(a), rest);
    if all_param_chars(rest) {
        lemma_params_join(decimal(a), rest);
    }
}

/// The parameter string of a colour sequence: `3 8 ; 2 ; r ; g ; b` or `4 8 ; ...`.
pub open spec fn color_body(layer: char, c: Rgb) -> Seq<char> {
    seq![layer, '8'] + seq![';'] + (seq!['2'] + seq![';'] + (decimal(c.0 as nat) + seq![';'] + (
    decimal(c.1 as nat) + seq![';'] + decimal(c.2 as nat))))
}

proof fn lemma_color_csi(layer: char, c: Rgb)
    requires
        layer == '3' || layer == '4',
    ensures
        color_seq(layer, c) == seq!['\x1b', '['] + color_body(layer, c) + seq!['m'],
        all_param_chars(color_body(layer, c)),
        params(color_body(layer, c)) == seq![if layer == '3' { 38nat } else { 48nat }, 2nat, c.0 as nat, c.1 as nat, c.2 as nat],
{
    let b = decimal(c.2 as nat);
    let gb = decimal(c.1 as nat) + seq![';'] + b;
    let rgb = decimal(c.0 as nat) + seq![';'] + gb;
    let two = seq!['2'] + seq![';'] + rgb;
    assert(color_seq(layer, c) =~= seq!['\x1b', '['] + color_body(layer, c) + seq!['m']);
    lemma_decimal_digits(c.2 as nat);
    lemma_digits_are_params(b);
    lemma_params_last(b);
    lemma_params_decimal(c.1 as nat, b);
    lemma_params_decimal(c.0 as nat, gb);
    lemma_digit_char_value(2);
    lemma_digit_char_value(3);
    lemma_digit_char_value(4);
    lemma_digit_char_value(8);
    assert(all_digits(seq!['2']));
    lemma_params_cons(seq!['2'], rgb);
    lemma_params_join(seq!['2'], rgb);
    assert(all_digits(seq![layer, '8']));
    lemma_params_cons(seq![layer, '8'], two);
    lemma_params_join(seq![layer, '8'], two);
    assert(decimal_value(Seq::<char>::empty()) == 0);
    assert(seq!['2'].drop_last() =~= Seq::<char>::empty());
    assert(decimal_value(seq!['2']) == 2);
    assert(seq![layer, '8'].drop_last() =~= seq![layer]);
    assert(seq![layer].drop_last() =~= Seq::<char>::empty());
    assert(decimal_value(seq![layer]) == layer as nat - '0' as nat);
    assert(params(color_body(layer, c)) =~= seq![if layer == '3' { 38nat } else { 48nat }, 2nat, c.0 as nat, c.1 as nat, c.2 as nat]);
}


/// A colour sequence, read by the terminal, sets that colour and nothing else: the
/// foreground sequence the foreground, the background sequence the background.
pub proof fn lemma_color_seq_sets_color(t: Terminal, c: Rgb, rest: Seq<char>)
    ensures
        run(t, fg_seq_spec(c) + rest) == run((Terminal { fg: Some(c), ..t }), rest),
        run(t, bg_seq_spec(c) + rest) == run((Terminal { bg: Some(c), ..t }), rest),
{
    lemma_color_csi('3', c);
    lemma_color_csi('4', c);
    lemma_run_csi(t, color_body('3', c), 'm', rest);
    lemma_run_csi(t, color_body('4', c), 'm', rest);
    assert(fg_seq_spec(c) + rest =~= seq!['\x1b', '['] + color_body('3', c) + seq!['m'] + rest);
    assert(bg_seq_spec(c) + rest =~= seq!['\x1b', '['] + color_body('4', c) + seq!['m'] + rest);
}

proof fn lemma_color_layer_injective(layer: char, c1: Rgb, c2: Rgb)
    requires
        layer == '3' || layer == '4',
        color_seq(layer, c1) == color_seq(layer, c2),
    ensures
        c1 == c2,
{
    lemma_color_csi(layer, c1);
    lemma_color_csi(layer, c2);
    let s = color_seq(layer, c1);
    assert(color_body(layer, c1) =~= s.subrange(2, s.len() - 1));
    assert(color_body(layer, c2) =~= s.subrange(2, s.len() - 1));
    let p = params(color_body(layer, c1));
    assert(p[2] == c1.0 as nat && p[3] == c1.1 as nat && p[4] == c1.2 as nat);
    assert(p[2] == c2.0 as nat && p[3] == c2.1 as nat && p[4] == c2.2 as nat);
}

/// Different colours are selected by different sequences, in either layer.
pub proof fn lemma_color_seq_injective(c1: Rgb, c2: Rgb)
    ensures
        fg_seq_spec(c1) == fg_seq_spec(c2) ==> c1 == c2,
        bg_seq_spec(c1) == bg_seq_spec(c2) ==> c1 == c2,
{
    if fg_seq_spec(c1) == fg_seq_spec(c2) {
        lemma_color_layer_injective('3', c1, c2);
    }
    if bg_seq_spec(c1) == bg_seq_spec(c2) {
        lemma_color_layer_injective('4', c1, c2);
    }
}

proof fn lemma_run_cursor(t: Terminal, row: nat, col: nat, rest: Seq<char>)
    ensures
        run(t, cursor_to(row, col) + rest) == run((Terminal { row: row as int, col: col as int, ..t }), rest),
{
    let body = decimal(row + 1) + seq![';'] + decimal(col + 1);
    lemma_decimal_digits(col + 1);
    lemma_digits_are_params(decimal(col + 1));
    lemma_params_last(decimal(col + 1));
    lemma_params_decimal(row + 1, decimal(col + 1));
    assert(params(body) =~= seq![(row + 1) as nat, (col + 1) as nat]);
    lemma_run_csi(t, body, 'H', rest);
    assert(cursor_to(row, col) + rest =~= seq!['\x1b', '['] + body + seq!['H'] + rest);
}

/// What a cell's redraw does: the cell is written at its place in its colours, which
/// stay set, and the cursor ends just right of it.
pub open spec fn draw_effect(t: Terminal, row: nat, col: nat, c: Cell) -> Terminal {
    put_char(Terminal { row: row as int, col: col as int, fg: Some(c.fg), bg: Some(c.bg), ..t }, c.ch)
}

proof fn lemma_run_draw(t: Terminal, row: nat, col: nat, c: Cell, rest: Seq<char>)
    requires
        c.ch != '\x1b',
    ensures
        run(t, cell_draw(row, col, c) + rest) == run(draw_effect(t, row, col, c), rest),
{
    let t1 = Terminal { row: row as int, col: col as int, ..t };
    let t2 = Terminal { bg: Some(c.bg), ..t1 };
    let t3 = Terminal { fg: Some(c.fg), ..t2 };
    let r3 = seq![c.ch] + rest;
    let r2 = fg_seq_spec(c.fg) + r3;
    let r1 = bg_seq_spec(c.bg) + r2;
    assert(cell_draw(row, col, c) + rest =~= cursor_to(row, col) + r1);
    lemma_run_cursor(t, row, col, r1);
    lemma_color_seq_sets_color(t1, c.bg, r2);
    lemma_color_seq_sets_color(t2, c.fg, r3);
    lemma_run_char(t3, c.ch, rest);
    assert(t3 == Terminal { row: row as int, col: col as int, fg: Some(c.fg), bg: Some(c.bg), ..t });
}

/// The reset sequence gives the terminal its own colours back.
pub proof fn lemma_run_reset(t: Terminal)
    ensures
        run(t, reset_seq()) == (Terminal { fg: None, bg: None, ..t }),
{
    lemma_digit_char_value(0);
    assert(all_digits(seq!['0']));
    lemma_digits_are_params(seq!['0']);
    lemma_params_last(seq!['0']);
    assert(decimal_value(Seq::<char>::empty()) == 0);
    assert(seq!['0'].drop_last() =~= Seq::<char>::empty());
    assert(params(seq!['0']) =~= seq![0nat]);
    lemma_run_csi(t, seq!['0'], 'm', Seq::empty());
    assert(reset_seq() =~= seq!['\x1b', '['] + seq!['0'] + seq!['m'] + Seq::<char>::empty());
    assert(run(Terminal { fg: None, bg: None, ..t }, Seq::<char>::empty()) == (Terminal { fg: None, bg: None, ..t }));
}

/// The terminal after the redraws of the changed cells among the first `n`.
pub open spec fn after_cells(t: Terminal, frame: Seq<Cell>, prev: Seq<Cell>, n: nat) -> Terminal
    decreases n,
{
    if n == 0 {
        t
    } else {
        let k = n - 1;
        let s = after_cells(t, frame, prev, k as nat);
        if cell_unchanged(frame, prev, k) {
            s
        } else {
            draw_effect(s, (k / (t.width as int)) as nat, (k % (t.width as int)) as nat, frame[k])
        }
    }
}

proof fn lemma_run_frame_diff(t: Terminal, frame: Seq<Cell>, prev: Seq<Cell>, n: nat, rest: Seq<char>)
    requires
        n <= frame.len(),
        forall|k: int| 0 <= k < n && !cell_unchanged(frame, prev, k) ==> #[trigger] frame[k].ch != '\x1b',
    ensures
        run(t, frame_diff(frame, prev, t.width, n) + rest) == run(after_cells(t, frame, prev, n), rest),
    decreases n,
{
    if n == 0 {
        assert(frame_diff(frame, prev, t.width, n) + rest =~= rest);
    } else {
        let k = n - 1;
        let piece = if cell_unchanged(frame, prev, k) {
            Seq::<char>::empty()
        } else {
            cell_draw((k / (t.width as int)) as nat, (k % (t.width as int)) as nat, frame[k])
        };
        assert(frame_diff(frame, prev, t.width, n) + rest =~= frame_diff(frame, prev, t.width, k as nat) + (
        piece + rest));
        lemma_run_frame_diff(t, frame, prev, k as nat, piece + rest);
        if cell_unchanged(frame, prev, k) {
            assert(piece + rest =~= rest);
        } else {
            assert(frame[k].ch != '\x1b');
            lemma_run_draw(
                after_cells(t, frame, prev, k as nat),
                (k / (t.width as int)) as nat,
                (k % (t.width as int)) as nat,
                frame[k],
                rest,
            );
        }
    }
}

proof fn lemma_after_cells(t: Terminal, frame: Seq<Cell>, prev: Seq<Cell>, n: nat)
    requires
        t.screen.len() == t.width * t.height,
        n <= t.width * t.height,
        n <= frame.len(),
        forall|k: int| 0 <= k < t.width * t.height && k < prev.len() ==> #[trigger] t.screen[k] == prev[k],
    ensures
        after_cells(t, frame, prev, n).width == t.width,
        after_cells(t, frame, prev, n).height == t.height,
        after_cells(t, frame, prev, n).screen.len() == t.screen.len(),
        forall|k: int| 0 <= k < n ==> #[trigger] after_cells(t, frame, prev, n).screen[k] == frame[k],
        forall|k: int| n <= k < t.screen.len() ==> #[trigger] after_cells(t, frame, prev, n).screen[k] == t.screen[k],
    decreases n,
{
    if n > 0 {
        let k = n - 1;
        lemma_after_cells(t, frame, prev, k as nat);
        let s = after_cells(t, frame, prev, k as nat);
        let a = after_cells(t, frame, prev, n);
        if !cell_unchanged(frame, prev, k) {
            let w = t.width as int;
            let h = t.height as int;
            assert(w > 0) by (nonlinear_arith)
                requires
                    0 <= k < w * h,
                    h >= 0,
            ;
            let r = k / w;
            let c = k % w;
            vstd::arithmetic::div_mod::lemma_fundamental_div_mod(k, w);
            assert(0 <= r < h) by (nonlinear_arith)
                requires
                    k == w * r + c,
                    0 <= c < w,
                    0 <= k < w * h,
            ;
            assert(r * w + c == k) by (nonlinear_arith)
                requires
                    k == w * r + c,
            ;
            assert(a.screen == s.screen.update(k, frame[k]));
        }
    }
}

/// What a flush sends, read by a terminal that shows the previous frame: every cell
/// of the new frame is on the screen, and the colours are the terminal's own again.
pub open spec fn after_flush(t: Terminal, frame: Seq<Cell>, prev: Seq<Cell>) -> Terminal {
    run(t, frame_diff(frame, prev, t.width, t.width * t.height) + reset_seq())
}

/// A terminal whose screen shows the previous frame (wherever that frame has the cell)
/// shows the new frame once it has read what `flush` sends, with its colours reset. The
/// characters of the redrawn cells are taken to be printable: an `ESC` written into a
/// cell would start a control sequence instead.
pub proof fn lemma_flush_shows_frame(t: Terminal, frame: Seq<Cell>, prev: Seq<Cell>)
    requires
        t.screen.len() == t.width * t.height,
        t.width * t.height <= frame.len(),
        forall|k: int| 0 <= k < t.width * t.height && k < prev.len() ==> #[trigger] t.screen[k] == prev[k],
        forall|k: int|
            0 <= k < t.width * t.height && !cell_unchanged(frame, prev, k) ==> #[trigger] frame[k].ch != '\x1b',
    ensures
        after_flush(t, frame, prev).screen == frame.take((t.width * t.height) as int),
        after_flush(t, frame, prev).fg is None,
        after_flush(t, frame, prev).bg is None,
        after_flush(t, frame, prev).width == t.width,
        after_flush(t, frame, prev).height == t.height,
{
    let n = t.width * t.height;
    lemma_run_frame_diff(t, frame, prev, n, reset_seq());
    let a = after_cells(t, frame, prev, n);
    lemma_after_cells(t, frame, prev, n);
    lemma_run_reset(a);
    assert(after_flush(t, frame, prev).screen =~= frame.take(n as int));
}

} // verus!
