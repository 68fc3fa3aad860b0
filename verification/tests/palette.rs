use orbitty::palette::Rgb;

#[test]
fn fg_seq_writes_truecolor_foreground() {
    assert_eq!(Rgb(1, 2, 3).fg_seq(), "\x1b[38;2;1;2;3m");
    assert_eq!(Rgb(255, 0, 128).fg_seq(), "\x1b[38;2;255;0;128m");
}

#[test]
fn bg_seq_writes_truecolor_background() {
    assert_eq!(Rgb(0, 0, 0).bg_seq(), "\x1b[48;2;0;0;0m");
    assert_eq!(Rgb(10, 200, 99).bg_seq(), "\x1b[48;2;10;200;99m");
}

#[test]
fn backdrop_matches_float_scaling() {
    for c in 0..=255u8 {
        let expected = ((c as f64) * 0.35).clamp(0.0, 255.0) as u8;
        assert_eq!(Rgb(c, c, c).backdrop(), Rgb(expected, expected, expected), "channel {}", c);
    }
    assert_eq!(Rgb(180, 20, 100).backdrop(), Rgb(62, 7, 35));
}

#[test]
fn bg_seq_is_fg_seq_with_background_selector() {
    assert_eq!(Rgb(4, 5, 6).bg_seq(), "\x1b[48;2;4;5;6m");
    assert_eq!(Rgb(4, 5, 6).fg_seq().replacen("[38", "[48", 1), Rgb(4, 5, 6).bg_seq());
}

#[test]
fn different_colours_give_different_sequences() {
    let colours = [Rgb(1, 23, 4), Rgb(12, 3, 4), Rgb(1, 2, 34), Rgb(0, 0, 0), Rgb(255, 255, 255)];
    for a in colours.iter() {
        for b in colours.iter() {
            assert_eq!(a == b, a.bg_seq() == b.bg_seq());
            assert_eq!(a == b, a.fg_seq() == b.fg_seq());
        }
    }
}
