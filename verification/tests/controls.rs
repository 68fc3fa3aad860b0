use orbitty::controls::{
    parse_planet_arg, start_planet, supports_truecolor, Action, InputState, Key, PlanetArg,
    StartPlanet, DEFAULT_SPEED_IDX, SPEED_COUNT,
};
use orbitty::planets::PlanetId;

#[test]
fn planet_names_in_any_case() {
    assert_eq!(parse_planet_arg("mars"), Some(PlanetArg::Named(PlanetId::Mars)));
    assert_eq!(parse_planet_arg("MARS"), Some(PlanetArg::Named(PlanetId::Mars)));
    assert_eq!(parse_planet_arg("Neptune"), Some(PlanetArg::Named(PlanetId::Neptune)));
    assert_eq!(parse_planet_arg("eArTh"), Some(PlanetArg::Named(PlanetId::Earth)));
}

#[test]
fn every_display_name_selects_its_planet() {
    for d in 1..=8u8 {
        let p = PlanetId::from_digit(d);
        assert_eq!(parse_planet_arg(p.name()), Some(PlanetArg::Named(p)));
    }
}

#[test]
fn hex_seeds() {
    assert_eq!(parse_planet_arg("1a2b3c4d"), Some(PlanetArg::Seed(0x1a2b3c4d)));
    assert_eq!(parse_planet_arg("DEADBEEF"), Some(PlanetArg::Seed(0xdeadbeef)));
    assert_eq!(parse_planet_arg("+ff"), Some(PlanetArg::Seed(255)));
    assert_eq!(parse_planet_arg("ffffffffffffffff"), Some(PlanetArg::Seed(u64::MAX)));
    assert_eq!(parse_planet_arg("00000000000000000001"), Some(PlanetArg::Seed(1)));
}

#[test]
fn refused_planet_arguments() {
    assert_eq!(parse_planet_arg(""), None);
    assert_eq!(parse_planet_arg("+"), None);
    assert_eq!(parse_planet_arg("-1"), None);
    assert_eq!(parse_planet_arg("pluto"), None);
    assert_eq!(parse_planet_arg("10000000000000000"), None);
    assert_eq!(parse_planet_arg("random"), None);
    assert_eq!(parse_planet_arg(" mars"), None);
}

#[test]
fn seeds_read_as_from_str_radix_does() {
    let inputs = [
        "0", "7", "f", "F", "+0", "++1", "1+", "g", "0x10", "abcdef0123456789", "ABCDEF0123456789",
        "fffffffffffffffff", "1_0", "１", "", "+", "-", "-0",
    ];
    for s in inputs.iter() {
        let expected = u64::from_str_radix(s, 16).ok().map(PlanetArg::Seed);
        assert_eq!(parse_planet_arg(s), expected, "input {:?}", s);
    }
}

#[test]
fn seed_label_reads_back() {
    for seed in [0u64, 1, 0x1a2b, 0xdeadbeefcafef00d, u64::MAX] {
        let label = format!("{:016x}", seed);
        assert_eq!(parse_planet_arg(&label), Some(PlanetArg::Seed(seed)));
    }
}

#[test]
fn start_planet_choices() {
    assert_eq!(start_planet(None), Some(StartPlanet::Earth));
    assert_eq!(start_planet(Some("random")), Some(StartPlanet::Random));
    assert_eq!(start_planet(Some("Random")), None);
    assert_eq!(start_planet(Some("saturn")), Some(StartPlanet::Arg(PlanetArg::Named(PlanetId::Saturn))));
    assert_eq!(start_planet(Some("abc")), Some(StartPlanet::Arg(PlanetArg::Seed(0xabc))));
    assert_eq!(start_planet(Some("xyz")), None);
}

#[test]
fn truecolor_detection() {
    assert!(supports_truecolor("truecolor"));
    assert!(supports_truecolor("24bit"));
    assert!(!supports_truecolor(""));
    assert!(!supports_truecolor("TRUECOLOR"));
    assert!(!supports_truecolor("truecolour"));
}

fn fresh() -> InputState {
    InputState::new(DEFAULT_SPEED_IDX)
}

#[test]
fn control_c_quits() {
    let mut s = fresh();
    assert_eq!(s.handle_key(Key::ControlChar('c')), Action::Quit);
    s.seed_input = Some(String::from("12"));
    assert_eq!(s.handle_key(Key::ControlChar('c')), Action::Quit);
}

#[test]
fn q_quits_or_closes_help() {
    let mut s = fresh();
    assert_eq!(s.handle_key(Key::Char('h')), Action::Nothing);
    assert!(s.show_help);
    assert_eq!(s.handle_key(Key::Char('q')), Action::Nothing);
    assert!(!s.show_help);
    assert_eq!(s.handle_key(Key::Char('q')), Action::Quit);
    assert_eq!(s.handle_key(Key::Char('й')), Action::Quit);
    assert_eq!(s.handle_key(Key::ControlChar('q')), Action::Quit);
}

#[test]
fn escape_closes_help() {
    let mut s = fresh();
    s.handle_key(Key::Char('р'));
    assert!(s.show_help);
    assert_eq!(s.handle_key(Key::Esc), Action::Nothing);
    assert!(!s.show_help);
    assert_eq!(s.handle_key(Key::Esc), Action::Nothing);
    assert!(!s.show_help);
}

#[test]
fn help_toggles_back() {
    let mut s = fresh();
    s.handle_key(Key::Char('h'));
    s.handle_key(Key::Char('h'));
    assert!(!s.show_help);
    assert_eq!(s.speed_idx, DEFAULT_SPEED_IDX);
    assert!(s.seed_input.is_none());
}

#[test]
fn zoom_keys() {
    let mut s = fresh();
    assert_eq!(s.handle_key(Key::Char('+')), Action::ZoomIn);
    assert_eq!(s.handle_key(Key::Char('=')), Action::ZoomIn);
    assert_eq!(s.handle_key(Key::Char('-')), Action::ZoomOut);
    assert_eq!(s.handle_key(Key::Char('_')), Action::ZoomOut);
}

#[test]
fn speed_keys_stay_in_table() {
    let mut s = fresh();
    for _ in 0..20 {
        s.handle_key(Key::Char(']'));
    }
    assert_eq!(s.speed_idx, SPEED_COUNT - 1);
    s.handle_key(Key::Char('['));
    assert_eq!(s.speed_idx, SPEED_COUNT - 2);
    s.handle_key(Key::Char('ъ'));
    assert_eq!(s.speed_idx, SPEED_COUNT - 1);
    for _ in 0..20 {
        s.handle_key(Key::Char('х'));
    }
    assert_eq!(s.speed_idx, 0);
    s.handle_key(Key::Char(']'));
    s.handle_key(Key::Char('['));
    assert_eq!(s.speed_idx, 0);
}

#[test]
fn number_keys_select_planets() {
    let mut s = fresh();
    assert_eq!(s.handle_key(Key::Char('1')), Action::SelectPlanet(PlanetId::Mercury));
    assert_eq!(s.handle_key(Key::Char('6')), Action::SelectPlanet(PlanetId::Saturn));
    assert_eq!(s.handle_key(Key::Char('8')), Action::SelectPlanet(PlanetId::Neptune));
    assert_eq!(s.handle_key(Key::Char('9')), Action::Nothing);
    assert_eq!(s.handle_key(Key::Char('0')), Action::Nothing);
}

#[test]
fn random_planet_key() {
    let mut s = fresh();
    assert_eq!(s.handle_key(Key::Char('r')), Action::RandomPlanet);
    assert_eq!(s.handle_key(Key::Char('к')), Action::RandomPlanet);
}

#[test]
fn unmapped_keys_do_nothing() {
    let mut s = fresh();
    assert_eq!(s.handle_key(Key::Char('x')), Action::Nothing);
    assert_eq!(s.handle_key(Key::Enter), Action::Nothing);
    assert_eq!(s.handle_key(Key::Backspace), Action::Nothing);
    assert_eq!(s.handle_key(Key::Other), Action::Nothing);
    assert!(!s.show_help);
    assert_eq!(s.speed_idx, DEFAULT_SPEED_IDX);
}

#[test]
fn seed_prompt_types_lowercase_hex() {
    let mut s = fresh();
    assert_eq!(s.handle_key(Key::Char('s')), Action::Nothing);
    assert_eq!(s.seed_input.as_deref(), Some(""));
    for c in ['1', 'A', 'z', 'q', 'f'] {
        assert_eq!(s.handle_key(Key::Char(c)), Action::Nothing);
    }
    assert_eq!(s.seed_input.as_deref(), Some("1af"));
    s.handle_key(Key::Backspace);
    assert_eq!(s.seed_input.as_deref(), Some("1a"));
    assert_eq!(s.handle_key(Key::Enter), Action::SeedPlanet(0x1a));
    assert!(s.seed_input.is_none());
}

#[test]
fn seed_prompt_holds_sixteen_digits() {
    let mut s = fresh();
    s.handle_key(Key::Char('ы'));
    for _ in 0..20 {
        s.handle_key(Key::Char('F'));
    }
    assert_eq!(s.seed_input.as_deref(), Some("ffffffffffffffff"));
    assert_eq!(s.handle_key(Key::Enter), Action::SeedPlanet(u64::MAX));
}

#[test]
fn seed_prompt_escape_and_empty_enter() {
    let mut s = fresh();
    s.handle_key(Key::Char('s'));
    s.handle_key(Key::Char('7'));
    assert_eq!(s.handle_key(Key::Esc), Action::Nothing);
    assert!(s.seed_input.is_none());
    s.handle_key(Key::Char('s'));
    s.handle_key(Key::Backspace);
    assert_eq!(s.seed_input.as_deref(), Some(""));
    assert_eq!(s.handle_key(Key::Enter), Action::Nothing);
    assert!(s.seed_input.is_none());
}

#[test]
fn seed_prompt_takes_command_keys_as_text() {
    let mut s = fresh();
    s.handle_key(Key::Char('s'));
    assert_eq!(s.handle_key(Key::Char('q')), Action::Nothing);
    assert_eq!(s.handle_key(Key::Char('h')), Action::Nothing);
    assert_eq!(s.handle_key(Key::Char('c')), Action::Nothing);
    assert_eq!(s.handle_key(Key::ControlChar('a')), Action::Nothing);
    assert!(!s.show_help);
    assert_eq!(s.seed_input.as_deref(), Some("ca"));
}

#[test]
fn typed_seed_label_reselects_seed() {
    let seed = 0x0123456789abcdefu64;
    let mut s = fresh();
    s.handle_key(Key::Char('s'));
    for c in format!("{:016x}", seed).chars() {
        s.handle_key(Key::Char(c));
    }
    assert_eq!(s.handle_key(Key::Enter), Action::SeedPlanet(seed));
}
