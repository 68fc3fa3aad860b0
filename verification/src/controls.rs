//! Command-line planet choice and the keyboard controls of the viewer.
use vstd::prelude::*;
use crate::planets::{PlanetId, display_name, from_digit_spec};
use crate::text::{
    ascii_lower, ascii_lower_seq, hex_digit_of, hex_digits, is_hex_digit, lemma_hex16_round_trip,
    lowercase_equals, parse_hex_u64, parse_hex_u64_spec, pop_char, push_char, same_text,
    to_ascii_lower,
};

verus! {

// ---------------------------------------------------------------------------
// Choosing a planet on the command line

/// A planet named on the command line: one of the eight, or a generated one by its seed.
#[derive(Clone, Copy, PartialEq, Eq, Debug, Structural)]
pub enum PlanetArg {
    Named(PlanetId),
    Seed(u64),
}

/// The lowercase name by which a planet is chosen.
pub open spec fn arg_name(p: PlanetId) -> Seq<char> {
    match p {
        PlanetId::Mercury => "mercury"@,
        PlanetId::Venus => "venus"@,
        PlanetId::Earth => "earth"@,
        PlanetId::Mars => "mars"@,
        PlanetId::Jupiter => "jupiter"@,
        PlanetId::Saturn => "saturn"@,
        PlanetId::Uranus => "uranus"@,
        PlanetId::Neptune => "neptune"@,
    }
}

/// A planet name in any ASCII case selects that planet; anything else is read as a
/// hexadecimal seed, and what is neither is refused.
pub open spec fn planet_arg_spec(s: Seq<char>) -> Option<PlanetArg> {
    let l = ascii_lower_seq(s);
    if l == arg_name(PlanetId::Mercury) {
        Some(PlanetArg::Named(PlanetId::Mercury))
    } else if l == arg_name(PlanetId::Venus) {
        Some(PlanetArg::Named(PlanetId::Venus))
    } else if l == arg_name(PlanetId::Earth) {
        Some(PlanetArg::Named(PlanetId::Earth))
    } else if l == arg_name(PlanetId::Mars) {
        Some(PlanetArg::Named(PlanetId::Mars))
    } else if l == arg_name(PlanetId::Jupiter) {
        Some(PlanetArg::Named(PlanetId::Jupiter))
    } else if l == arg_name(PlanetId::Saturn) {
        Some(PlanetArg::Named(PlanetId::Saturn))
    } else if l == arg_name(PlanetId::Uranus) {
        Some(PlanetArg::Named(PlanetId::Uranus))
    } else if l == arg_name(PlanetId::Neptune) {
        Some(PlanetArg::Named(PlanetId::Neptune))
    } else {
        match parse_hex_u64_spec(s) {
            Some(v) => Some(PlanetArg::Seed(v)),
            None => None,
        }
    }
}

/// Reads the `--planet` argument: a planet name (any case) or a hexadecimal seed.
pub fn parse_planet_arg(s: &str) -> (r: Option<PlanetArg>)
    ensures
        r == planet_arg_spec(s@),
{
    if lowercase_equals(s, "mercury") {
        Some(PlanetArg::Named(PlanetId::Mercury))
    } else if lowercase_equals(s, "venus") {
        Some(PlanetArg::Named(PlanetId::Venus))
    } else if lowercase_equals(s, "earth") {
        Some(PlanetArg::Named(PlanetId::Earth))
    } else if lowercase_equals(s, "mars") {
        Some(PlanetArg::Named(PlanetId::Mars))
    } else if lowercase_equals(s, "jupiter") {
        Some(PlanetArg::Named(PlanetId::Jupiter))
    } else if lowercase_equals(s, "saturn") {
        Some(PlanetArg::Named(PlanetId::Saturn))
    } else if lowercase_equals(s, "uranus") {
        Some(PlanetArg::Named(PlanetId::Uranus))
    } else if lowercase_equals(s, "neptune") {
        Some(PlanetArg::Named(PlanetId::Neptune))
    } else {
        match parse_hex_u64(s) {
            Some(v) => Some(PlanetArg::Seed(v)),
            None => None,
        }
    }
}

/// The planet shown at start-up.
#[derive(Clone, Copy, PartialEq, Eq, Debug, Structural)]
pub enum StartPlanet {
    /// No `--planet`: the Earth.
    Earth,
    /// `--planet random`: a planet from a fresh seed.
    Random,
    /// A planet named or seeded on the command line.
    Arg(PlanetArg),
}

/// `--planet` absent gives the Earth, exactly `random` a random planet, and anything
/// else what `planet_arg_spec` reads, or `None` (the argument is refused).
pub open spec fn start_planet_spec(arg: Option<Seq<char>>) -> Option<StartPlanet> {
    match arg {
        None => Some(StartPlanet::Earth),
        Some(s) => if s == "random"@ {
            Some(StartPlanet::Random)
        } else {
            match planet_arg_spec(s) {
                Some(a) => Some(StartPlanet::Arg(a)),
                None => None,
            }
        },
    }
}

/// Decides the starting planet from the `--planet` argument; `None` means the argument
/// names no planet and is to be refused.
pub fn start_planet(arg: Option<&str>) -> (r: Option<StartPlanet>)
    ensures
        r == start_planet_spec(
            match arg {
                Some(s) => Some(s@),
                None => None,
            },
        ),
{
    match arg {
        None => Some(StartPlanet::Earth),
        Some(s) => if same_text(s, "random") {
            Some(StartPlanet::Random)
        } else {
            match parse_planet_arg(s) {
                Some(a) => Some(StartPlanet::Arg(a)),
                None => None,
            }
        },
    }
}

/// Whether the `COLORTERM` value announces 24-bit colour.
pub fn supports_truecolor(colorterm: &str) -> (r: bool)
    ensures
        r == (colorterm@ == "truecolor"@ || colorterm@ == "24bit"@),
{
    same_text(colorterm, "truecolor") || same_text(colorterm, "24bit")
}

/// Every planet's display name, in any case, chooses that planet on the command line.
pub proof fn lemma_display_name_selects_planet(p: PlanetId)
    ensures
        planet_arg_spec(display_name(p)) == Some(PlanetArg::Named(p)),
{
    reveal_strlit("Mercury");
    reveal_strlit("Venus");
    reveal_strlit("Earth");
    reveal_strlit("Mars");
    reveal_strlit("Jupiter");
    reveal_strlit("Saturn");
    reveal_strlit("Uranus");
    reveal_strlit("Neptune");
    reveal_strlit("mercury");
    reveal_strlit("venus");
    reveal_strlit("earth");
    reveal_strlit("mars");
    reveal_strlit("jupiter");
    reveal_strlit("saturn");
    reveal_strlit("uranus");
    reveal_strlit("neptune");
    assert(ascii_lower_seq(display_name(p)) =~= arg_name(p));
    let l = ascii_lower_seq(display_name(p));
    match p {
        PlanetId::Mercury => {},
        PlanetId::Venus => {
            assert(l[0] != arg_name(PlanetId::Mercury)[0]);
        },
        PlanetId::Earth => {
            assert(l[0] != arg_name(PlanetId::Mercury)[0]);
            assert(l[0] != arg_name(PlanetId::Venus)[0]);
        },
        PlanetId::Mars => {
            assert(l.len() != arg_name(PlanetId::Mercury).len());
            assert(l[0] != arg_name(PlanetId::Venus)[0]);
            assert(l[0] != arg_name(PlanetId::Earth)[0]);
        },
        PlanetId::Jupiter => {
            assert(l[0] != arg_name(PlanetId::Mercury)[0]);
            assert(l[0] != arg_name(PlanetId::Venus)[0]);
            assert(l[0] != arg_name(PlanetId::Earth)[0]);
            assert(l[0] != arg_name(PlanetId::Mars)[0]);
        },
        PlanetId::Saturn => {
            assert(l[0] != arg_name(PlanetId::Mercury)[0]);
            assert(l[0] != arg_name(PlanetId::Venus)[0]);
            assert(l[0] != arg_name(PlanetId::Earth)[0]);
            assert(l[0] != arg_name(PlanetId::Mars)[0]);
            assert(l[0] != arg_name(PlanetId::Jupiter)[0]);
        },
        PlanetId::Uranus => {
            assert(l[0] != arg_name(PlanetId::Mercury)[0]);
            assert(l[0] != arg_name(PlanetId::Venus)[0]);
            assert(l[0] != arg_name(PlanetId::Earth)[0]);
            assert(l[0] != arg_name(PlanetId::Mars)[0]);
            assert(l[0] != arg_name(PlanetId::Jupiter)[0]);
            assert(l[0] != arg_name(PlanetId::Saturn)[0]);
        },
        PlanetId::Neptune => {
            assert(l[0] != arg_name(PlanetId::Mercury)[0]);
            assert(l[0] != arg_name(PlanetId::Venus)[0]);
            assert(l[0] != arg_name(PlanetId::Earth)[0]);
            assert(l[0] != arg_name(PlanetId::Mars)[0]);
            assert(l[0] != arg_name(PlanetId::Jupiter)[0]);
            assert(l[0] != arg_name(PlanetId::Saturn)[0]);
            assert(l[0] != arg_name(PlanetId::Uranus)[0]);
        },
    }
}

/// The sixteen-digit label under which a generated planet's seed is shown, given as
/// `--planet`, chooses that same seed.
pub proof fn lemma_seed_label_selects_seed(seed: u64)
    ensures
        planet_arg_spec(hex_digits(seed as nat, 16)) == Some(PlanetArg::Seed(seed)),
{
    lemma_hex16_round_trip(seed);
    reveal_strlit("mercury");
    reveal_strlit("venus");
    reveal_strlit("earth");
    reveal_strlit("mars");
    reveal_strlit("jupiter");
    reveal_strlit("saturn");
    reveal_strlit("uranus");
    reveal_strlit("neptune");
    assert(ascii_lower_seq(hex_digits(seed as nat, 16)).len() == 16);
}

// ---------------------------------------------------------------------------
// Keyboard controls

/// Number of rotation speeds (from -32x to 32x).
pub const SPEED_COUNT: usize = 15;

/// The speed that the viewer starts with (4x).
pub const DEFAULT_SPEED_IDX: usize = 11;

/// Most hexadecimal digits a seed can have.
pub const SEED_DIGITS: usize = 16;

/// A key press, as far as the controls tell keys apart.
#[derive(Clone, Copy, PartialEq, Eq, Debug, Structural)]
pub enum Key {
    /// A character key.
    Char(char),
    /// A character key pressed with Control and no other modifier.
    ControlChar(char),
    Esc,
    Enter,
    Backspace,
    /// Any other key or event.
    Other,
}

/// What the viewer does in answer to a key, besides the changes to the input state.
#[derive(Clone, Copy, PartialEq, Eq, Debug, Structural)]
pub enum Action {
    Nothing,
    Quit,
    ZoomIn,
    ZoomOut,
    /// Show a planet made from a fresh seed.
    RandomPlanet,
    /// Show the planet made from this seed.
    SeedPlanet(u64),
    /// Show one of the eight planets.
    SelectPlanet(PlanetId),
}

/// The part of the viewer's state that keys change directly.
pub struct InputState {
    pub show_help: bool,
    /// Index into the table of rotation speeds.
    pub speed_idx: usize,
    /// The seed being typed, while the seed prompt is open.
    pub seed_input: Option<String>,
}

/// The abstract input state: the same fields with the prompt's text as characters.
pub struct InputModel {
    pub show_help: bool,
    pub speed_idx: usize,
    pub seed_input: Option<Seq<char>>,
}

impl View for InputState {
    type V = InputModel;

    open spec fn view(&self) -> InputModel {
        InputModel {
            show_help: self.show_help,
            speed_idx: self.speed_idx,
            seed_input: match self.seed_input {
                Some(s) => Some(s@),
                None => None,
            },
        }
    }
}

/// A digit of a seed as the prompt keeps it: `0`-`9` or `a`-`f`.
pub open spec fn is_lower_hex_digit(c: char) -> bool {
    ('0' <= c && c <= '9') || ('a' <= c && c <= 'f')
}

impl InputModel {
    /// The speed index names a speed, and the prompt holds at most sixteen lowercase
    /// hexadecimal digits.
    pub open spec fn wf(self) -> bool {
        &&& self.speed_idx < SPEED_COUNT
        &&& self.seed_input matches Some(s) ==> {
            &&& s.len() <= SEED_DIGITS
            &&& forall|i: int| 0 <= i < s.len() ==> is_lower_hex_digit(#[trigger] s[i])
        }
    }

    pub open spec fn with_help(self, show_help: bool) -> InputModel {
        InputModel { show_help, speed_idx: self.speed_idx, seed_input: self.seed_input }
    }

    pub open spec fn with_speed(self, speed_idx: usize) -> InputModel {
        InputModel { show_help: self.show_help, speed_idx, seed_input: self.seed_input }
    }

    pub open spec fn with_input(self, seed_input: Option<Seq<char>>) -> InputModel {
        InputModel { show_help: self.show_help, speed_idx: self.speed_idx, seed_input }
    }
}

/// The character of a character key, with or without Control.
pub open spec fn key_char(k: Key) -> Option<char> {
    match k {
        Key::Char(c) => Some(c),
        Key::ControlChar(c) => Some(c),
        _ => None,
    }
}

/// A key while the seed prompt holds `s`: Escape closes it, Enter closes it and shows
/// the planet of the typed seed when it reads as one, Backspace deletes the last digit,
/// and a hexadecimal digit is added in lowercase while fewer than sixteen are typed.
pub open spec fn seed_prompt_step(m: InputModel, s: Seq<char>, k: Key) -> (InputModel, Action) {
    match k {
        Key::Esc => (m.with_input(None), Action::Nothing),
        Key::Enter => (
            m.with_input(None),
            match parse_hex_u64_spec(s) {
                Some(v) => Action::SeedPlanet(v),
                None => Action::Nothing,
            },
        ),
        Key::Backspace => (
            m.with_input(Some(if s.len() > 0 { s.drop_last() } else { s })),
            Action::Nothing,
        ),
        Key::Char(c) | Key::ControlChar(c) => (
            if is_hex_digit(c) && s.len() < SEED_DIGITS {
                m.with_input(Some(s.push(ascii_lower(c))))
            } else {
                m
            },
            Action::Nothing,
        ),
        Key::Other => (m, Action::Nothing),
    }
}

/// A character key outside the seed prompt.
pub open spec fn command_step(m: InputModel, c: char) -> (InputModel, Action) {
    if c == 'q' || c == 'й' {
        if m.show_help {
            (m.with_help(false), Action::Nothing)
        } else {
            (m, Action::Quit)
        }
    } else if c == 'h' || c == 'р' {
        (m.with_help(!m.show_help), Action::Nothing)
    } else if c == '+' || c == '=' {
        (m, Action::ZoomIn)
    } else if c == '-' || c == '_' {
        (m, Action::ZoomOut)
    } else if c == ']' || c == 'ъ' {
        (
            m.with_speed(if m.speed_idx + 1 < SPEED_COUNT { (m.speed_idx + 1) as usize } else { (SPEED_COUNT - 1) as usize }),
            Action::Nothing,
        )
    } else if c == '[' || c == 'х' {
        (m.with_speed(if m.speed_idx > 0 { (m.speed_idx - 1) as usize } else { 0 }), Action::Nothing)
    } else if c == 'r' || c == 'к' {
        (m, Action::RandomPlanet)
    } else if c == 's' || c == 'ы' {
        (m.with_input(Some(Seq::empty())), Action::Nothing)
    } else if '1' <= c && c <= '8' {
        (m, Action::SelectPlanet(from_digit_spec(((c as u32) - 48) as u8)))
    } else {
        (m, Action::Nothing)
    }
}

/// What a key does: Control-C always quits; otherwise the seed prompt, while open,
/// takes every key, and outside it character keys are commands and Escape closes help.
pub open spec fn key_step(m: InputModel, k: Key) -> (InputModel, Action) {
    if k == Key::ControlChar('c') {
        (m, Action::Quit)
    } else if m.seed_input is Some {
        seed_prompt_step(m, m.seed_input->0, k)
    } else {
        match key_char(k) {
            Some(c) => command_step(m, c),
            None => if k == Key::Esc {
                (m.with_help(false), Action::Nothing)
            } else {
                (m, Action::Nothing)
            },
        }
    }
}

impl InputState {
    /// The state at start-up: help hidden, the given speed, no prompt.
    pub fn new(speed_idx: usize) -> (s: InputState)
        requires
            speed_idx < SPEED_COUNT,
        ensures
            s@ == (InputModel { show_help: false, speed_idx, seed_input: None }),
            s@.wf(),
    {
        InputState { show_help: false, speed_idx, seed_input: None }
    }

    fn seed_prompt_key(&mut self, s: String, key: Key) -> (a: Action)
        requires
            old(self).seed_input is None,
            (InputModel { seed_input: Some(s@), ..old(self)@ }).wf(),
        ensures
            (final(self)@, a) == seed_prompt_step(
                InputModel { seed_input: Some(s@), ..old(self)@ },
                s@,
                key,
            ),
    {
        let mut s = s;
        match key {
            Key::Esc => Action::Nothing,
            Key::Enter => match parse_hex_u64(s.as_str()) {
                Some(v) => Action::SeedPlanet(v),
                None => Action::Nothing,
            },
            Key::Backspace => {
                let _ = pop_char(&mut s);
                self.seed_input = Some(s);
                Action::Nothing
            },
            Key::Char(c) | Key::ControlChar(c) => {
                let ghost before = s@;
                if hex_digit_of(c).is_some() && s.as_str().unicode_len() < SEED_DIGITS {
                    push_char(&mut s, to_ascii_lower(c));
                }
                assert(s@ == (if is_hex_digit(c) && before.len() < SEED_DIGITS {
                    before.push(ascii_lower(c))
                } else {
                    before
                }));
                self.seed_input = Some(s);
                Action::Nothing
            },
            Key::Other => {
                self.seed_input = Some(s);
                Action::Nothing
            },
        }
    }

    /// Updates the state for one key and says what the viewer is to do.
    pub fn handle_key(&mut self, key: Key) -> (a: Action)
        requires
            old(self)@.wf(),
        ensures
            (final(self)@, a) == key_step(old(self)@, key),
            final(self)@.wf(),
    {
        if key == Key::ControlChar('c') {
            return Action::Quit;
        }
        match self.seed_input.take() {
            Some(s) => {
                let a = self.seed_prompt_key(s, key);
                proof {
                    lemma_step_keeps_wf(old(self)@, key);
                }
                a
            },
            None => {
                let c = match key {
                    Key::Char(c) => c,
                    Key::ControlChar(c) => c,
                    Key::Esc => {
                        self.show_help = false;
                        return Action::Nothing;
                    },
                    _ => {
                        return Action::Nothing;
                    },
                };
                if c == 'q' || c == 'й' {
                    if self.show_help {
                        self.show_help = false;
                        Action::Nothing
                    } else {
                        Action::Quit
                    }
                } else if c == 'h' || c == 'р' {
                    self.show_help = !self.show_help;
                    Action::Nothing
                } else if c == '+' || c == '=' {
                    Action::ZoomIn
                } else if c == '-' || c == '_' {
                    Action::ZoomOut
                } else if c == ']' || c == 'ъ' {
                    self.speed_idx = if self.speed_idx + 1 < SPEED_COUNT { self.speed_idx + 1 } else { SPEED_COUNT - 1 };
                    Action::Nothing
                } else if c == '[' || c == 'х' {
                    self.speed_idx = if self.speed_idx > 0 { self.speed_idx - 1 } else { 0 };
                    Action::Nothing
                } else if c == 'r' || c == 'к' {
                    Action::RandomPlanet
                } else if c == 's' || c == 'ы' {
                    self.seed_input = Some(String::new());
                    Action::Nothing
                } else if '1' <= c && c <= '8' {
                    Action::SelectPlanet(PlanetId::from_digit(((c as u32) - 48) as u8))
                } else {
                    Action::Nothing
                }
            },
        }
    }
}

/// Every key keeps the input state well formed: the speed index stays within the table
/// and the seed prompt holds at most sixteen lowercase hexadecimal digits.
pub proof fn lemma_step_keeps_wf(m: InputModel, k: Key)
    requires
        m.wf(),
    ensures
        key_step(m, k).0.wf(),
{
    if k != Key::ControlChar('c') && m.seed_input is Some {
        let s = m.seed_input->0;
        match k {
            Key::Char(c) | Key::ControlChar(c) => {
                if is_hex_digit(c) && s.len() < SEED_DIGITS {
                    let t = s.push(ascii_lower(c));
                    assert forall|i: int| 0 <= i < t.len() implies is_lower_hex_digit(#[trigger] t[i]) by {
                        if i < s.len() {
                            assert(t[i] == s[i]);
                        }
                    }
                }
            },
            Key::Backspace => {
                if s.len() > 0 {
                    let t = s.drop_last();
                    assert forall|i: int| 0 <= i < t.len() implies is_lower_hex_digit(#[trigger] t[i]) by {
                        assert(t[i] == s[i]);
                    }
                }
            },
            _ => {},
        }
    }
}

/// Typing a planet's sixteen-digit seed label into the prompt and pressing Enter shows
/// that planet again.
pub proof fn lemma_typed_label_selects_seed(m: InputModel, seed: u64)
    requires
        m.seed_input == Some(hex_digits(seed as nat, 16)),
    ensures
        key_step(m, Key::Enter) == (m.with_input(None), Action::SeedPlanet(seed)),
{
    lemma_hex16_round_trip(seed);
}

/// Outside the prompt, pressing `h` twice leaves the state as it was.
pub proof fn lemma_help_toggle_twice(m: InputModel)
    requires
        m.seed_input is None,
    ensures
        key_step(key_step(m, Key::Char('h')).0, Key::Char('h')) == (m, Action::Nothing),
{
}

/// Outside the prompt, `]` then `[` restores the speed below the fastest; `]` at the
/// fastest speed and `[` at the slowest change nothing.
pub proof fn lemma_speed_keys(m: InputModel)
    requires
        m.wf(),
        m.seed_input is None,
    ensures
        m.speed_idx + 1 < SPEED_COUNT ==> key_step(key_step(m, Key::Char(']')).0, Key::Char('[')).0 == m,
        m.speed_idx + 1 == SPEED_COUNT ==> key_step(m, Key::Char(']')).0 == m,
        m.speed_idx == 0 ==> key_step(m, Key::Char('[')).0 == m,
{
}

/// In the prompt, a hexadecimal digit typed with room left and then deleted leaves the
/// prompt as it was.
pub proof fn lemma_digit_then_backspace(m: InputModel, c: char)
    requires
        m.seed_input matches Some(s) && s.len() < SEED_DIGITS,
        is_hex_digit(c),
    ensures
        key_step(key_step(m, Key::Char(c)).0, Key::Backspace).0 == m,
{
    let s = m.seed_input->0;
    assert(s.push(ascii_lower(c)).drop_last() =~= s);
}


/// While the seed prompt is open, Ctrl-C quits, Esc closes the prompt, and Enter closes
/// it and asks for a seeded planet or nothing. Every other key leaves the prompt open and
/// the help and speed as they were, and does nothing else: a character key adds its
/// lowercase digit when it is a hexadecimal digit and there is room (else the text stays),
/// Backspace takes the last digit off, and any other key or event changes nothing at all.
pub proof fn lemma_seed_prompt_keys(m: InputModel, k: Key)
    requires
        m.seed_input is Some,
    ensures
        key_step(m, Key::ControlChar('c')) == (m, Action::Quit),
        k == Key::Other ==> key_step(m, k) == (m, Action::Nothing),
        k == Key::Esc ==> key_step(m, k).0.seed_input is None && key_step(m, k).1 == Action::Nothing,
        k == Key::Enter ==> key_step(m, k).0.seed_input is None && (key_step(m, k).1 == Action::Nothing
            || key_step(m, k).1 is SeedPlanet),
        k != Key::ControlChar('c') ==> key_step(m, k).0.show_help == m.show_help && key_step(m, k).0.speed_idx
            == m.speed_idx,
        k != Key::ControlChar('c') && k != Key::Enter ==> key_step(m, k).1 == Action::Nothing,
        k == Key::Backspace ==> key_step(m, k).0.seed_input == Some(
            if m.seed_input->0.len() > 0 { m.seed_input->0.drop_last() } else { m.seed_input->0 },
        ),
        k != Key::ControlChar('c') && key_char(k) is Some ==> key_step(m, k).0.seed_input is Some,
        k != Key::ControlChar('c') && key_char(k) is Some && is_hex_digit(key_char(k)->0)
            && m.seed_input->0.len() < SEED_DIGITS ==> key_step(m, k).0.seed_input->0 == m.seed_input->0.push(
            ascii_lower(key_char(k)->0),
        ),
        k != Key::ControlChar('c') && key_char(k) is Some && !(is_hex_digit(key_char(k)->0)
            && m.seed_input->0.len() < SEED_DIGITS) ==> key_step(m, k).0.seed_input->0 == m.seed_input->0,
{
}

} // verus!
