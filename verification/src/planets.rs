//! The built-in planets, the names of generated planets, and the integer
//! hashes that seed procedural textures.
use vstd::prelude::*;
use vstd::wrapping::{i64_specs, u64_specs};
use crate::text::{ascii_upper, push_char, to_ascii_upper};

verus! {

/// The eight planets of the solar system, in order from the sun.
#[derive(Clone, Copy, PartialEq, Eq, Debug, Structural)]
pub enum PlanetId {
    Mercury,
    Venus,
    Earth,
    Mars,
    Jupiter,
    Saturn,
    Uranus,
    Neptune,
}

/// The key (`1`-`8`) that selects a planet: its place in order from the sun.
pub open spec fn digit_of(p: PlanetId) -> u8 {
    match p {
        PlanetId::Mercury => 1,
        PlanetId::Venus => 2,
        PlanetId::Earth => 3,
        PlanetId::Mars => 4,
        PlanetId::Jupiter => 5,
        PlanetId::Saturn => 6,
        PlanetId::Uranus => 7,
        PlanetId::Neptune => 8,
    }
}

/// The planet that a digit selects; every digit outside `1..=7` gives Neptune.
pub open spec fn from_digit_spec(d: u8) -> PlanetId {
    if d == 1 {
        PlanetId::Mercury
    } else if d == 2 {
        PlanetId::Venus
    } else if d == 3 {
        PlanetId::Earth
    } else if d == 4 {
        PlanetId::Mars
    } else if d == 5 {
        PlanetId::Jupiter
    } else if d == 6 {
        PlanetId::Saturn
    } else if d == 7 {
        PlanetId::Uranus
    } else {
        PlanetId::Neptune
    }
}

/// The name shown in the title bar.
pub open spec fn display_name(p: PlanetId) -> Seq<char> {
    match p {
        PlanetId::Mercury => "Mercury"@,
        PlanetId::Venus => "Venus"@,
        PlanetId::Earth => "Earth"@,
        PlanetId::Mars => "Mars"@,
        PlanetId::Jupiter => "Jupiter"@,
        PlanetId::Saturn => "Saturn"@,
        PlanetId::Uranus => "Uranus"@,
        PlanetId::Neptune => "Neptune"@,
    }
}

impl PlanetId {
    /// The planet that the number key `d` selects.
    pub fn from_digit(d: u8) -> (p: PlanetId)
        ensures
            p == from_digit_spec(d),
    {
        match d {
            1 => PlanetId::Mercury,
            2 => PlanetId::Venus,
            3 => PlanetId::Earth,
            4 => PlanetId::Mars,
            5 => PlanetId::Jupiter,
            6 => PlanetId::Saturn,
            7 => PlanetId::Uranus,
            _ => PlanetId::Neptune,
        }
    }

    /// The planet's display name.
    pub fn name(self) -> (s: &'static str)
        ensures
            s@ == display_name(self),
    {
        match self {
            PlanetId::Mercury => "Mercury",
            PlanetId::Venus => "Venus",
            PlanetId::Earth => "Earth",
            PlanetId::Mars => "Mars",
            PlanetId::Jupiter => "Jupiter",
            PlanetId::Saturn => "Saturn",
            PlanetId::Uranus => "Uranus",
            PlanetId::Neptune => "Neptune",
        }
    }
}

/// Each planet's number key selects that planet again.
pub proof fn lemma_digit_selects_planet(p: PlanetId)
    ensures
        1 <= digit_of(p) <= 8,
        from_digit_spec(digit_of(p)) == p,
{
}

// ---------------------------------------------------------------------------
// Names of generated planets

/// The onset consonants that generated names are built from.
pub open spec fn consonant(i: nat) -> Seq<char> {
    if i == 0 { "b"@ } else if i == 1 { "c"@ } else if i == 2 { "d"@ } else if i == 3 { "f"@ }
    else if i == 4 { "g"@ } else if i == 5 { "h"@ } else if i == 6 { "j"@ } else if i == 7 { "k"@ }
    else if i == 8 { "l"@ } else if i == 9 { "m"@ } else if i == 10 { "n"@ } else if i == 11 { "p"@ }
    else if i == 12 { "r"@ } else if i == 13 { "s"@ } else if i == 14 { "t"@ } else if i == 15 { "v"@ }
    else if i == 16 { "x"@ } else if i == 17 { "z"@ } else if i == 18 { "th"@ } else if i == 19 { "sh"@ }
    else if i == 20 { "ch"@ } else if i == 21 { "kr"@ } else if i == 22 { "tr"@ } else if i == 23 { "gr"@ }
    else if i == 24 { "vr"@ } else { "zr"@ }
}

/// The vowels that generated names are built from.
pub open spec fn vowel(i: nat) -> Seq<char> {
    if i == 0 { "a"@ } else if i == 1 { "e"@ } else if i == 2 { "i"@ } else if i == 3 { "o"@ }
    else if i == 4 { "u"@ } else if i == 5 { "ae"@ } else if i == 6 { "io"@ } else if i == 7 { "ya"@ }
    else if i == 8 { "ei"@ } else { "ou"@ }
}

pub const CONSONANT_COUNT: usize = 26;

pub const VOWEL_COUNT: usize = 10;

fn consonant_str(i: usize) -> (s: &'static str)
    requires
        i < CONSONANT_COUNT,
    ensures
        s@ == consonant(i as nat),
{
    if i == 0 { "b" } else if i == 1 { "c" } else if i == 2 { "d" } else if i == 3 { "f" }
    else if i == 4 { "g" } else if i == 5 { "h" } else if i == 6 { "j" } else if i == 7 { "k" }
    else if i == 8 { "l" } else if i == 9 { "m" } else if i == 10 { "n" } else if i == 11 { "p" }
    else if i == 12 { "r" } else if i == 13 { "s" } else if i == 14 { "t" } else if i == 15 { "v" }
    else if i == 16 { "x" } else if i == 17 { "z" } else if i == 18 { "th" } else if i == 19 { "sh" }
    else if i == 20 { "ch" } else if i == 21 { "kr" } else if i == 22 { "tr" } else if i == 23 { "gr" }
    else if i == 24 { "vr" } else { "zr" }
}

fn vowel_str(i: usize) -> (s: &'static str)
    requires
        i < VOWEL_COUNT,
    ensures
        s@ == vowel(i as nat),
{
    if i == 0 { "a" } else if i == 1 { "e" } else if i == 2 { "i" } else if i == 3 { "o" }
    else if i == 4 { "u" } else if i == 5 { "ae" } else if i == 6 { "io" } else if i == 7 { "ya" }
    else if i == 8 { "ei" } else { "ou" }
}

/// One syllable of a generated name, as the raw picks drawn from the seed: each pick
/// is reduced modulo the size of its table.
#[derive(Clone, Copy, PartialEq, Eq, Debug)]
pub struct Syllable {
    pub onset: usize,
    pub vowel: usize,
    /// The closing consonant, present for about a third of the syllables.
    pub coda: Option<usize>,
}

pub open spec fn syllable_text(s: Syllable) -> Seq<char> {
    consonant((s.onset % 26) as nat) + vowel((s.vowel % 10) as nat) + match s.coda {
        Some(c) => consonant((c % 26) as nat),
        None => Seq::empty(),
    }
}

pub open spec fn syllables_text(s: Seq<Syllable>) -> Seq<char>
    decreases s.len(),
{
    if s.len() == 0 {
        Seq::empty()
    } else {
        syllables_text(s.drop_last()) + syllable_text(s.last())
    }
}

/// The text with its first character made an ASCII capital.
pub open spec fn capitalized(s: Seq<char>) -> Seq<char> {
    if s.len() == 0 {
        s
    } else {
        s.update(0, ascii_upper(s[0]))
    }
}

/// The name of a generated planet: its syllables joined, first letter capitalised.
pub fn gen_name(syllables: &[Syllable]) -> (name: String)
    ensures
        name@ == capitalized(syllables_text(syllables@)),
{
    let mut text = String::new();
    let mut i: usize = 0;
    while i < syllables.len()
        invariant
            i <= syllables@.len(),
            text@ == syllables_text(syllables@.take(i as int)),
        decreases syllables@.len() - i,
    {
        let syl = syllables[i];
        text.append(consonant_str(syl.onset % CONSONANT_COUNT));
        text.append(vowel_str(syl.vowel % VOWEL_COUNT));
        match syl.coda {
            Some(c) => text.append(consonant_str(c % CONSONANT_COUNT)),
            None => {},
        }
        assert(syllables@.take(i + 1).drop_last() =~= syllables@.take(i as int));
        assert(text@ =~= syllables_text(syllables@.take(i + 1)));
        i = i + 1;
    }
    assert(syllables@.take(syllables@.len() as int) =~= syllables@);
    let n = text.as_str().unicode_len();
    let mut name = String::new();
    if n == 0 {
        return name;
    }
    push_char(&mut name, to_ascii_upper(text.as_str().get_char(0)));
    let mut j: usize = 1;
    while j < n
        invariant
            1 <= j <= n,
            n == text@.len(),
            name@ == capitalized(text@).take(j as int),
        decreases n - j,
    {
        push_char(&mut name, text.as_str().get_char(j));
        assert(name@ =~= capitalized(text@).take(j + 1));
        j = j + 1;
    }
    assert(capitalized(text@).take(n as int) =~= capitalized(text@));
    name
}

proof fn lemma_table_lengths(i: nat, j: nat)
    requires
        i < 26,
        j < 10,
    ensures
        1 <= consonant(i).len() <= 2,
        1 <= vowel(j).len() <= 2,
{
    reveal_strlit("b");
    reveal_strlit("c");
    reveal_strlit("d");
    reveal_strlit("f");
    reveal_strlit("g");
    reveal_strlit("h");
    reveal_strlit("j");
    reveal_strlit("k");
    reveal_strlit("l");
    reveal_strlit("m");
    reveal_strlit("n");
    reveal_strlit("p");
    reveal_strlit("r");
    reveal_strlit("s");
    reveal_strlit("t");
    reveal_strlit("v");
    reveal_strlit("x");
    reveal_strlit("z");
    reveal_strlit("th");
    reveal_strlit("sh");
    reveal_strlit("ch");
    reveal_strlit("kr");
    reveal_strlit("tr");
    reveal_strlit("gr");
    reveal_strlit("vr");
    reveal_strlit("zr");
    reveal_strlit("a");
    reveal_strlit("e");
    reveal_strlit("i");
    reveal_strlit("o");
    reveal_strlit("u");
    reveal_strlit("ae");
    reveal_strlit("io");
    reveal_strlit("ya");
    reveal_strlit("ei");
    reveal_strlit("ou");
}

/// A syllable is written as its onset and vowel, and a closing consonant adds its
/// letters at the end; each syllable takes two to six letters.
pub proof fn lemma_syllable_text(x: Syllable)
    ensures
        2 <= syllable_text(x).len() <= 6,
        syllable_text(x).take(consonant((x.onset % 26) as nat).len() as int) == consonant((x.onset % 26) as nat),
        x.coda matches Some(c) ==> syllable_text(x) == syllable_text(Syllable { coda: None, ..x }) + consonant(
            (c % 26) as nat,
        ),
{
    lemma_table_lengths((x.onset % 26) as nat, (x.vowel % 10) as nat);
    if let Some(c) = x.coda {
        lemma_table_lengths((c % 26) as nat, 0);
    }
    let on = consonant((x.onset % 26) as nat);
    assert(syllable_text(x).take(on.len() as int) =~= on);
    if let Some(c) = x.coda {
        assert(syllable_text(x) =~= syllable_text(Syllable { coda: None, ..x }) + consonant((c % 26) as nat));
    }
}

/// The text of syllables written one after another is the texts of the parts joined.
pub proof fn lemma_syllables_text_concat(s: Seq<Syllable>, t: Seq<Syllable>)
    ensures
        syllables_text(s + t) == syllables_text(s) + syllables_text(t),
    decreases t.len(),
{
    if t.len() == 0 {
        assert(s + t =~= s);
        assert(syllables_text(s) + syllables_text(t) =~= syllables_text(s));
    } else {
        lemma_syllables_text_concat(s, t.drop_last());
        assert((s + t).drop_last() =~= s + t.drop_last());
        assert((s + t).last() == t.last());
        assert(syllables_text(s + t) =~= syllables_text(s) + syllables_text(t));
    }
}

/// The number of letters of the syllables' texts, added up.
pub open spec fn letters_in(s: Seq<Syllable>) -> nat
    decreases s.len(),
{
    if s.len() == 0 {
        0
    } else {
        letters_in(s.drop_last()) + syllable_text(s.last()).len()
    }
}

/// A generated name holds every syllable: its length is the sum of the syllables'
/// lengths, so two to six letters a syllable.
pub proof fn lemma_gen_name_length(s: Seq<Syllable>)
    ensures
        capitalized(syllables_text(s)).len() == letters_in(s),
        2 * s.len() <= letters_in(s) <= 6 * s.len(),
    decreases s.len(),
{
    if s.len() > 0 {
        lemma_gen_name_length(s.drop_last());
        lemma_syllable_text(s.last());
    }
}

/// One more syllable writes the name of the shorter list followed by that syllable: the
/// capital stays on the first letter and every syllable is kept in order.
pub proof fn lemma_gen_name_push(s: Seq<Syllable>, x: Syllable)
    requires
        s.len() > 0,
    ensures
        capitalized(syllables_text(s.push(x))) == capitalized(syllables_text(s)) + syllable_text(x),
        syllables_text(s.push(x)) == syllables_text(s) + syllable_text(x),
{
    lemma_gen_name_length(s);
    assert(s.push(x).drop_last() =~= s);
    assert(capitalized(syllables_text(s.push(x))) =~= capitalized(syllables_text(s)) + syllable_text(x));
}

// ---------------------------------------------------------------------------
// Integer hashes behind procedural textures

/// The SplitMix64 finaliser over `seed + i * golden ratio`, as the random
/// planet generator draws its `i`-th number from a seed.
pub open spec fn rng_bits_spec(seed: u64, i: u64) -> u64 {
    let h0 = u64_specs::wrapping_add(seed, u64_specs::wrapping_mul(i, 0x9e3779b97f4a7c15));
    let h1 = h0 ^ (h0 >> 30u64);
    let h2 = u64_specs::wrapping_mul(h1, 0xbf58476d1ce4e5b9);
    let h3 = h2 ^ (h2 >> 27u64);
    let h4 = u64_specs::wrapping_mul(h3, 0x94d049bb133111eb);
    h4 ^ (h4 >> 31u64)
}

/// The `i`-th 64-bit draw from a planet seed; divided by `u64::MAX` it gives a number in [0, 1].
pub fn rng_bits(seed: u64, i: u64) -> (h: u64)
    ensures
        h == rng_bits_spec(seed, i),
{
    let mut h = seed.wrapping_add(i.wrapping_mul(0x9e3779b97f4a7c15));
    h = h ^ (h >> 30);
    h = h.wrapping_mul(0xbf58476d1ce4e5b9);
    h = h ^ (h >> 27);
    h = h.wrapping_mul(0x94d049bb133111eb);
    h = h ^ (h >> 31);
    h
}

/// The lattice hash of value noise at the integer point `(x, y)`.
pub open spec fn hash2_bits_spec(x: i64, y: i64) -> i64 {
    let h0 = i64_specs::wrapping_add(
        i64_specs::wrapping_mul(x, 374761393),
        i64_specs::wrapping_mul(y, 668265263),
    );
    let h1 = i64_specs::wrapping_mul(h0 ^ (h0 >> 13u64), 1274126177);
    h1 ^ (h1 >> 16u64)
}

/// The hash of the lattice point `(x, y)`; read as a `u64` and divided by `u64::MAX`
/// it is the noise value at that point.
pub fn hash2_bits(x: i64, y: i64) -> (h: i64)
    ensures
        h == hash2_bits_spec(x, y),
{
    let mut h = x.wrapping_mul(374761393).wrapping_add(y.wrapping_mul(668265263));
    h = (h ^ (h >> 13)).wrapping_mul(1274126177);
    h = h ^ (h >> 16);
    h
}

} // verus!
