use orbitty::planets::{gen_name, hash2_bits, rng_bits, PlanetId, Syllable};

const ORDER: [PlanetId; 8] = [
    PlanetId::Mercury,
    PlanetId::Venus,
    PlanetId::Earth,
    PlanetId::Mars,
    PlanetId::Jupiter,
    PlanetId::Saturn,
    PlanetId::Uranus,
    PlanetId::Neptune,
];

#[test]
fn number_keys_select_planets_in_order_from_the_sun() {
    for (i, p) in ORDER.iter().enumerate() {
        assert_eq!(PlanetId::from_digit(i as u8 + 1), *p);
    }
}

#[test]
fn other_digits_select_neptune() {
    assert_eq!(PlanetId::from_digit(0), PlanetId::Neptune);
    assert_eq!(PlanetId::from_digit(9), PlanetId::Neptune);
    assert_eq!(PlanetId::from_digit(255), PlanetId::Neptune);
}

#[test]
fn planet_names() {
    let names = ["Mercury", "Venus", "Earth", "Mars", "Jupiter", "Saturn", "Uranus", "Neptune"];
    for (p, n) in ORDER.iter().zip(names.iter()) {
        assert_eq!(p.name(), *n);
    }
}

#[test]
fn generated_name_joins_syllables_and_capitalises() {
    let syl = [
        Syllable { onset: 0, vowel: 0, coda: None },
        Syllable { onset: 18, vowel: 5, coda: Some(27) },
    ];
    assert_eq!(gen_name(&syl), "Bathaec");
}

#[test]
fn generated_name_reduces_picks_modulo_tables() {
    let syl = [Syllable { onset: 26 + 19, vowel: 10 + 7, coda: Some(52 + 25) }];
    assert_eq!(gen_name(&syl), "Shyazr");
    assert_eq!(gen_name(&[]), "");
}

#[test]
fn rng_bits_known_values() {
    assert_eq!(rng_bits(0, 0), 0);
    assert_eq!(rng_bits(0x1a2b3c4d, 8), 2912529858835704651);
    assert_eq!(rng_bits(u64::MAX, 700), 7267557155988928490);
}

#[test]
fn hash2_bits_known_values() {
    assert_eq!(hash2_bits(0, 0), 0);
    assert_eq!(hash2_bits(3, -7), 4527181539864706519);
    assert_eq!(hash2_bits(-1, 1), 373915567233609138);
}
