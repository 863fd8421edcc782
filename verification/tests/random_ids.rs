use ddp::random::{letter, Random, ALPHABET_SIZE, ID_LENGTH};

const ALPHABET: &str = "23456789ABCDEFGHJKLMNPQRSTWXYZabcdefghijkmnopqrstuvwxyz";

fn generator() -> Random {
    Random::new().expect("the operating system's random source")
}

#[test]
fn ids_have_seventeen_characters_of_the_alphabet() {
    let mut rng = generator();
    for _ in 0..200 {
        let id = rng.id();
        assert_eq!(id.chars().count(), 17);
        assert!(id.chars().all(|c| ALPHABET.contains(c)), "{}", id);
    }
}

#[test]
fn id_length_is_seventeen() {
    assert_eq!(ID_LENGTH, 17);
}

#[test]
fn random_strings_have_the_length_asked_for() {
    let mut rng = generator();
    for n in [0usize, 1, 2, 17, 64, 1000] {
        let s = rng.random_string(n);
        assert_eq!(s.chars().count(), n);
        assert!(s.chars().all(|c| ALPHABET.contains(c)));
    }
}

#[test]
fn ids_avoid_the_look_alikes() {
    let mut rng = generator();
    let s = rng.random_string(5000);
    for c in ['0', '1', 'I', 'O', 'U', 'V', 'l'] {
        assert!(!s.contains(c), "{}", c);
    }
}

#[test]
fn ids_are_not_all_the_same() {
    let mut rng = generator();
    let first = rng.id();
    let mut differs = false;
    for _ in 0..20 {
        if rng.id() != first {
            differs = true;
        }
    }
    assert!(differs);
}

#[test]
fn every_character_of_the_alphabet_is_drawn() {
    let mut rng = generator();
    let s = rng.random_string(20000);
    for c in ALPHABET.chars() {
        assert!(s.contains(c), "{}", c);
    }
}

#[test]
fn letters_stand_at_their_place_in_the_alphabet() {
    assert_eq!(ALPHABET_SIZE, 55);
    assert_eq!(letter(0), '2');
    assert_eq!(letter(7), '9');
    assert_eq!(letter(8), 'A');
    assert_eq!(letter(29), 'Z');
    assert_eq!(letter(30), 'a');
    assert_eq!(letter(54), 'z');
    for (i, c) in ALPHABET.chars().enumerate() {
        assert_eq!(letter(i), c);
    }
}

#[test]
fn a_generator_needs_a_source() {
    assert!(Random::from_source(None).is_none());
    let mut rng = Random::from_source(rand::OsRng::new().ok()).expect("a generator");
    assert_eq!(rng.id().chars().count(), 17);
}
