use breeding_center::kinds::Gender;
use breeding_center::kinds::PokemonType;
use breeding_center::pokemon::Pokemon;
use breeding_center::pokemon::BREEDING_LEVEL;
use breeding_center::pokemon::XP_PER_LEVEL;

fn trained(name: &str, pokemon_type: PokemonType, gender: Gender, xp: u32) -> Pokemon {
    let mut p = Pokemon::new(name, pokemon_type, gender);
    assert!(p.can_gain_xp(xp));
    p.gain_xp(xp);
    p
}

#[test]
fn new_creature_starts_at_level_one() {
    let p = Pokemon::new("Pikachu", PokemonType::Electric, Gender::Male);
    assert_eq!(p.name(), "Pikachu");
    assert_eq!(p.level(), 1);
    assert_eq!(p.experience(), 0);
    assert_eq!(p.pokemon_type(), PokemonType::Electric);
    assert_eq!(p.gender(), Gender::Male);
}

#[test]
fn new_creature_takes_any_name() {
    let p = Pokemon::new("", PokemonType::Normal, Gender::Female);
    assert_eq!(p.name(), "");
    let q = Pokemon::new("Pokémon №1", PokemonType::Water, Gender::Female);
    assert_eq!(q.name(), "Pokémon №1");
}

#[test]
fn constants_are_a_hundred_and_five() {
    assert_eq!(XP_PER_LEVEL, 100);
    assert_eq!(BREEDING_LEVEL, 5);
}

#[test]
fn type_labels() {
    assert_eq!(PokemonType::Fire.as_str(), "Fire");
    assert_eq!(PokemonType::Water.as_str(), "Water");
    assert_eq!(PokemonType::Grass.as_str(), "Grass");
    assert_eq!(PokemonType::Electric.as_str(), "Electric");
    assert_eq!(PokemonType::Normal.as_str(), "Normal");
}

#[test]
fn gender_labels() {
    assert_eq!(Gender::Male.as_str(), "Male");
    assert_eq!(Gender::Female.as_str(), "Female");
}

#[test]
fn ranks_follow_the_alphabet() {
    let all = [
        PokemonType::Fire,
        PokemonType::Water,
        PokemonType::Grass,
        PokemonType::Electric,
        PokemonType::Normal,
    ];
    for a in all {
        for b in all {
            assert_eq!(
                a.alphabetical_rank() <= b.alphabetical_rank(),
                a.as_str().to_string() <= b.as_str().to_string()
            );
        }
    }
    assert_eq!(PokemonType::Electric.alphabetical_rank(), 0);
    assert_eq!(PokemonType::Fire.alphabetical_rank(), 1);
    assert_eq!(PokemonType::Grass.alphabetical_rank(), 2);
    assert_eq!(PokemonType::Normal.alphabetical_rank(), 3);
    assert_eq!(PokemonType::Water.alphabetical_rank(), 4);
}

#[test]
fn training_with_250_reaches_level_three() {
    let mut p = Pokemon::new("Pikachu", PokemonType::Electric, Gender::Male);
    assert_eq!(p.levels_gained(250), 2);
    p.gain_xp(250);
    assert_eq!(p.level(), 3);
    assert_eq!(p.experience(), 50);
}

#[test]
fn training_below_a_hundred_keeps_the_level() {
    let mut p = Pokemon::new("Eevee", PokemonType::Normal, Gender::Female);
    p.gain_xp(0);
    assert_eq!((p.level(), p.experience()), (1, 0));
    p.gain_xp(99);
    assert_eq!((p.level(), p.experience()), (1, 99));
    p.gain_xp(1);
    assert_eq!((p.level(), p.experience()), (2, 0));
}

#[test]
fn training_with_whole_hundreds_adds_that_many_levels() {
    for k in [0u32, 1, 2, 7, 40] {
        let mut p = Pokemon::new("Bulbasaur", PokemonType::Grass, Gender::Male);
        p.gain_xp(100 * k);
        assert_eq!(p.level(), 1 + k);
        assert_eq!(p.experience(), 0);
    }
    let mut q = trained("Squirtle", PokemonType::Water, Gender::Male, 30);
    q.gain_xp(200);
    assert_eq!((q.level(), q.experience()), (3, 30));
}

#[test]
fn training_keeps_experience_below_a_hundred() {
    let mut p = Pokemon::new("Charmander", PokemonType::Fire, Gender::Male);
    let mut last_level = p.level();
    for xp in [1u32, 99, 100, 101, 250, 999, 12345, 7] {
        p.gain_xp(xp);
        assert!(p.experience() < 100);
        assert!(p.level() >= last_level);
        last_level = p.level();
    }
    assert_eq!(p.level(), 1 + (1 + 99 + 100 + 101 + 250 + 999 + 12345 + 7) / 100);
    assert_eq!(p.experience(), (1 + 99 + 100 + 101 + 250 + 999 + 12345 + 7) % 100);
}

#[test]
fn training_in_two_steps_adds_up() {
    let mut a = Pokemon::new("A", PokemonType::Fire, Gender::Male);
    a.gain_xp(170);
    a.gain_xp(260);
    let b = trained("B", PokemonType::Fire, Gender::Male, 430);
    assert_eq!((a.level(), a.experience()), (b.level(), b.experience()));
    assert_eq!((a.level(), a.experience()), (5, 30));
}

#[test]
fn a_large_gain_fits() {
    let mut p = Pokemon::new("Snorlax", PokemonType::Normal, Gender::Male);
    assert!(p.can_gain_xp(u32::MAX));
    assert_eq!(p.levels_gained(u32::MAX), 42_949_672);
    p.gain_xp(1_000_050);
    assert_eq!((p.level(), p.experience()), (10_001, 50));
}

#[test]
fn eligible_pair_can_breed() {
    let a = trained("Pikachu", PokemonType::Electric, Gender::Male, 400);
    let b = trained("Raichu", PokemonType::Electric, Gender::Female, 400);
    assert_eq!(a.level(), 5);
    assert!(a.can_breed_with(&b));
    assert!(b.can_breed_with(&a));
}

#[test]
fn eligibility_needs_type_gender_and_level() {
    let male = trained("M", PokemonType::Electric, Gender::Male, 400);
    let female = trained("F", PokemonType::Electric, Gender::Female, 400);
    let other_type = trained("O", PokemonType::Fire, Gender::Female, 400);
    let same_gender = trained("S", PokemonType::Electric, Gender::Male, 400);
    let too_young = trained("Y", PokemonType::Electric, Gender::Female, 399);
    assert!(male.can_breed_with(&female));
    assert!(!male.can_breed_with(&other_type));
    assert!(!male.can_breed_with(&same_gender));
    assert!(!male.can_breed_with(&too_young));
    assert!(!too_young.can_breed_with(&male));
    assert!(!male.can_breed_with(&male));
    assert!(!female.can_breed_with(&female));
}

#[test]
fn eligibility_is_symmetric() {
    let mut all = Vec::new();
    for pokemon_type in [PokemonType::Fire, PokemonType::Electric] {
        for gender in [Gender::Male, Gender::Female] {
            for xp in [0u32, 399, 400, 900] {
                all.push(trained("x", pokemon_type, gender, xp));
            }
        }
    }
    for a in &all {
        for b in &all {
            assert_eq!(a.can_breed_with(b), b.can_breed_with(a));
        }
    }
}

#[test]
fn hatching_gives_a_mystery_at_level_one() {
    let parent = trained("Venusaur", PokemonType::Grass, Gender::Female, 730);
    let son = parent.hatch(true);
    assert_eq!(son.name(), "Mystery");
    assert_eq!(son.level(), 1);
    assert_eq!(son.experience(), 0);
    assert_eq!(son.pokemon_type(), PokemonType::Grass);
    assert_eq!(son.gender(), Gender::Male);
    let daughter = parent.hatch(false);
    assert_eq!(daughter.name(), "Mystery");
    assert_eq!(daughter.gender(), Gender::Female);
    assert_eq!(daughter.pokemon_type(), PokemonType::Grass);
}

#[test]
fn breeding_takes_the_type_of_the_first_parent() {
    let a = trained("Pikachu", PokemonType::Electric, Gender::Male, 400);
    let b = trained("Raichu", PokemonType::Electric, Gender::Female, 650);
    for _ in 0..20 {
        let baby = a.breed_with(&b).expect("an eligible pair breeds");
        assert_eq!(baby.name(), "Mystery");
        assert_eq!(baby.level(), 1);
        assert_eq!(baby.experience(), 0);
        assert_eq!(baby.pokemon_type(), PokemonType::Electric);
        assert!(baby.gender() == Gender::Male || baby.gender() == Gender::Female);
    }
}

#[test]
fn breeding_an_ineligible_pair_gives_nothing() {
    let a = trained("Pikachu", PokemonType::Electric, Gender::Male, 400);
    let b = trained("Charizard", PokemonType::Fire, Gender::Female, 400);
    let c = Pokemon::new("Pichu", PokemonType::Electric, Gender::Female);
    assert!(a.breed_with(&b).is_none());
    assert!(a.breed_with(&c).is_none());
    assert!(a.breed_with(&a).is_none());
}

#[test]
fn a_clone_is_the_same_creature() {
    let a = trained("Pikachu", PokemonType::Electric, Gender::Male, 455);
    let b = a.clone();
    assert_eq!(b.name(), "Pikachu");
    assert_eq!(b.level(), 5);
    assert_eq!(b.experience(), 55);
    assert_eq!(b.pokemon_type(), PokemonType::Electric);
    assert_eq!(b.gender(), Gender::Male);
}

#[test]
fn display_shows_six_lines() {
    let p = trained("Pikachu", PokemonType::Electric, Gender::Male, 250);
    assert_eq!(
        p.display(),
        vec![
            "Name: Pikachu",
            "Type: Electric",
            "Level: 3",
            "Experience: 50/100",
            "Gender: Male",
            "-----------------------",
        ]
    );
    let q = Pokemon::new("Venusaur", PokemonType::Grass, Gender::Female);
    assert_eq!(
        q.display(),
        vec![
            "Name: Venusaur",
            "Type: Grass",
            "Level: 1",
            "Experience: 0/100",
            "Gender: Female",
            "-----------------------",
        ]
    );
}
