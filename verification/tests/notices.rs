use breeding_center::breeding::Breeding;
use breeding_center::kinds::Gender;
use breeding_center::kinds::PokemonType;
use breeding_center::pokemon::Pokemon;
use breeding_center::report::added_notice;
use breeding_center::report::breeding_notices;
use breeding_center::report::level_up_notices;
use breeding_center::report::training_notices;

fn trained(name: &str, pokemon_type: PokemonType, gender: Gender, xp: u32) -> Pokemon {
    let mut p = Pokemon::new(name, pokemon_type, gender);
    p.gain_xp(xp);
    p
}

#[test]
fn notice_of_an_arrival() {
    assert_eq!(added_notice("Pikachu"), "Pikachu was added to the breeding center!");
    assert_eq!(added_notice("Mystery"), "Mystery was added to the breeding center!");
}

#[test]
fn training_with_250_gives_two_level_up_notices() {
    let mut p = Pokemon::new("Pikachu", PokemonType::Electric, Gender::Male);
    let notices = level_up_notices(&p, 250);
    assert_eq!(notices.len(), 2);
    assert_eq!(
        notices,
        vec!["Pikachu leveled up to level 2!", "Pikachu leveled up to level 3!"]
    );
    p.gain_xp(250);
    assert_eq!(p.level(), 3);
    assert_eq!(p.experience(), 50);
}

#[test]
fn no_notice_without_a_new_level() {
    let p = trained("Eevee", PokemonType::Normal, Gender::Female, 150);
    assert!(level_up_notices(&p, 49).is_empty());
    assert_eq!(level_up_notices(&p, 50), vec!["Eevee leveled up to level 3!"]);
    assert!(level_up_notices(&p, 0).is_empty());
}

#[test]
fn level_up_notices_count_past_nine() {
    let p = trained("Eevee", PokemonType::Normal, Gender::Female, 700);
    let notices = level_up_notices(&p, 400);
    assert_eq!(
        notices,
        vec![
            "Eevee leveled up to level 9!",
            "Eevee leveled up to level 10!",
            "Eevee leveled up to level 11!",
            "Eevee leveled up to level 12!",
        ]
    );
}

#[test]
fn report_on_training() {
    let mut center = Breeding::new();
    center.add_pokemon(Pokemon::new("Pikachu", PokemonType::Electric, Gender::Male));
    center.add_pokemon(trained("Raichu", PokemonType::Electric, Gender::Female, 90));
    assert_eq!(
        training_notices(&center, 110),
        vec![
            "",
            "=== TRAINING ALL POKÉMON ===",
            "Pikachu gains 110 XP!",
            "Pikachu leveled up to level 2!",
            "Raichu gains 110 XP!",
            "Raichu leveled up to level 2!",
            "Raichu leveled up to level 3!",
        ]
    );
    assert_eq!(
        training_notices(&center, 5),
        vec!["", "=== TRAINING ALL POKÉMON ===", "Pikachu gains 5 XP!", "Raichu gains 5 XP!"]
    );
    assert_eq!(
        training_notices(&Breeding::new(), 5),
        vec!["", "=== TRAINING ALL POKÉMON ==="]
    );
}

#[test]
fn report_on_breeding() {
    let mut center = Breeding::new();
    center.add_pokemon(trained("Pikachu", PokemonType::Electric, Gender::Male, 400));
    center.add_pokemon(trained("Raichu", PokemonType::Electric, Gender::Female, 400));
    center.add_pokemon(trained("Charizard", PokemonType::Fire, Gender::Male, 400));
    assert_eq!(
        breeding_notices(&center, 0, 1),
        vec![
            "",
            "=== BREEDING ATTEMPT ===",
            "Between Pikachu and Raichu",
            "An egg hatched! A new Electric Pokémon was born!",
            "Mystery was added to the breeding center!",
        ]
    );
    assert_eq!(
        breeding_notices(&center, 2, 1),
        vec![
            "",
            "=== BREEDING ATTEMPT ===",
            "Between Charizard and Raichu",
            "These Pokémon cannot breed together.",
        ]
    );
    assert_eq!(
        breeding_notices(&center, 1, 1),
        vec![
            "",
            "=== BREEDING ATTEMPT ===",
            "Between Raichu and Raichu",
            "These Pokémon cannot breed together.",
        ]
    );
    assert_eq!(breeding_notices(&center, 0, 3), vec!["Invalid Pokémon index!"]);
    assert_eq!(breeding_notices(&center, 3, 0), vec!["Invalid Pokémon index!"]);
    assert_eq!(breeding_notices(&Breeding::new(), 0, 0), vec!["Invalid Pokémon index!"]);
}
