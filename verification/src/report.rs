//! What the breeding center tells its user: the notices that go with
//! adding, training and breeding, line by line. Each is worked out from the
//! center as it stands before the operation.

use vstd::prelude::*;
use vstd::string::*;
use crate::breeding::can_breed_at;
use crate::breeding::Breeding;
use crate::pokemon::Pokemon;
use crate::pokemon::PokemonModel;
use crate::text::decimal;
use crate::text::decimal_string;
use crate::text::push_line;
use crate::text::push_lines;
use crate::text::push_text;
use crate::text::texts;

verus! {

/// The notice that a creature called `name` has joined the center.
pub open spec fn added_line(name: Seq<char>) -> Seq<char> {
    name + " was added to the breeding center!"@
}

/// The notice that a creature called `name` has reached `level`.
pub open spec fn level_up_line(name: Seq<char>, level: nat) -> Seq<char> {
    name + " leveled up to level "@ + decimal(level) + "!"@
}

/// One notice for each of the `count` levels that follow `from`, in
/// rising order.
pub open spec fn level_up_lines(name: Seq<char>, from: nat, count: nat) -> Seq<Seq<char>>
    decreases count,
{
    if count == 0 {
        Seq::empty()
    } else {
        level_up_lines(name, from, (count - 1) as nat).push(level_up_line(name, from + count))
    }
}

/// The notices that go with training the creature `m` with `xp`: one for
/// every level it climbs.
pub open spec fn level_ups(m: PokemonModel, xp: nat) -> Seq<Seq<char>> {
    level_up_lines(m.name, m.level, m.levels_gained(xp))
}

/// The notice that a creature called `name` gains `xp`.
pub open spec fn gains_line(name: Seq<char>, xp: nat) -> Seq<char> {
    name + " gains "@ + decimal(xp) + " XP!"@
}

/// The notices that go with training the first `n` creatures of `s`: for
/// each in turn what it gains, then the levels it climbs.
pub open spec fn training_lines(s: Seq<PokemonModel>, xp: nat, n: nat) -> Seq<Seq<char>>
    decreases n,
{
    if n == 0 {
        Seq::empty()
    } else {
        training_lines(s, xp, (n - 1) as nat).push(gains_line(s[n - 1].name, xp)) + level_ups(
            s[n - 1],
            xp,
        )
    }
}

/// The report on training every creature of `s` with `xp`.
pub open spec fn training_report(s: Seq<PokemonModel>, xp: nat) -> Seq<Seq<char>> {
    seq![""@, "=== TRAINING ALL POKÉMON ==="@] + training_lines(s, xp, s.len())
}

/// The report on an attempt to breed the creatures at the two places of
/// `s`: a complaint where a place does not exist; otherwise a heading, the
/// two names, and either the birth and the newborn's arrival or the refusal.
pub open spec fn breeding_report(s: Seq<PokemonModel>, index1: int, index2: int) -> Seq<Seq<char>> {
    if !(0 <= index1 < s.len() && 0 <= index2 < s.len()) {
        seq!["Invalid Pokémon index!"@]
    } else {
        seq![""@, "=== BREEDING ATTEMPT ==="@, "Between "@ + s[index1].name + " and "@ + s[index2].name]
            + (if can_breed_at(s, index1, index2) {
            seq![
                "An egg hatched! A new "@ + s[index1].pokemon_type.name() + " Pokémon was born!"@,
                added_line("Mystery"@),
            ]
        } else {
            seq!["These Pokémon cannot breed together."@]
        })
    }
}

/// The notice that a creature called `name` has joined the center.
pub fn added_notice(name: &str) -> (line: String)
    ensures
        line@ == added_line(name@),
{
    let mut line = String::from_str(name);
    line.append(" was added to the breeding center!");
    line
}

/// The notices that go with training `pokemon` with `xp`: one for every
/// level it climbs.
pub fn level_up_notices(pokemon: &Pokemon, xp: u32) -> (lines: Vec<String>)
    ensures
        texts(lines@) == level_ups(pokemon@, xp as nat),
        lines@.len() == pokemon@.levels_gained(xp as nat),
{
    let gained: u32 = pokemon.levels_gained(xp);
    let from: u32 = pokemon.level();
    let mut lines: Vec<String> = Vec::new();
    let mut count: u32 = 0;
    assert(texts(lines@) == level_up_lines(pokemon@.name, from as nat, 0));
    while count < gained
        invariant
            count <= gained,
            lines@.len() == count,
            texts(lines@) == level_up_lines(pokemon@.name, from as nat, count as nat),
        decreases gained - count,
    {
        count += 1;
        let mut line = String::from_str(pokemon.name());
        line.append(" leveled up to level ");
        line.append(decimal_string(from as u64 + count as u64).as_str());
        line.append("!");
        push_line(&mut lines, line);
    }
    lines
}

/// The report on training every creature of `center` with `xp`.
pub fn training_notices(center: &Breeding, xp: u32) -> (lines: Vec<String>)
    ensures
        texts(lines@) == training_report(center@, xp as nat),
{
    let mut lines: Vec<String> = Vec::new();
    push_text(&mut lines, "");
    push_text(&mut lines, "=== TRAINING ALL POKÉMON ===");
    let ghost head = texts(lines@);
    assert(head == seq![""@, "=== TRAINING ALL POKÉMON ==="@]);
    let mut index: usize = 0;
    assert(texts(lines@) == head + training_lines(center@, xp as nat, 0));
    while index < center.len()
        invariant
            index <= center@.len(),
            texts(lines@) == head + training_lines(center@, xp as nat, index as nat),
        decreases center@.len() - index,
    {
        let ghost told = training_lines(center@, xp as nat, index as nat);
        match center.get(index) {
            Some(pokemon) => {
                let mut line = String::from_str(pokemon.name());
                line.append(" gains ");
                line.append(decimal_string(xp as u64).as_str());
                line.append(" XP!");
                push_line(&mut lines, line);
                push_lines(&mut lines, level_up_notices(pokemon, xp));
                assert(texts(lines@) == head + (told.push(gains_line(pokemon@.name, xp as nat))
                    + level_ups(pokemon@, xp as nat)));
            },
            None => {},
        }
        index += 1;
    }
    lines
}

/// The report on an attempt to breed the creatures at the two places of
/// `center`.
pub fn breeding_notices(center: &Breeding, index1: usize, index2: usize) -> (lines: Vec<String>)
    ensures
        texts(lines@) == breeding_report(center@, index1 as int, index2 as int),
{
    let mut lines: Vec<String> = Vec::new();
    match (center.get(index1), center.get(index2)) {
        (Some(pokemon1), Some(pokemon2)) => {
            push_text(&mut lines, "");
            push_text(&mut lines, "=== BREEDING ATTEMPT ===");
            let mut pair = String::from_str("Between ");
            pair.append(pokemon1.name());
            pair.append(" and ");
            pair.append(pokemon2.name());
            push_line(&mut lines, pair);
            if pokemon1.can_breed_with(pokemon2) {
                let mut birth = String::from_str("An egg hatched! A new ");
                birth.append(pokemon1.pokemon_type().as_str());
                birth.append(" Pokémon was born!");
                push_line(&mut lines, birth);
                push_line(&mut lines, added_notice("Mystery"));
            } else {
                push_text(&mut lines, "These Pokémon cannot breed together.");
            }
        },
        _ => {
            push_text(&mut lines, "Invalid Pokémon index!");
        },
    }
    assert(texts(lines@) =~= breeding_report(center@, index1 as int, index2 as int));
    lines
}

} // verus!
