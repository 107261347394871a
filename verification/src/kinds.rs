//! The two closed enumerations of a creature: its elemental type and its gender.

use vstd::prelude::*;
use crate::text::alphabetical_le;
use crate::text::lemma_alphabetical_le_reflexive;

verus! {

/// The elemental type of a creature.
#[derive(Debug, Clone, Copy, PartialEq, Eq, Structural)]
pub enum PokemonType {
    Fire,
    Water,
    Grass,
    Electric,
    Normal,
}

/// The gender of a creature.
#[derive(Debug, Clone, Copy, PartialEq, Eq, Structural)]
pub enum Gender {
    Male,
    Female,
}

impl PokemonType {
    /// The label of the type, as it is written out.
    pub open spec fn name(self) -> Seq<char> {
        match self {
            PokemonType::Fire => "Fire"@,
            PokemonType::Water => "Water"@,
            PokemonType::Grass => "Grass"@,
            PokemonType::Electric => "Electric"@,
            PokemonType::Normal => "Normal"@,
        }
    }

    /// The place of the type when the five labels are put in alphabetical order.
    pub open spec fn rank(self) -> int {
        match self {
            PokemonType::Electric => 0,
            PokemonType::Fire => 1,
            PokemonType::Grass => 2,
            PokemonType::Normal => 3,
            PokemonType::Water => 4,
        }
    }

    /// The label of the type.
    pub fn as_str(&self) -> (label: &'static str)
        ensures
            label@ == self.name(),
    {
        match self {
            PokemonType::Fire => "Fire",
            PokemonType::Water => "Water",
            PokemonType::Grass => "Grass",
            PokemonType::Electric => "Electric",
            PokemonType::Normal => "Normal",
        }
    }

    /// The alphabetical place of the type's label among the five labels.
    pub fn alphabetical_rank(&self) -> (r: u8)
        ensures
            r == self.rank(),
    {
        match self {
            PokemonType::Electric => 0,
            PokemonType::Fire => 1,
            PokemonType::Grass => 2,
            PokemonType::Normal => 3,
            PokemonType::Water => 4,
        }
    }

    /// Ranks order the types exactly as their labels are ordered alphabetically.
    pub proof fn lemma_rank_is_alphabetical(a: PokemonType, b: PokemonType)
        ensures
            a.rank() <= b.rank() <==> alphabetical_le(a.name(), b.name()),
            a.rank() == b.rank() <==> a == b,
    {
        reveal_strlit("Fire");
        reveal_strlit("Water");
        reveal_strlit("Grass");
        reveal_strlit("Electric");
        reveal_strlit("Normal");
        if a == b {
            lemma_alphabetical_le_reflexive(a.name());
        }
    }
}

impl Gender {
    /// The label of the gender, as it is written out.
    pub open spec fn name(self) -> Seq<char> {
        match self {
            Gender::Male => "Male"@,
            Gender::Female => "Female"@,
        }
    }

    /// The other gender.
    pub open spec fn opposite(self) -> Gender {
        match self {
            Gender::Male => Gender::Female,
            Gender::Female => Gender::Male,
        }
    }

    /// The gender that a coin decides: male when it is set, female otherwise.
    pub open spec fn of_coin(male: bool) -> Gender {
        if male {
            Gender::Male
        } else {
            Gender::Female
        }
    }

    /// The label of the gender.
    pub fn as_str(&self) -> (label: &'static str)
        ensures
            label@ == self.name(),
    {
        match self {
            Gender::Male => "Male",
            Gender::Female => "Female",
        }
    }
}

} // verus!
