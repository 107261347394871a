//! A single creature: who it is, how far it has progressed, and whom it can
//! breed with.

use vstd::prelude::*;
use vstd::string::*;
use crate::chance::random_bool;
use crate::kinds::Gender;
use crate::kinds::PokemonType;
use crate::text::decimal;
use crate::text::decimal_string;
use crate::text::push_line;
use crate::text::push_text;
use crate::text::texts;

verus! {

/// Experience needed to climb one level.
pub const XP_PER_LEVEL: u32 = 100;

/// Lowest level at which a creature can breed.
pub const BREEDING_LEVEL: u32 = 5;

/// A creature as a mathematical value.
pub struct PokemonModel {
    pub name: Seq<char>,
    pub level: nat,
    pub pokemon_type: PokemonType,
    pub experience: nat,
    pub gender: Gender,
}

impl PokemonModel {
    /// A creature has reached at least the first level and holds less
    /// experience than one level costs.
    pub open spec fn wf(self) -> bool {
        self.level >= 1 && self.experience < XP_PER_LEVEL
    }

    /// A creature as it is first created.
    pub open spec fn fresh(name: Seq<char>, pokemon_type: PokemonType, gender: Gender) -> Self {
        PokemonModel { name, level: 1, pokemon_type, experience: 0, gender }
    }

    /// How many levels the creature climbs when it gains `xp`.
    pub open spec fn levels_gained(self, xp: nat) -> nat {
        (self.experience + xp) / (XP_PER_LEVEL as nat)
    }

    /// Whether the level that gaining `xp` leads to still fits in `u32`.
    pub open spec fn can_gain_xp(self, xp: nat) -> bool {
        self.level + self.levels_gained(xp) <= u32::MAX
    }

    /// The creature after it has gained `xp`: every full hundred of
    /// experience has become a level.
    pub open spec fn gain_xp(self, xp: nat) -> Self {
        PokemonModel {
            level: self.level + self.levels_gained(xp),
            experience: (self.experience + xp) % (XP_PER_LEVEL as nat),
            ..self
        }
    }

    /// Two creatures can breed when they share a type, are of opposite
    /// genders and have both reached the breeding level.
    pub open spec fn can_breed_with(self, other: Self) -> bool {
        &&& self.pokemon_type == other.pokemon_type
        &&& self.gender == other.gender.opposite()
        &&& self.level >= BREEDING_LEVEL
        &&& other.level >= BREEDING_LEVEL
    }

    /// The newborn of this creature, once its gender is known.
    pub open spec fn offspring(self, gender: Gender) -> Self {
        Self::fresh("Mystery"@, self.pokemon_type, gender)
    }

    /// The lines that show the creature: name, type, level, experience out
    /// of a hundred, gender, and a closing rule.
    pub open spec fn display(self) -> Seq<Seq<char>> {
        seq![
            "Name: "@ + self.name,
            "Type: "@ + self.pokemon_type.name(),
            "Level: "@ + decimal(self.level),
            "Experience: "@ + decimal(self.experience) + "/100"@,
            "Gender: "@ + self.gender.name(),
            "-----------------------"@,
        ]
    }
}

/// Training never breaks a creature: it ends with less experience than a
/// level costs, and at a level no lower than before.
pub proof fn lemma_gain_xp_settles(m: PokemonModel, xp: nat)
    requires
        m.wf(),
    ensures
        m.gain_xp(xp).wf(),
        m.gain_xp(xp).experience < XP_PER_LEVEL,
        m.gain_xp(xp).level >= m.level,
{
}

/// Gaining `k` full hundreds of experience raises the level by exactly `k`
/// and leaves the experience as it was; a creature that held none holds
/// none afterwards.
pub proof fn lemma_gain_whole_levels(m: PokemonModel, k: nat)
    requires
        m.wf(),
    ensures
        m.gain_xp((XP_PER_LEVEL * k) as nat).level == m.level + k,
        m.gain_xp((XP_PER_LEVEL * k) as nat).experience == m.experience,
        m.experience == 0 ==> m.gain_xp((XP_PER_LEVEL * k) as nat).experience == 0,
{
    assert((m.experience + 100 * k) / 100 == k && (m.experience + 100 * k) % 100 == m.experience)
        by (nonlinear_arith)
        requires
            m.experience < 100,
    ;
}

/// Training in two steps is training once with the sum.
pub proof fn lemma_gain_xp_adds_up(m: PokemonModel, first: nat, second: nat)
    requires
        m.wf(),
    ensures
        m.gain_xp(first).gain_xp(second) == m.gain_xp(first + second),
{
    let e = m.experience;
    assert(((e + first) % 100 + second) / 100 + (e + first) / 100 == (e + first + second) / 100
        && ((e + first) % 100 + second) % 100 == (e + first + second) % 100) by (nonlinear_arith);
}

/// Eligibility does not depend on which of the two creatures asks.
pub proof fn lemma_can_breed_symmetric(a: PokemonModel, b: PokemonModel)
    ensures
        a.can_breed_with(b) == b.can_breed_with(a),
{
}

/// No creature can breed with itself: it is not of its own opposite gender.
pub proof fn lemma_cannot_breed_with_itself(a: PokemonModel)
    ensures
        !a.can_breed_with(a),
{
}

/// A newborn is named "Mystery", starts at level 1 without experience, and
/// has the type of the creature that bred it.
pub proof fn lemma_offspring(parent: PokemonModel, gender: Gender)
    ensures
        parent.offspring(gender).name == "Mystery"@,
        parent.offspring(gender).level == 1,
        parent.offspring(gender).experience == 0,
        parent.offspring(gender).pokemon_type == parent.pokemon_type,
        parent.offspring(gender).gender == gender,
        parent.offspring(gender).wf(),
{
}

/// A creature of the breeding center.
#[derive(Debug)]
pub struct Pokemon {
    name: String,
    level: u32,
    pokemon_type: PokemonType,
    experience: u32,
    gender: Gender,
}

impl View for Pokemon {
    type V = PokemonModel;

    closed spec fn view(&self) -> PokemonModel {
        PokemonModel {
            name: self.name@,
            level: self.level as nat,
            pokemon_type: self.pokemon_type,
            experience: self.experience as nat,
            gender: self.gender,
        }
    }
}

impl Clone for Pokemon {
    fn clone(&self) -> (copy: Self)
        ensures
            copy == *self,
    {
        proof {
            use_type_invariant(self);
        }
        Pokemon {
            name: self.name.clone(),
            level: self.level,
            pokemon_type: self.pokemon_type,
            experience: self.experience,
            gender: self.gender,
        }
    }
}

impl Pokemon {
    /// Every creature is well formed, wherever it is held.
    #[verifier::type_invariant]
    pub open spec fn well_formed(&self) -> bool {
        self@.wf()
    }

    /// Creates a creature at level 1 with no experience.
    pub fn new(name: &str, pokemon_type: PokemonType, gender: Gender) -> (created: Self)
        ensures
            created@ == PokemonModel::fresh(name@, pokemon_type, gender),
            created@.wf(),
    {
        Pokemon { name: name.to_owned(), level: 1, pokemon_type, experience: 0, gender }
    }

    /// The name of the creature.
    pub fn name(&self) -> (name: &str)
        ensures
            name@ == self@.name,
    {
        self.name.as_str()
    }

    /// The level of the creature.
    pub fn level(&self) -> (level: u32)
        ensures
            level == self@.level,
            self@.wf(),
    {
        proof {
            use_type_invariant(self);
        }
        self.level
    }

    /// The elemental type of the creature.
    pub fn pokemon_type(&self) -> (pokemon_type: PokemonType)
        ensures
            pokemon_type == self@.pokemon_type,
    {
        self.pokemon_type
    }

    /// The experience that the creature holds towards its next level.
    pub fn experience(&self) -> (experience: u32)
        ensures
            experience == self@.experience,
            self@.wf(),
    {
        proof {
            use_type_invariant(self);
        }
        self.experience
    }

    /// The gender of the creature.
    pub fn gender(&self) -> (gender: Gender)
        ensures
            gender == self@.gender,
    {
        self.gender
    }

    /// How many levels the creature would climb if it gained `xp`.
    pub fn levels_gained(&self, xp: u32) -> (levels: u32)
        ensures
            levels == self@.levels_gained(xp as nat),
    {
        proof {
            use_type_invariant(self);
        }
        let total: u64 = self.experience as u64 + xp as u64;
        (total / (XP_PER_LEVEL as u64)) as u32
    }

    /// Whether the creature can gain `xp` without its level leaving `u32`.
    pub fn can_gain_xp(&self, xp: u32) -> (fits: bool)
        ensures
            fits == self@.can_gain_xp(xp as nat),
    {
        self.levels_gained(xp) <= u32::MAX - self.level
    }

    /// Adds `xp` to the creature's experience; while that leaves a hundred
    /// or more, the creature climbs one level and gives a hundred back.
    pub fn gain_xp(&mut self, xp: u32)
        requires
            old(self)@.can_gain_xp(xp as nat),
        ensures
            final(self)@ == old(self)@.gain_xp(xp as nat),
            final(self)@.wf(),
            final(self)@.experience < XP_PER_LEVEL,
            final(self)@.level >= old(self)@.level,
    {
        proof {
            use_type_invariant(&*self);
        }
        let total: u64 = self.experience as u64 + xp as u64;
        let start: u32 = self.level;
        let mut pool: u64 = total;
        let mut gained: u32 = 0;
        while pool >= XP_PER_LEVEL as u64
            invariant
                pool + XP_PER_LEVEL * gained == total,
                start + total / (XP_PER_LEVEL as u64) <= u32::MAX,
            decreases pool,
        {
            assert(gained < total / 100) by {
                assert(100 * (gained + 1) <= total);
            }
            pool -= XP_PER_LEVEL as u64;
            gained += 1;
        }
        self.level = start + gained;
        self.experience = pool as u32;
    }

    /// The lines that show the creature.
    pub fn display(&self) -> (lines: Vec<String>)
        ensures
            texts(lines@) == self@.display(),
    {
        let mut lines: Vec<String> = Vec::new();
        let mut name = String::from_str("Name: ");
        name.append(self.name.as_str());
        push_line(&mut lines, name);
        let mut pokemon_type = String::from_str("Type: ");
        pokemon_type.append(self.pokemon_type.as_str());
        push_line(&mut lines, pokemon_type);
        let mut level = String::from_str("Level: ");
        level.append(decimal_string(self.level as u64).as_str());
        push_line(&mut lines, level);
        let mut experience = String::from_str("Experience: ");
        experience.append(decimal_string(self.experience as u64).as_str());
        experience.append("/100");
        push_line(&mut lines, experience);
        let mut gender = String::from_str("Gender: ");
        gender.append(self.gender.as_str());
        push_line(&mut lines, gender);
        push_text(&mut lines, "-----------------------");
        assert(texts(lines@) =~= self@.display());
        lines
    }

    /// Whether the two creatures can breed: same type, opposite genders,
    /// both at the breeding level or above.
    pub fn can_breed_with(&self, other: &Pokemon) -> (eligible: bool)
        ensures
            eligible == self@.can_breed_with(other@),
    {
        self.pokemon_type == other.pokemon_type
            && ((self.gender == Gender::Male && other.gender == Gender::Female)
            || (self.gender == Gender::Female && other.gender == Gender::Male))
            && self.level >= BREEDING_LEVEL
            && other.level >= BREEDING_LEVEL
    }

    /// The newborn of this creature: named "Mystery", of this creature's
    /// type, at level 1 with no experience, male when `male` is set and
    /// female otherwise.
    pub fn hatch(&self, male: bool) -> (baby: Pokemon)
        ensures
            baby@ == self@.offspring(Gender::of_coin(male)),
    {
        Pokemon {
            name: "Mystery".to_owned(),
            level: 1,
            pokemon_type: self.pokemon_type,
            experience: 0,
            gender: if male { Gender::Male } else { Gender::Female },
        }
    }

    /// Breeds the two creatures if they are eligible. The newborn takes its
    /// type from this creature and its gender from a fair coin.
    pub fn breed_with(&self, other: &Pokemon) -> (baby: Option<Pokemon>)
        ensures
            baby is Some <==> self@.can_breed_with(other@),
            baby matches Some(b) ==> b@ == self@.offspring(b@.gender),
    {
        if self.can_breed_with(other) {
            let male = random_bool();
            Some(self.hatch(male))
        } else {
            None
        }
    }
}

} // verus!
