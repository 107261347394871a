//! The registry of the breeding center: an ordered list of creatures.

use vstd::prelude::*;
use vstd::string::*;
use crate::kinds::PokemonType;
use crate::pokemon::Pokemon;
use crate::pokemon::PokemonModel;
use crate::sorting::has_key;
use crate::sorting::insertion_point;
use crate::sorting::lemma_stable_sort_elements;
use crate::sorting::lemma_stable_sort_idempotent;
use crate::sorting::lemma_stable_sort_sorted;
use crate::sorting::lemma_stable_sort_ties;
use crate::sorting::lemma_stable_sort_unique;
use crate::sorting::sorted_by_key;
use crate::sorting::stable_insert;
use crate::sorting::stable_sort;
use crate::text::alphabetical_le;
use crate::text::decimal;
use crate::text::decimal_string;
use crate::text::push_line;
use crate::text::push_lines;
use crate::text::push_text;
use crate::text::texts;

verus! {

/// The breeding center: the creatures it holds, in the order they arrived.
pub struct Breeding {
    pokemon: Vec<Pokemon>,
}

impl View for Breeding {
    type V = Seq<PokemonModel>;

    closed spec fn view(&self) -> Seq<PokemonModel> {
        self.pokemon@.map_values(|p: Pokemon| p@)
    }
}

/// Every creature of `s` after it has gained `xp`.
pub open spec fn all_trained(s: Seq<PokemonModel>, xp: nat) -> Seq<PokemonModel> {
    s.map_values(|m: PokemonModel| m.gain_xp(xp))
}

/// Whether every creature of `s` can gain `xp` without its level leaving `u32`.
pub open spec fn all_can_gain(s: Seq<PokemonModel>, xp: nat) -> bool {
    forall|i: int| 0 <= i < s.len() ==> (#[trigger] s[i]).can_gain_xp(xp)
}

/// The key that puts higher levels first.
pub open spec fn level_key() -> spec_fn(PokemonModel) -> int {
    |m: PokemonModel| -(m.level as int)
}

/// The key that puts types in the alphabetical order of their labels.
pub open spec fn type_key() -> spec_fn(PokemonModel) -> int {
    |m: PokemonModel| m.pokemon_type.rank()
}

/// The test "is at level `level`".
pub open spec fn at_level(level: nat) -> spec_fn(PokemonModel) -> bool {
    |m: PokemonModel| m.level == level
}

/// The test "is of type `pokemon_type`".
pub open spec fn of_type(pokemon_type: PokemonType) -> spec_fn(PokemonModel) -> bool {
    |m: PokemonModel| m.pokemon_type == pokemon_type
}

/// `s` with higher levels first, creatures of one level in the order they had.
pub open spec fn sorted_by_level(s: Seq<PokemonModel>) -> Seq<PokemonModel> {
    stable_sort(s, level_key())
}

/// `s` in the alphabetical order of the type labels, creatures of one type
/// in the order they had.
pub open spec fn sorted_by_type(s: Seq<PokemonModel>) -> Seq<PokemonModel> {
    stable_sort(s, type_key())
}

/// The lines that show the first `n` creatures of `s`, each under its
/// number, counted from 1.
pub open spec fn entries(s: Seq<PokemonModel>, n: nat) -> Seq<Seq<char>>
    decreases n,
{
    if n == 0 {
        Seq::empty()
    } else {
        entries(s, (n - 1) as nat).push("Pokémon #"@ + decimal(n)) + s[n - 1].display()
    }
}

/// The lines that list the center: a blank line, a heading with the number
/// of creatures, then every creature under its number, or a notice that
/// the center is empty.
pub open spec fn listing(s: Seq<PokemonModel>) -> Seq<Seq<char>> {
    seq![""@, "=== LIST OF POKÉMON IN THE BREEDING CENTER ("@ + decimal(s.len()) + ") ==="@] + (
    if s.len() == 0 {
        seq!["The breeding center is empty!"@]
    } else {
        entries(s, s.len())
    })
}

/// Whether the creatures at the two places of `s` exist and can breed.
pub open spec fn can_breed_at(s: Seq<PokemonModel>, index1: int, index2: int) -> bool {
    &&& 0 <= index1 < s.len()
    &&& 0 <= index2 < s.len()
    &&& s[index1].can_breed_with(s[index2])
}

/// Whether every creature of `s` is well formed.
pub open spec fn all_wf(s: Seq<PokemonModel>) -> bool {
    forall|i: int| 0 <= i < s.len() ==> (#[trigger] s[i]).wf()
}

/// Training keeps every creature in its place, lowers no level, and leaves
/// each creature with less experience than a level costs.
pub proof fn lemma_all_trained(s: Seq<PokemonModel>, xp: nat)
    requires
        all_wf(s),
    ensures
        all_trained(s, xp).len() == s.len(),
        all_wf(all_trained(s, xp)),
        forall|i: int|
            0 <= i < s.len() ==> {
                &&& (#[trigger] all_trained(s, xp)[i]).level >= s[i].level
                &&& all_trained(s, xp)[i].experience < 100
                &&& all_trained(s, xp)[i].name == s[i].name
                &&& all_trained(s, xp)[i].pokemon_type == s[i].pokemon_type
                &&& all_trained(s, xp)[i].gender == s[i].gender
            },
{
    assert forall|i: int| 0 <= i < s.len() implies (#[trigger] all_trained(s, xp)[i]).wf() by {
        assert(s[i].wf());
    }
}

/// Sorting keeps well-formed creatures well formed: it only moves them.
pub proof fn lemma_sorting_keeps_wf(s: Seq<PokemonModel>)
    requires
        all_wf(s),
    ensures
        all_wf(sorted_by_level(s)),
        all_wf(sorted_by_type(s)),
{
    lemma_stable_sort_elements(s, level_key());
    lemma_stable_sort_elements(s, type_key());
    lemma_same_elements_keep_wf(sorted_by_level(s), s);
    lemma_same_elements_keep_wf(sorted_by_type(s), s);
}

/// A list that holds the creatures of a well-formed list holds well-formed
/// creatures.
proof fn lemma_same_elements_keep_wf(r: Seq<PokemonModel>, s: Seq<PokemonModel>)
    requires
        all_wf(s),
        r.to_multiset() == s.to_multiset(),
    ensures
        all_wf(r),
{
    assert forall|i: int| 0 <= i < r.len() implies (#[trigger] r[i]).wf() by {
        assert(r.contains(r[i]));
        vstd::seq_lib::to_multiset_contains(r, r[i]);
        vstd::seq_lib::to_multiset_contains(s, r[i]);
        let j = choose|j: int| 0 <= j < s.len() && s[j] == r[i];
        assert(s[j].wf());
    }
}

/// Sorting by level puts the levels in non-increasing order, keeps every
/// creature, and keeps creatures of one level in the order they had.
pub proof fn lemma_sorted_by_level(s: Seq<PokemonModel>)
    ensures
        sorted_by_level(s).len() == s.len(),
        forall|i: int, j: int|
            0 <= i <= j < sorted_by_level(s).len() ==> sorted_by_level(s)[i].level
                >= sorted_by_level(s)[j].level,
        sorted_by_level(s).to_multiset() == s.to_multiset(),
        forall|level: nat| #[trigger]
            sorted_by_level(s).filter(at_level(level)) == s.filter(at_level(level)),
{
    let r = sorted_by_level(s);
    lemma_stable_sort_sorted(s, level_key());
    lemma_stable_sort_elements(s, level_key());
    lemma_stable_sort_ties(s, level_key());
    assert forall|i: int, j: int| 0 <= i <= j < r.len() implies r[i].level >= r[j].level by {
        assert((level_key())(r[i]) <= (level_key())(r[j]));
    }
    assert forall|level: nat| #[trigger] r.filter(at_level(level)) == s.filter(at_level(level)) by {
        let k = -(level as int);
        assert(at_level(level) == has_key(level_key(), k)) by {
            assert forall|m: PokemonModel| #[trigger]
                (at_level(level))(m) == (has_key(level_key(), k))(m) by {}
            assert(at_level(level) =~= has_key(level_key(), k));
        }
        assert(r.filter(has_key(level_key(), k)) == s.filter(has_key(level_key(), k)));
    }
}

/// Sorting by type puts the type labels in alphabetical order, keeps every
/// creature, and keeps creatures of one type in the order they had.
pub proof fn lemma_sorted_by_type(s: Seq<PokemonModel>)
    ensures
        sorted_by_type(s).len() == s.len(),
        forall|i: int, j: int|
            0 <= i <= j < sorted_by_type(s).len() ==> alphabetical_le(
                sorted_by_type(s)[i].pokemon_type.name(),
                sorted_by_type(s)[j].pokemon_type.name(),
            ),
        sorted_by_type(s).to_multiset() == s.to_multiset(),
        forall|pokemon_type: PokemonType| #[trigger]
            sorted_by_type(s).filter(of_type(pokemon_type)) == s.filter(of_type(pokemon_type)),
{
    let r = sorted_by_type(s);
    lemma_stable_sort_sorted(s, type_key());
    lemma_stable_sort_elements(s, type_key());
    lemma_stable_sort_ties(s, type_key());
    assert forall|i: int, j: int| 0 <= i <= j < r.len() implies alphabetical_le(
        r[i].pokemon_type.name(),
        r[j].pokemon_type.name(),
    ) by {
        assert((type_key())(r[i]) <= (type_key())(r[j]));
        PokemonType::lemma_rank_is_alphabetical(r[i].pokemon_type, r[j].pokemon_type);
    }
    assert forall|pokemon_type: PokemonType| #[trigger]
        r.filter(of_type(pokemon_type)) == s.filter(of_type(pokemon_type)) by {
        let k = pokemon_type.rank();
        assert(of_type(pokemon_type) == has_key(type_key(), k)) by {
            assert forall|m: PokemonModel| #[trigger]
                (of_type(pokemon_type))(m) == (has_key(type_key(), k))(m) by {
                PokemonType::lemma_rank_is_alphabetical(m.pokemon_type, pokemon_type);
            }
            assert(of_type(pokemon_type) =~= has_key(type_key(), k));
        }
        assert(r.filter(has_key(type_key(), k)) == s.filter(has_key(type_key(), k)));
    }
}

/// A list with the levels in non-increasing order that keeps the creatures
/// of each level in the order they had in `s` is `s` sorted by level, and
/// nothing else.
pub proof fn lemma_sorted_by_level_unique(r: Seq<PokemonModel>, s: Seq<PokemonModel>)
    requires
        forall|i: int, j: int| 0 <= i <= j < r.len() ==> r[i].level >= r[j].level,
        forall|level: nat| #[trigger] r.filter(at_level(level)) == s.filter(at_level(level)),
    ensures
        r == sorted_by_level(s),
{
    assert(sorted_by_key(r, level_key()));
    assert forall|k: int| #[trigger]
        r.filter(has_key(level_key(), k)) == s.filter(has_key(level_key(), k)) by {
        let pred = has_key(level_key(), k);
        if k <= 0 {
            let level = (-k) as nat;
            assert(at_level(level) =~= pred);
            assert(r.filter(at_level(level)) == s.filter(at_level(level)));
        } else {
            assert(r.all(|m: PokemonModel| !pred(m)));
            assert(s.all(|m: PokemonModel| !pred(m)));
            r.lemma_all_neg_filter_empty(pred);
            s.lemma_all_neg_filter_empty(pred);
            assert(r.filter(pred) =~= s.filter(pred));
        }
    }
    lemma_stable_sort_unique(r, s, level_key());
}

/// A list with the type labels in alphabetical order that keeps the
/// creatures of each type in the order they had in `s` is `s` sorted by
/// type, and nothing else.
pub proof fn lemma_sorted_by_type_unique(r: Seq<PokemonModel>, s: Seq<PokemonModel>)
    requires
        forall|i: int, j: int|
            0 <= i <= j < r.len() ==> alphabetical_le(
                r[i].pokemon_type.name(),
                r[j].pokemon_type.name(),
            ),
        forall|pokemon_type: PokemonType| #[trigger]
            r.filter(of_type(pokemon_type)) == s.filter(of_type(pokemon_type)),
    ensures
        r == sorted_by_type(s),
{
    assert forall|i: int, j: int| 0 <= i <= j < r.len() implies (type_key())(r[i]) <= (type_key())(
        r[j],
    ) by {
        PokemonType::lemma_rank_is_alphabetical(r[i].pokemon_type, r[j].pokemon_type);
    }
    assert forall|k: int| #[trigger]
        r.filter(has_key(type_key(), k)) == s.filter(has_key(type_key(), k)) by {
        let pred = has_key(type_key(), k);
        if 0 <= k <= 4 {
            let pokemon_type = if k == 0 {
                PokemonType::Electric
            } else if k == 1 {
                PokemonType::Fire
            } else if k == 2 {
                PokemonType::Grass
            } else if k == 3 {
                PokemonType::Normal
            } else {
                PokemonType::Water
            };
            assert forall|m: PokemonModel| #[trigger] (of_type(pokemon_type))(m) == pred(m) by {
                PokemonType::lemma_rank_is_alphabetical(m.pokemon_type, pokemon_type);
            }
            assert(of_type(pokemon_type) =~= pred);
            assert(r.filter(of_type(pokemon_type)) == s.filter(of_type(pokemon_type)));
        } else {
            assert(r.all(|m: PokemonModel| !pred(m)));
            assert(s.all(|m: PokemonModel| !pred(m)));
            r.lemma_all_neg_filter_empty(pred);
            s.lemma_all_neg_filter_empty(pred);
            assert(r.filter(pred) =~= s.filter(pred));
        }
    }
    lemma_stable_sort_unique(r, s, type_key());
}

/// Sorting by level a list that was sorted by level changes nothing.
pub proof fn lemma_sorted_by_level_idempotent(s: Seq<PokemonModel>)
    ensures
        sorted_by_level(sorted_by_level(s)) == sorted_by_level(s),
{
    lemma_stable_sort_idempotent(s, level_key());
}

/// Sorting by type a list that was sorted by type changes nothing.
pub proof fn lemma_sorted_by_type_idempotent(s: Seq<PokemonModel>)
    ensures
        sorted_by_type(sorted_by_type(s)) == sorted_by_type(s),
{
    lemma_stable_sort_idempotent(s, type_key());
}

/// What the center sorts by.
#[derive(Clone, Copy)]
enum SortKey {
    Level,
    Type,
}

impl SortKey {
    spec fn key(self) -> spec_fn(PokemonModel) -> int {
        match self {
            SortKey::Level => level_key(),
            SortKey::Type => type_key(),
        }
    }

    /// Whether `a` may stand before `b`: its key is not the greater one.
    fn in_order(self, a: &Pokemon, b: &Pokemon) -> (r: bool)
        ensures
            r == ((self.key())(a@) <= (self.key())(b@)),
    {
        match self {
            SortKey::Level => a.level() >= b.level(),
            SortKey::Type => a.pokemon_type().alphabetical_rank()
                <= b.pokemon_type().alphabetical_rank(),
        }
    }
}

impl Breeding {
    /// An empty breeding center.
    pub fn new() -> (center: Self)
        ensures
            center@ == Seq::<PokemonModel>::empty(),
    {
        Breeding { pokemon: Vec::new() }
    }

    /// The number of creatures in the center.
    pub fn len(&self) -> (n: usize)
        ensures
            n == self@.len(),
    {
        self.pokemon.len()
    }

    /// Adds a creature at the end of the list.
    pub fn add_pokemon(&mut self, pokemon: Pokemon)
        ensures
            final(self)@ == old(self)@.push(pokemon@),
    {
        self.pokemon.push(pokemon);
    }

    /// Whether every creature can gain `xp` without its level leaving `u32`.
    pub fn can_train_all(&self, xp: u32) -> (fits: bool)
        ensures
            fits == all_can_gain(self@, xp as nat),
    {
        let mut i: usize = 0;
        while i < self.pokemon.len()
            invariant
                i <= self.pokemon@.len(),
                self@.len() == self.pokemon@.len(),
                all_can_gain(self@.take(i as int), xp as nat),
            decreases self.pokemon@.len() - i,
        {
            if !self.pokemon[i].can_gain_xp(xp) {
                assert(!self@[i as int].can_gain_xp(xp as nat));
                return false;
            }
            assert forall|k: int| 0 <= k < i + 1 implies (#[trigger] self@.take(i + 1)[k]).can_gain_xp(
                xp as nat,
            ) by {
                if k < i {
                    assert(self@.take(i as int)[k] == self@[k]);
                }
            }
            i += 1;
        }
        assert(self@.take(i as int) == self@);
        true
    }

    /// Trains every creature with `xp`, in the order of the list.
    pub fn train_all(&mut self, xp: u32)
        requires
            all_can_gain(old(self)@, xp as nat),
        ensures
            final(self)@ == all_trained(old(self)@, xp as nat),
    {
        let mut i: usize = 0;
        while i < self.pokemon.len()
            invariant
                i <= self.pokemon.len(),
                self@.len() == old(self)@.len(),
                forall|k: int| 0 <= k < i ==> self@[k] == old(self)@[k].gain_xp(xp as nat),
                forall|k: int| i <= k < self@.len() ==> self@[k] == old(self)@[k],
                all_can_gain(old(self)@, xp as nat),
            decreases self.pokemon.len() - i,
        {
            let ghost before = self@;
            self.pokemon[i].gain_xp(xp);
            assert(self@ == before.update(i as int, before[i as int].gain_xp(xp as nat)));
            i += 1;
        }
    }

    /// Whether the center holds no creature.
    pub fn is_empty(&self) -> (empty: bool)
        ensures
            empty <==> self@.len() == 0,
    {
        self.pokemon.len() == 0
    }

    /// The creature at place `index` of the list, counted from 0.
    pub fn get(&self, index: usize) -> (found: Option<&Pokemon>)
        ensures
            found is Some <==> index < self@.len(),
            found matches Some(p) ==> p@ == self@[index as int] && p@.wf(),
    {
        if index < self.pokemon.len() {
            let pokemon = &self.pokemon[index];
            proof {
                use_type_invariant(pokemon);
            }
            Some(pokemon)
        } else {
            None
        }
    }

    /// The lines that list the center, in the order of the list.
    pub fn display_all(&self) -> (lines: Vec<String>)
        ensures
            texts(lines@) == listing(self@),
    {
        let mut lines: Vec<String> = Vec::new();
        push_text(&mut lines, "");
        let mut heading = String::from_str("=== LIST OF POKÉMON IN THE BREEDING CENTER (");
        heading.append(decimal_string(self.pokemon.len() as u64).as_str());
        heading.append(") ===");
        push_line(&mut lines, heading);
        let ghost head = texts(lines@);
        assert(head == seq![
            ""@,
            "=== LIST OF POKÉMON IN THE BREEDING CENTER ("@ + decimal(self@.len()) + ") ==="@,
        ]);
        if self.pokemon.len() == 0 {
            push_text(&mut lines, "The breeding center is empty!");
            assert(texts(lines@) == head + seq!["The breeding center is empty!"@]);
        } else {
            let mut index: usize = 0;
            assert(texts(lines@) == head + entries(self@, 0));
            while index < self.pokemon.len()
                invariant
                    index <= self@.len(),
                    self@.len() == self.pokemon@.len(),
                    texts(lines@) == head + entries(self@, index as nat),
                decreases self@.len() - index,
            {
                let ghost shown = entries(self@, index as nat);
                let mut title = String::from_str("Pokémon #");
                title.append(decimal_string(index as u64 + 1).as_str());
                push_line(&mut lines, title);
                push_lines(&mut lines, self.pokemon[index].display());
                assert(texts(lines@) == head + (shown.push("Pokémon #"@ + decimal((index + 1) as nat))
                    + self@[index as int].display()));
                index += 1;
            }
        }
        lines
    }

    /// Tries to breed the creatures at the two places of the list. Where
    /// both places exist and the creatures are eligible, their newborn joins
    /// the end of the list; otherwise the list stays as it is. A creature
    /// paired with itself is judged like any other pair.
    pub fn attempt_breeding(&mut self, index1: usize, index2: usize) -> (bred: bool)
        ensures
            bred <==> can_breed_at(old(self)@, index1 as int, index2 as int),
            index1 >= old(self)@.len() || index2 >= old(self)@.len() ==> !bred,
            !bred ==> final(self)@ == old(self)@,
            bred ==> final(self)@ == old(self)@.push(
                old(self)@[index1 as int].offspring(final(self)@.last().gender),
            ),
            bred ==> {
                let baby = final(self)@.last();
                &&& final(self)@.len() == old(self)@.len() + 1
                &&& baby.name == "Mystery"@
                &&& baby.level == 1
                &&& baby.experience == 0
                &&& baby.pokemon_type == old(self)@[index1 as int].pokemon_type
            },
    {
        if index1 >= self.pokemon.len() || index2 >= self.pokemon.len() {
            return false;
        }
        let pokemon1 = self.pokemon[index1].clone();
        let pokemon2 = self.pokemon[index2].clone();
        assert(pokemon1@ == self@[index1 as int] && pokemon2@ == self@[index2 as int]);
        match pokemon1.breed_with(&pokemon2) {
            Some(baby) => {
                self.add_pokemon(baby);
                true
            },
            None => false,
        }
    }

    /// Sorts the list by level, highest first. Creatures of the same level
    /// stay in the order they had.
    pub fn sort_by_level(&mut self)
        ensures
            final(self)@ == sorted_by_level(old(self)@),
            final(self)@.len() == old(self)@.len(),
            forall|i: int, j: int|
                0 <= i <= j < final(self)@.len() ==> final(self)@[i].level >= final(self)@[j].level,
            final(self)@.to_multiset() == old(self)@.to_multiset(),
            forall|level: nat| #[trigger]
                final(self)@.filter(at_level(level)) == old(self)@.filter(at_level(level)),
    {
        self.sort_by(SortKey::Level);
        proof {
            lemma_sorted_by_level(old(self)@);
        }
    }

    /// Sorts the list by type, in the alphabetical order of the type
    /// labels. Creatures of the same type stay in the order they had.
    pub fn sort_by_type(&mut self)
        ensures
            final(self)@ == sorted_by_type(old(self)@),
            final(self)@.len() == old(self)@.len(),
            forall|i: int, j: int|
                0 <= i <= j < final(self)@.len() ==> alphabetical_le(
                    final(self)@[i].pokemon_type.name(),
                    final(self)@[j].pokemon_type.name(),
                ),
            final(self)@.to_multiset() == old(self)@.to_multiset(),
            forall|pokemon_type: PokemonType| #[trigger]
                final(self)@.filter(of_type(pokemon_type)) == old(self)@.filter(
                    of_type(pokemon_type),
                ),
    {
        self.sort_by(SortKey::Type);
        proof {
            lemma_sorted_by_type(old(self)@);
        }
    }

    /// Sorts the list by `by`, creatures of equal key staying in order:
    /// each creature in turn is taken out and entered again among those
    /// before it.
    fn sort_by(&mut self, by: SortKey)
        ensures
            final(self)@ == stable_sort(old(self)@, by.key()),
    {
        let mut i: usize = 0;
        while i < self.pokemon.len()
            invariant
                i <= self@.len(),
                self@.len() == old(self)@.len(),
                self@.take(i as int) == stable_sort(old(self)@.take(i as int), by.key()),
                self@.skip(i as int) == old(self)@.skip(i as int),
            decreases self.pokemon.len() - i,
        {
            let ghost before = self@;
            let ghost sorted = before.take(i as int);
            let ghost x = before[i as int];
            let mut pos: usize = i;
            assert(sorted.take(pos as int) == sorted);
            while pos > 0 && !by.in_order(&self.pokemon[pos - 1], &self.pokemon[i])
                invariant
                    pos <= i < self@.len(),
                    self@ == before,
                    sorted == before.take(i as int),
                    x == before[i as int],
                    insertion_point(sorted, x, by.key()) == insertion_point(
                        sorted.take(pos as int),
                        x,
                        by.key(),
                    ),
                decreases pos,
            {
                assert(sorted.take(pos as int).last() == self@[pos - 1]);
                assert(sorted.take(pos as int).drop_last() == sorted.take(pos - 1));
                pos -= 1;
            }
            assert(insertion_point(sorted, x, by.key()) == pos) by {
                if pos > 0 {
                    assert(sorted.take(pos as int).last() == self@[pos - 1]);
                }
            }
            let moved = self.pokemon.remove(i);
            self.pokemon.insert(pos, moved);
            proof {
                let after = self@;
                assert(after == before.remove(i as int).insert(pos as int, x));
                assert(after.take(i + 1) == sorted.insert(pos as int, x));
                let rest = after.skip(i + 1);
                let rest_before = old(self)@.skip(i + 1);
                assert(rest == rest_before) by {
                    assert forall|k: int| 0 <= k < rest.len() implies #[trigger] rest[k]
                        == rest_before[k] by {
                        assert(after[i + 1 + k] == before[i + 1 + k]);
                        assert(before[i + 1 + k] == before.skip(i as int)[k + 1]);
                    }
                }
                let upto = old(self)@.take(i + 1);
                assert(upto.drop_last() == old(self)@.take(i as int));
                assert(upto.last() == x) by {
                    assert(before.skip(i as int)[0] == old(self)@.skip(i as int)[0]);
                }
                assert(stable_sort(upto, by.key()) == stable_insert(sorted, x, by.key()));
            }
            i += 1;
        }
        assert(self@ == self@.take(i as int));
        assert(old(self)@ == old(self)@.take(i as int));
    }
}

} // verus!
