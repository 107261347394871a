//! The interactive shell of the breeding center, as a machine that is fed
//! the lines its user types. It says what to print before each line is
//! read, and answers each line with the lines to print and its next state.

use vstd::prelude::*;
use crate::breeding::all_can_gain;
use crate::breeding::all_trained;
use crate::breeding::all_wf;
use crate::breeding::lemma_all_trained;
use crate::breeding::lemma_sorted_by_level;
use crate::breeding::lemma_sorted_by_type;
use crate::breeding::lemma_sorting_keeps_wf;
use crate::breeding::can_breed_at;
use crate::breeding::listing;
use crate::breeding::sorted_by_level;
use crate::breeding::sorted_by_type;
use crate::breeding::Breeding;
use crate::kinds::Gender;
use crate::pokemon::PokemonModel;
use crate::report::breeding_notices;
use crate::report::breeding_report;
use crate::report::training_notices;
use crate::report::training_report;
use crate::text::chars_of;
use crate::text::parse_unsigned;
use crate::text::push_text;
use crate::text::read_unsigned;
use crate::text::split_words;
use crate::text::texts;
use crate::text::trim;
use crate::text::trimmed;
use crate::text::views;
use crate::text::words;

verus! {

/// What the user can pick from the menu.
#[derive(Debug, Clone, Copy, PartialEq, Eq, Structural)]
pub enum MenuChoice {
    Display,
    Train,
    Breed,
    SortByLevel,
    SortByType,
    Exit,
    Invalid,
}

/// What the shell waits for.
#[derive(Debug, Clone, Copy, PartialEq, Eq, Structural)]
pub enum Awaiting {
    /// A pick from the menu.
    Choice,
    /// The experience to train every creature with.
    TrainingAmount,
    /// The places of the two creatures to breed.
    BreedingPair,
    /// Nothing more: the user has left.
    Nothing,
}

/// The shell as a mathematical value.
pub struct ShellModel {
    pub center: Seq<PokemonModel>,
    pub awaiting: Awaiting,
}

/// The shell: a breeding center and what is awaited from its user.
pub struct Shell {
    center: Breeding,
    awaiting: Awaiting,
}

impl View for Shell {
    type V = ShellModel;

    closed spec fn view(&self) -> ShellModel {
        ShellModel { center: self.center@, awaiting: self.awaiting }
    }
}

/// The pick that `line` makes: the entry whose number, from 1 to 6, the
/// line holds between white space, or `Invalid`.
pub open spec fn choice_of(line: Seq<char>) -> MenuChoice {
    match parse_unsigned(trim(line), u32::MAX as nat) {
        Some(n) => if n == 1 {
            MenuChoice::Display
        } else if n == 2 {
            MenuChoice::Train
        } else if n == 3 {
            MenuChoice::Breed
        } else if n == 4 {
            MenuChoice::SortByLevel
        } else if n == 5 {
            MenuChoice::SortByType
        } else if n == 6 {
            MenuChoice::Exit
        } else {
            MenuChoice::Invalid
        },
        None => MenuChoice::Invalid,
    }
}

/// The experience that `line` names: the number it holds between white
/// space, if it fits in `u32`.
pub open spec fn xp_of(line: Seq<char>) -> Option<nat> {
    parse_unsigned(trim(line), u32::MAX as nat)
}

/// The numbers among `found`, in order: every word that reads as a number
/// no greater than `max`.
pub open spec fn numbers_in(found: Seq<Seq<char>>, max: nat) -> Seq<nat>
    decreases found.len(),
{
    if found.len() == 0 {
        Seq::empty()
    } else {
        let before = numbers_in(found.drop_last(), max);
        match parse_unsigned(found.last(), max) {
            Some(n) => before.push(n),
            None => before,
        }
    }
}

/// The two places that `line` names: the numbers among its words, if there
/// are exactly two of them. Words that are no numbers are passed over.
pub open spec fn indices_of(line: Seq<char>) -> Option<(nat, nat)> {
    let found = numbers_in(words(trim(line)), usize::MAX as nat);
    if found.len() == 2 {
        Some((found[0], found[1]))
    } else {
        None
    }
}

/// The menu.
pub open spec fn menu() -> Seq<Seq<char>> {
    seq![
        ""@,
        "=== Breeding Center Menu ==="@,
        "1. Display all Pokémon"@,
        "2. Train all Pokémon"@,
        "3. Attempt breeding"@,
        "4. Sort Pokémon by level"@,
        "5. Sort Pokémon by type"@,
        "6. Exit"@,
    ]
}

/// What is printed before the next line is read.
pub open spec fn prompt_for(awaiting: Awaiting) -> Seq<Seq<char>> {
    match awaiting {
        Awaiting::Choice => menu(),
        Awaiting::TrainingAmount => seq!["Enter XP to train all Pokémon:"@],
        Awaiting::BreedingPair => seq!["Enter the indices of two Pokémon to breed (e.g., 0 1):"@],
        Awaiting::Nothing => Seq::empty(),
    }
}

/// Whether the shell can take `line`: the training that the line asks for,
/// if any, leaves every level within `u32`.
pub open spec fn accepts(shell: ShellModel, line: Seq<char>) -> bool {
    shell.awaiting == Awaiting::TrainingAmount ==> (xp_of(line) matches Some(xp) ==> all_can_gain(
        shell.center,
        xp,
    ))
}

/// What the shell prints in answer to `line`.
pub open spec fn reply(shell: ShellModel, line: Seq<char>) -> Seq<Seq<char>> {
    match shell.awaiting {
        Awaiting::Choice => match choice_of(line) {
            MenuChoice::Display => listing(shell.center),
            MenuChoice::Train => Seq::empty(),
            MenuChoice::Breed => Seq::empty(),
            MenuChoice::SortByLevel => seq!["Pokémon sorted by level!"@],
            MenuChoice::SortByType => seq!["Pokémon sorted by type!"@],
            MenuChoice::Exit => seq!["Exiting the breeding center. Goodbye!"@],
            MenuChoice::Invalid => seq!["Invalid choice! Please try again."@],
        },
        Awaiting::TrainingAmount => match xp_of(line) {
            Some(xp) => training_report(shell.center, xp),
            None => seq!["Invalid XP value!"@],
        },
        Awaiting::BreedingPair => match indices_of(line) {
            Some((index1, index2)) => breeding_report(shell.center, index1 as int, index2 as int),
            None => seq!["Invalid indices!"@],
        },
        Awaiting::Nothing => Seq::empty(),
    }
}

/// The center after `line`, where a newborn, if there is one, is of
/// `gender`.
pub open spec fn center_after(shell: ShellModel, line: Seq<char>, gender: Gender) -> Seq<
    PokemonModel,
> {
    match shell.awaiting {
        Awaiting::Choice => match choice_of(line) {
            MenuChoice::SortByLevel => sorted_by_level(shell.center),
            MenuChoice::SortByType => sorted_by_type(shell.center),
            _ => shell.center,
        },
        Awaiting::TrainingAmount => match xp_of(line) {
            Some(xp) => all_trained(shell.center, xp),
            None => shell.center,
        },
        Awaiting::BreedingPair => match indices_of(line) {
            Some((index1, index2)) => if can_breed_at(shell.center, index1 as int, index2 as int) {
                shell.center.push(shell.center[index1 as int].offspring(gender))
            } else {
                shell.center
            },
            None => shell.center,
        },
        Awaiting::Nothing => shell.center,
    }
}

/// What the shell waits for after `line`.
pub open spec fn awaiting_after(shell: ShellModel, line: Seq<char>) -> Awaiting {
    match shell.awaiting {
        Awaiting::Choice => match choice_of(line) {
            MenuChoice::Train => Awaiting::TrainingAmount,
            MenuChoice::Breed => Awaiting::BreedingPair,
            MenuChoice::Exit => Awaiting::Nothing,
            _ => Awaiting::Choice,
        },
        Awaiting::TrainingAmount => Awaiting::Choice,
        Awaiting::BreedingPair => Awaiting::Choice,
        Awaiting::Nothing => Awaiting::Nothing,
    }
}

/// The shell after `line`, where a newborn, if there is one, is of `gender`.
pub open spec fn next(shell: ShellModel, line: Seq<char>, gender: Gender) -> ShellModel {
    ShellModel { center: center_after(shell, line, gender), awaiting: awaiting_after(shell, line) }
}

/// Whatever the user types, the center loses no creature, and gains at most
/// one: the newborn of a breeding that succeeds.
pub proof fn lemma_center_never_shrinks(shell: ShellModel, line: Seq<char>, gender: Gender)
    ensures
        shell.center.len() <= next(shell, line, gender).center.len() <= shell.center.len() + 1,
        next(shell, line, gender).center.len() == shell.center.len() + 1 <==> {
            &&& shell.awaiting == Awaiting::BreedingPair
            &&& indices_of(line) matches Some((index1, index2))
            &&& can_breed_at(shell.center, index1 as int, index2 as int)
        },
{
    lemma_sorted_by_level(shell.center);
    lemma_sorted_by_type(shell.center);
}

/// Whatever the user types, well-formed creatures stay well formed: each
/// keeps a level of 1 or more and less experience than a level costs.
pub proof fn lemma_center_stays_wf(shell: ShellModel, line: Seq<char>, gender: Gender)
    requires
        all_wf(shell.center),
    ensures
        all_wf(next(shell, line, gender).center),
{
    lemma_sorting_keeps_wf(shell.center);
    match shell.awaiting {
        Awaiting::TrainingAmount => match xp_of(line) {
            Some(xp) => {
                lemma_all_trained(shell.center, xp);
            },
            None => {},
        },
        _ => {},
    }
}

/// Once the user has left, no line changes the shell, and none is
/// answered.
pub proof fn lemma_after_the_end(shell: ShellModel, line: Seq<char>, gender: Gender)
    requires
        shell.awaiting == Awaiting::Nothing,
    ensures
        next(shell, line, gender) == shell,
        reply(shell, line) == Seq::<Seq<char>>::empty(),
{
}

/// The gender of the creature that joined `center` last.
pub open spec fn last_gender(center: Seq<PokemonModel>) -> Gender {
    if center.len() > 0 {
        center.last().gender
    } else {
        Gender::Male
    }
}

/// The numbers of `v` as mathematical integers.
spec fn as_nats(v: Seq<usize>) -> Seq<nat> {
    v.map_values(|n: usize| n as nat)
}

/// Reads the pick that `line` makes from the menu.
pub fn parse_choice(line: &str) -> (choice: MenuChoice)
    ensures
        choice == choice_of(line@),
{
    let chars = trimmed(&chars_of(line));
    match read_unsigned(&chars, u32::MAX as u64) {
        Some(1) => MenuChoice::Display,
        Some(2) => MenuChoice::Train,
        Some(3) => MenuChoice::Breed,
        Some(4) => MenuChoice::SortByLevel,
        Some(5) => MenuChoice::SortByType,
        Some(6) => MenuChoice::Exit,
        _ => MenuChoice::Invalid,
    }
}

/// Reads the experience that `line` names.
pub fn parse_xp(line: &str) -> (xp: Option<u32>)
    ensures
        xp matches Some(n) ==> xp_of(line@) == Some(n as nat),
        xp is None ==> xp_of(line@) is None,
{
    let chars = trimmed(&chars_of(line));
    match read_unsigned(&chars, u32::MAX as u64) {
        Some(n) => Some(n as u32),
        None => None,
    }
}

/// Reads the two places that `line` names.
pub fn parse_indices(line: &str) -> (pair: Option<(usize, usize)>)
    ensures
        pair matches Some((index1, index2)) ==> indices_of(line@) == Some(
            (index1 as nat, index2 as nat),
        ),
        pair is None ==> indices_of(line@) is None,
{
    let chars = trimmed(&chars_of(line));
    let found = split_words(&chars);
    let ghost all = views(found@);
    let mut numbers: Vec<usize> = Vec::new();
    let mut i: usize = 0;
    assert(all.take(0) == Seq::<Seq<char>>::empty());
    assert(as_nats(numbers@) == Seq::<nat>::empty());
    while i < found.len()
        invariant
            i <= found@.len(),
            all == views(found@),
            as_nats(numbers@) == numbers_in(all.take(i as int), usize::MAX as nat),
        decreases found@.len() - i,
    {
        let ghost upto = all.take(i + 1);
        let ghost before = as_nats(numbers@);
        assert(upto.drop_last() == all.take(i as int));
        assert(upto.last() == found@[i as int]@);
        match read_unsigned(&found[i], usize::MAX as u64) {
            Some(n) => {
                numbers.push(n as usize);
                assert(as_nats(numbers@) == before.push(n as nat));
            },
            None => {},
        }
        i += 1;
    }
    assert(all.take(i as int) == all);
    if numbers.len() == 2 {
        assert(as_nats(numbers@)[0] == numbers@[0] && as_nats(numbers@)[1] == numbers@[1]);
        Some((numbers[0], numbers[1]))
    } else {
        assert(as_nats(numbers@).len() == numbers@.len());
        None
    }
}

/// A single line.
fn one_line(text: &str) -> (lines: Vec<String>)
    ensures
        texts(lines@) == seq![text@],
{
    let mut lines: Vec<String> = Vec::new();
    push_text(&mut lines, text);
    assert(texts(lines@) =~= seq![text@]);
    lines
}

/// The menu.
pub fn menu_lines() -> (lines: Vec<String>)
    ensures
        texts(lines@) == menu(),
{
    let mut lines: Vec<String> = Vec::new();
    push_text(&mut lines, "");
    push_text(&mut lines, "=== Breeding Center Menu ===");
    push_text(&mut lines, "1. Display all Pokémon");
    push_text(&mut lines, "2. Train all Pokémon");
    push_text(&mut lines, "3. Attempt breeding");
    push_text(&mut lines, "4. Sort Pokémon by level");
    push_text(&mut lines, "5. Sort Pokémon by type");
    push_text(&mut lines, "6. Exit");
    assert(texts(lines@) =~= menu());
    lines
}

impl Shell {
    /// A shell around `center` that waits for a pick from the menu.
    pub fn new(center: Breeding) -> (shell: Self)
        ensures
            shell@ == (ShellModel { center: center@, awaiting: Awaiting::Choice }),
    {
        Shell { center, awaiting: Awaiting::Choice }
    }

    /// The breeding center.
    pub fn center(&self) -> (center: &Breeding)
        ensures
            center@ == self@.center,
    {
        &self.center
    }

    /// What the shell waits for.
    pub fn awaiting(&self) -> (awaiting: Awaiting)
        ensures
            awaiting == self@.awaiting,
    {
        self.awaiting
    }

    /// Whether the user has left.
    pub fn is_finished(&self) -> (finished: bool)
        ensures
            finished <==> self@.awaiting == Awaiting::Nothing,
    {
        self.awaiting == Awaiting::Nothing
    }

    /// What to print before the next line is read.
    pub fn prompt(&self) -> (lines: Vec<String>)
        ensures
            texts(lines@) == prompt_for(self@.awaiting),
    {
        match self.awaiting {
            Awaiting::Choice => menu_lines(),
            Awaiting::TrainingAmount => one_line("Enter XP to train all Pokémon:"),
            Awaiting::BreedingPair => one_line(
                "Enter the indices of two Pokémon to breed (e.g., 0 1):",
            ),
            Awaiting::Nothing => {
                let lines: Vec<String> = Vec::new();
                assert(texts(lines@) =~= Seq::<Seq<char>>::empty());
                lines
            },
        }
    }

    /// Whether the shell can take `line`.
    pub fn accepts(&self, line: &str) -> (fits: bool)
        ensures
            fits == accepts(self@, line@),
    {
        match self.awaiting {
            Awaiting::TrainingAmount => match parse_xp(line) {
                Some(xp) => self.center.can_train_all(xp),
                None => true,
            },
            _ => true,
        }
    }

    /// Takes the line that the user has typed: acts on it, and returns the
    /// lines to print in answer.
    pub fn feed(&mut self, line: &str) -> (lines: Vec<String>)
        requires
            accepts(old(self)@, line@),
        ensures
            texts(lines@) == reply(old(self)@, line@),
            final(self)@ == next(old(self)@, line@, last_gender(final(self)@.center)),
    {
        match self.awaiting {
            Awaiting::Choice => match parse_choice(line) {
                MenuChoice::Display => self.center.display_all(),
                MenuChoice::Train => {
                    self.awaiting = Awaiting::TrainingAmount;
                    no_lines()
                },
                MenuChoice::Breed => {
                    self.awaiting = Awaiting::BreedingPair;
                    no_lines()
                },
                MenuChoice::SortByLevel => {
                    self.center.sort_by_level();
                    one_line("Pokémon sorted by level!")
                },
                MenuChoice::SortByType => {
                    self.center.sort_by_type();
                    one_line("Pokémon sorted by type!")
                },
                MenuChoice::Exit => {
                    self.awaiting = Awaiting::Nothing;
                    one_line("Exiting the breeding center. Goodbye!")
                },
                MenuChoice::Invalid => one_line("Invalid choice! Please try again."),
            },
            Awaiting::TrainingAmount => {
                self.awaiting = Awaiting::Choice;
                match parse_xp(line) {
                    Some(xp) => {
                        let lines = training_notices(&self.center, xp);
                        self.center.train_all(xp);
                        lines
                    },
                    None => one_line("Invalid XP value!"),
                }
            },
            Awaiting::BreedingPair => {
                self.awaiting = Awaiting::Choice;
                match parse_indices(line) {
                    Some((index1, index2)) => {
                        let lines = breeding_notices(&self.center, index1, index2);
                        self.center.attempt_breeding(index1, index2);
                        lines
                    },
                    None => one_line("Invalid indices!"),
                }
            },
            Awaiting::Nothing => no_lines(),
        }
    }
}

/// No line at all.
fn no_lines() -> (lines: Vec<String>)
    ensures
        texts(lines@) == Seq::<Seq<char>>::empty(),
{
    let lines: Vec<String> = Vec::new();
    assert(texts(lines@) =~= Seq::<Seq<char>>::empty());
    lines
}

} // verus!
