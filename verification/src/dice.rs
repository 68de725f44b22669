//! Dice.

use rand::Rng;
use vstd::prelude::*;
use crate::text::{
    bold, build, built, decimal, decimal_text, new_builder, push_bold_safe, push_text,
    replace_all, replaced, safe,
};

verus! {

/// A die, by the number of its sides. Its faces are 1 to that number.
#[derive(Clone, Copy, Debug, PartialEq, Eq, Structural)]
pub struct Die(pub u32);

/// The die can be rolled: it has a side, and not so many that one more
/// would not be a number.
pub open spec fn rollable(die: Die) -> bool {
    1 <= die.0 < u32::MAX
}

/// The sum of some rolls.
pub open spec fn sum(faces: Seq<u32>) -> int
    decreases faces.len(),
{
    if faces.len() == 0 {
        0
    } else {
        sum(faces.drop_last()) + faces.last()
    }
}

/// The most that some dice can come to.
pub open spec fn most(dice: Seq<Die>) -> int
    decreases dice.len(),
{
    if dice.len() == 0 {
        0
    } else {
        most(dice.drop_last()) + dice.last().0
    }
}

/// `faces` is a roll of `dice`: one face for each die, and a face of it.
pub open spec fn rolled(dice: Seq<Die>, faces: Seq<u32>) -> bool {
    &&& faces.len() == dice.len()
    &&& forall|i: int| 0 <= i < dice.len() ==> 1 <= #[trigger] faces[i] <= dice[i].0
}

/// A number drawn from the thread's random number generator:
/// `rand::thread_rng()`, then `Rng::gen_range(low, high)`. The crate says
/// that the number is at least `low` and less than `high`, and that the call
/// panics unless `low < high`. Which number it is, is chance.
#[verifier::external_body]
fn random_in(low: u32, high: u32) -> (n: u32)
    requires
        low < high,
    ensures
        low <= n < high,
{
    rand::thread_rng().gen_range(low, high)
}

/// A roll of dice comes to no less than one for each die, and to no more
/// than the dice have sides.
pub proof fn lemma_roll_bounds(dice: Seq<Die>, faces: Seq<u32>)
    requires
        rolled(dice, faces),
    ensures
        dice.len() <= sum(faces) <= most(dice),
    decreases dice.len(),
{
    if dice.len() > 0 {
        assert(rolled(dice.drop_last(), faces.drop_last()));
        lemma_roll_bounds(dice.drop_last(), faces.drop_last());
    }
}

/// The first dice of some can come to no more than all of them.
proof fn lemma_most_grows(dice: Seq<Die>, n: int)
    requires
        0 <= n <= dice.len(),
    ensures
        0 <= most(dice.take(n)) <= most(dice),
    decreases dice.len() - n,
{
    if n == 0 {
        assert(dice.take(0) =~= Seq::empty());
        lemma_most_grows_from_zero(dice);
    } else if n < dice.len() {
        lemma_most_grows(dice, n + 1);
        assert(dice.take(n + 1).drop_last() =~= dice.take(n));
        lemma_most_grows_from_zero(dice.take(n));
    } else {
        assert(dice.take(n) =~= dice);
        lemma_most_grows_from_zero(dice);
    }
}

proof fn lemma_most_grows_from_zero(dice: Seq<Die>)
    ensures
        0 <= most(dice),
    decreases dice.len(),
{
    if dice.len() > 0 {
        lemma_most_grows_from_zero(dice.drop_last());
    }
}

impl Die {
    /// Rolls the die: one of its faces, by chance.
    pub fn roll(self) -> (face: u32)
        requires
            rollable(self),
        ensures
            1 <= face <= self.0,
    {
        random_in(1, self.0 + 1)
    }
}

/// Rolls each of the dice and adds up the faces. The dice must be such that
/// no roll of them comes to more than a `u32` holds.
pub fn roll_dice(dice: &Vec<Die>) -> (total: u32)
    requires
        forall|i: int| 0 <= i < dice.len() ==> rollable(#[trigger] dice[i]),
        most(dice@) <= u32::MAX,
    ensures
        exists|faces: Seq<u32>| rolled(dice@, faces) && total == sum(faces),
{
    let mut total: u32 = 0;
    let ghost mut faces: Seq<u32> = Seq::empty();
    let mut i: usize = 0;
    while i < dice.len()
        invariant
            i <= dice.len(),
            forall|k: int| 0 <= k < dice.len() ==> rollable(#[trigger] dice[k]),
            most(dice@) <= u32::MAX,
            rolled(dice@.take(i as int), faces),
            total == sum(faces),
        decreases dice.len() - i,
    {
        let face = dice[i].roll();
        proof {
            lemma_roll_bounds(dice@.take(i as int), faces);
            lemma_most_grows(dice@, i + 1);
            assert(dice@.take(i + 1).drop_last() =~= dice@.take(i as int));
            assert(faces.push(face).drop_last() =~= faces);
        }
        total = total + face;
        proof {
            faces = faces.push(face);
        }
        i += 1;
    }
    assert(dice@.take(dice.len() as int) =~= dice@);
    total
}

/// `count` dice of `sides` sides each.
pub open spec fn alike(count: nat, sides: u32) -> Seq<Die> {
    Seq::new(count, |i: int| Die(sides))
}

/// Rolls `num_dice` dice of `num_sides` sides each and adds up the faces.
/// The dice must have a side, and all of them together no more than a `u32`
/// holds.
pub fn roll(num_dice: u32, num_sides: u32) -> (total: u32)
    requires
        rollable(Die(num_sides)),
        num_dice * num_sides <= u32::MAX,
    ensures
        exists|faces: Seq<u32>|
            rolled(alike(num_dice as nat, num_sides), faces) && total == sum(faces),
        num_dice <= total <= num_dice * num_sides,
{
    let die = Die(num_sides);
    let mut total: u32 = 0;
    let ghost mut faces: Seq<u32> = Seq::empty();
    let mut i: u32 = 0;
    while i < num_dice
        invariant
            i <= num_dice,
            die == Die(num_sides),
            rollable(die),
            num_dice * num_sides <= u32::MAX,
            rolled(alike(i as nat, num_sides), faces),
            total == sum(faces),
            i <= total <= i * num_sides,
        decreases num_dice - i,
    {
        let face = die.roll();
        assert((i + 1) * num_sides <= num_dice * num_sides) by (nonlinear_arith)
            requires
                i + 1 <= num_dice,
        ;
        assert((i + 1) * num_sides == i * num_sides + num_sides) by (nonlinear_arith);
        total = total + face;
        proof {
            assert(faces.push(face).drop_last() =~= faces);
            faces = faces.push(face);
        }
        i += 1;
    }
    total
}

/// Rolls as [`roll`] does where the dice can be rolled and added up, and
/// says `None` where they cannot: where they have no side, or more sides
/// than can be counted beyond, or together more than a `u32` holds.
pub fn checked_roll(num_dice: u32, num_sides: u32) -> (total: Option<u32>)
    ensures
        total is Some <==> rollable(Die(num_sides)) && num_dice * num_sides <= u32::MAX,
        total matches Some(t) ==> num_dice <= t <= num_dice * num_sides && exists|faces: Seq<u32>|
            rolled(alike(num_dice as nat, num_sides), faces) && t == sum(faces),
{
    if num_sides == 0 || num_sides == u32::MAX {
        return None;
    }
    match num_dice.checked_mul(num_sides) {
        Some(_) => Some(roll(num_dice, num_sides)),
        None => None,
    }
}

/// The text that reports a roll: the mention of the one who asked, what
/// they asked for, which is the text of the command without the command
/// word, and what it came to.
pub open spec fn reported(author: Seq<char>, command: Seq<char>, total: u32) -> Seq<char> {
    author + " Result of running "@ + bold(safe(replaced(command, "~roll "@, ""@))) + " was "@
        + bold(safe(decimal(total as nat)))
}

/// Puts the report of a roll together ([`reported`]). `author` is the
/// mention of the one who asked, `command` the text of their message.
pub fn report(author: &str, command: &str, total: u32) -> (text: String)
    ensures
        text@ == reported(author@, command@, total),
{
    let asked = replace_all(command, "~roll ", "");
    let shown = decimal_text(total as u64);
    let mut builder = new_builder();
    push_text(&mut builder, author);
    assert(built(builder) =~= author@);
    push_text(&mut builder, " Result of running ");
    push_bold_safe(&mut builder, asked.as_str());
    push_text(&mut builder, " was ");
    push_bold_safe(&mut builder, shown.as_str());
    build(builder)
}

} // verus!
