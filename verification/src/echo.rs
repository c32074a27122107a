//! Runs of the two word games: an echo word that letters are put in front
//! of, and a history that events are appended to; each reduced after every
//! step, and the lengths summed up.
use vstd::prelude::*;
use crate::binary64::Binary64;
use crate::binary64::count_number;
use crate::trust::running_sum;
use crate::words::is_b;
use crate::words::is_r;
use crate::words::reduce_history;
use crate::words::reduce_word;
use crate::words::residue;
use crate::words::Event;
use crate::words::Symbol;

verus! {

/// The echo word after the first `n` letters were put in front of it, one
/// after the other, starting from the word `A`.
pub open spec fn echo_word(generators: Seq<Symbol>, n: nat) -> Seq<Symbol>
    decreases n,
{
    if n == 0 {
        residue(seq![Symbol::A], is_b(), Symbol::B)
    } else {
        residue(
            seq![generators[n - 1]] + echo_word(generators, (n - 1) as nat),
            is_b(),
            Symbol::B,
        )
    }
}

/// The changes of length from step to step.
pub open spec fn increments(lengths: Seq<nat>) -> Seq<Binary64> {
    Seq::new(
        (lengths.len() - 1) as nat,
        |i: int| count_number(lengths[i + 1]).minus(count_number(lengths[i])),
    )
}

/// The lengths of the echo word from the start to the end of a run.
pub open spec fn echo_lengths(generators: Seq<Symbol>) -> Seq<nat> {
    Seq::new(generators.len() + 1, |n: int| echo_word(generators, n as nat).len())
}

/// What a run sums up to.
#[derive(Clone, Copy, Debug)]
pub struct RunSummary {
    /// The change of length over the run, per step.
    pub slope: Binary64,
    /// The mean change of length per step, summed up step by step.
    pub avg_increment: Binary64,
    /// The length at the end.
    pub final_length: usize,
}

/// Sums the lengths of a run up.
pub open spec fn summed(lengths: Seq<nat>, steps: nat) -> RunSummary {
    RunSummary {
        slope: count_number(lengths.last()).minus(count_number(lengths[0])).over(
            count_number(steps),
        ),
        avg_increment: running_sum(increments(lengths)).over(count_number(steps)),
        final_length: lengths.last() as usize,
    }
}

/// The sum of the changes of length.
fn sum_increments(lengths: &Vec<usize>) -> (r: Binary64)
    requires
        lengths.len() >= 1,
    ensures
        r == running_sum(increments(lengths@.map(|i: int, l: usize| l as nat))),
{
    let ghost all = increments(lengths@.map(|i: int, l: usize| l as nat));
    let mut acc = Binary64::zero();
    let mut i: usize = 0;
    while i + 1 < lengths.len()
        invariant
            lengths.len() >= 1,
            i + 1 <= lengths.len(),
            all == increments(lengths@.map(|i: int, l: usize| l as nat)),
            all.len() == lengths.len() - 1,
            acc == running_sum(all.take(i as int)),
        decreases lengths.len() - i,
    {
        proof {
            assert(all.take(i + 1).drop_last() =~= all.take(i as int));
        }
        acc = acc.add_rounded(
            Binary64::from_count(lengths[i + 1]).sub_rounded(Binary64::from_count(lengths[i])),
        );
        i += 1;
    }
    proof {
        assert(all.take((lengths.len() - 1) as int) =~= all);
    }
    acc
}

/// Runs the echo game: each letter in turn is put in front of the word and
/// the word is reduced. Returns how the length of the word changed.
pub fn echo_run(generators: &Vec<Symbol>) -> (r: RunSummary)
    ensures
        r == summed(echo_lengths(generators@), generators@.len()),
{
    let mut start: Vec<Symbol> = Vec::new();
    start.push(Symbol::A);
    assert(start@ =~= seq![Symbol::A]);
    let mut word = reduce_word(start.as_slice());
    let mut lengths: Vec<usize> = Vec::new();
    lengths.push(word.len());
    let mut step: usize = 0;
    while step < generators.len()
        invariant
            step <= generators.len(),
            word@ == echo_word(generators@, step as nat),
            lengths@.len() == step + 1,
            forall|n: int|
                0 <= n <= step ==> #[trigger] lengths@[n] == echo_word(generators@, n as nat).len(),
        decreases generators.len() - step,
    {
        let mut candidate: Vec<Symbol> = Vec::new();
        candidate.push(generators[step]);
        let mut i: usize = 0;
        while i < word.len()
            invariant
                i <= word.len(),
                candidate@ == seq![generators@[step as int]] + word@.take(i as int),
            decreases word.len() - i,
        {
            candidate.push(word[i]);
            assert(candidate@ =~= seq![generators@[step as int]] + word@.take(i + 1));
            i += 1;
        }
        assert(word@.take(word.len() as int) =~= word@);
        word = reduce_word(candidate.as_slice());
        lengths.push(word.len());
        step += 1;
    }
    let ghost abstract_lengths = lengths@.map(|i: int, l: usize| l as nat);
    assert(abstract_lengths =~= echo_lengths(generators@));
    let steps = Binary64::from_count(generators.len());
    let initial = Binary64::from_count(lengths[0]);
    let last = lengths[lengths.len() - 1];
    RunSummary {
        slope: Binary64::from_count(last).sub_rounded(initial).div_rounded(steps),
        avg_increment: sum_increments(&lengths).div_rounded(steps),
        final_length: last,
    }
}

/// What a step of a history adds.
#[derive(Clone, Copy, Debug, PartialEq, Eq, Structural)]
pub enum Choice {
    /// An irreversible event followed by a structural one.
    Irreversible,
    /// A structural event.
    Lasting,
    /// A reversible event.
    Reversible,
}

impl Choice {
    /// The events of the choice.
    pub open spec fn events(self) -> Seq<Event> {
        match self {
            Choice::Irreversible => seq![Event::I, Event::S],
            Choice::Lasting => seq![Event::S],
            Choice::Reversible => seq![Event::R],
        }
    }
}

/// The history after the first `n` choices, reduced after each.
pub open spec fn history_after(choices: Seq<Choice>, n: nat) -> Seq<Event>
    decreases n,
{
    if n == 0 {
        Seq::empty()
    } else {
        residue(
            history_after(choices, (n - 1) as nat) + choices[n - 1].events(),
            is_r(),
            Event::R,
        )
    }
}

/// The lengths of the history from the start to the end of a run.
pub open spec fn history_lengths(choices: Seq<Choice>) -> Seq<nat> {
    Seq::new(choices.len() + 1, |n: int| history_after(choices, n as nat).len())
}

/// Runs the history game: the events of each choice in turn are appended
/// to the history and the history is reduced. Returns how the length of the
/// history changed.
pub fn entropy_run(choices: &Vec<Choice>) -> (r: RunSummary)
    ensures
        r == summed(history_lengths(choices@), choices@.len()),
{
    let mut history: Vec<Event> = Vec::new();
    let mut lengths: Vec<usize> = Vec::new();
    lengths.push(0);
    let mut step: usize = 0;
    while step < choices.len()
        invariant
            step <= choices.len(),
            history@ == history_after(choices@, step as nat),
            lengths@.len() == step + 1,
            forall|n: int|
                0 <= n <= step ==> #[trigger] lengths@[n] == history_after(choices@, n as nat).len(),
        decreases choices.len() - step,
    {
        let ghost before = history@;
        match choices[step] {
            Choice::Irreversible => {
                history.push(Event::I);
                history.push(Event::S);
            },
            Choice::Lasting => {
                history.push(Event::S);
            },
            Choice::Reversible => {
                history.push(Event::R);
            },
        }
        assert(history@ =~= before + choices@[step as int].events());
        history = reduce_history(history.as_slice());
        lengths.push(history.len());
        step += 1;
    }
    let ghost abstract_lengths = lengths@.map(|i: int, l: usize| l as nat);
    assert(abstract_lengths =~= history_lengths(choices@));
    let steps = Binary64::from_count(choices.len());
    let initial = Binary64::from_count(lengths[0]);
    let last = lengths[lengths.len() - 1];
    RunSummary {
        slope: Binary64::from_count(last).sub_rounded(initial).div_rounded(steps),
        avg_increment: sum_increments(&lengths).div_rounded(steps),
        final_length: last,
    }
}

} // verus!
