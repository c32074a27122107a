//! Words that shrink as they grow: a cancelling letter vanishes in pairs
//! and is swallowed by whatever follows it.
use vstd::prelude::*;

verus! {

/// A letter of an echo word. `B` cancels: `BB` vanishes and `BA` becomes
/// `A`.
#[derive(Clone, Copy, Debug, PartialEq, Eq, Structural)]
pub enum Symbol {
    A,
    B,
}

/// An event of a history. `R` cancels: `RR` vanishes, and `R` before `I` or
/// `S` is swallowed.
#[derive(Clone, Copy, Debug, PartialEq, Eq, Structural)]
pub enum Event {
    I,
    R,
    S,
}

/// The entries of `xs` that do not cancel, in their order.
pub open spec fn lasting<T>(xs: Seq<T>, cancels: spec_fn(T) -> bool) -> Seq<T>
    decreases xs.len(),
{
    if xs.len() == 0 {
        Seq::empty()
    } else if cancels(xs.last()) {
        lasting(xs.drop_last(), cancels)
    } else {
        lasting(xs.drop_last(), cancels).push(xs.last())
    }
}

/// Whether the run of cancelling entries at the end of `xs` has odd length.
pub open spec fn odd_tail<T>(xs: Seq<T>, cancels: spec_fn(T) -> bool) -> bool
    decreases xs.len(),
{
    if xs.len() == 0 {
        false
    } else if cancels(xs.last()) {
        !odd_tail(xs.drop_last(), cancels)
    } else {
        false
    }
}

/// What is left of `xs`: the entries that do not cancel, followed by one
/// `cancelling` entry where the run of cancelling entries at the end of
/// `xs` has odd length.
pub open spec fn residue<T>(xs: Seq<T>, cancels: spec_fn(T) -> bool, cancelling: T) -> Seq<T> {
    if odd_tail(xs, cancels) {
        lasting(xs, cancels).push(cancelling)
    } else {
        lasting(xs, cancels)
    }
}

/// None of the lasting entries cancels.
pub proof fn lemma_lasting_entries_do_not_cancel<T>(xs: Seq<T>, cancels: spec_fn(T) -> bool)
    ensures
        forall|i: int|
            0 <= i < lasting(xs, cancels).len() ==> !cancels(#[trigger] lasting(xs, cancels)[i]),
    decreases xs.len(),
{
    if xs.len() > 0 {
        let front = lasting(xs.drop_last(), cancels);
        lemma_lasting_entries_do_not_cancel(xs.drop_last(), cancels);
        assert forall|i: int| 0 <= i < lasting(xs, cancels).len() implies !cancels(
            #[trigger] lasting(xs, cancels)[i],
        ) by {
            if i < front.len() {
                assert(lasting(xs, cancels)[i] == front[i]);
            }
        }
    }
}

/// The letter `B`.
pub open spec fn is_b() -> spec_fn(Symbol) -> bool {
    |s: Symbol| s == Symbol::B
}

/// The event `R`.
pub open spec fn is_r() -> spec_fn(Event) -> bool {
    |e: Event| e == Event::R
}

/// Reduces a word letter by letter: each letter is appended, then `BA` at
/// the end becomes `A` and `BB` at the end vanishes, for as long as either
/// applies. What is left are the `A`s of the word, followed by one `B`
/// where the word ends in an odd number of `B`s.
pub fn reduce_word(word: &[Symbol]) -> (r: Vec<Symbol>)
    ensures
        r@ == residue(word@, is_b(), Symbol::B),
{
    let mut reduced: Vec<Symbol> = Vec::new();
    let mut i: usize = 0;
    assert(word@.take(0) =~= Seq::<Symbol>::empty());
    while i < word.len()
        invariant
            i <= word.len(),
            reduced@ == residue(word@.take(i as int), is_b(), Symbol::B),
        decreases word.len() - i,
    {
        let symbol = word[i];
        let ghost before = word@.take(i as int);
        proof {
            assert(word@.take(i + 1).drop_last() =~= before);
            assert(word@.take(i + 1).last() == symbol);
        }
        reduced.push(symbol);
        let ghost mut settled = false;
        loop
            invariant_except_break
                !settled ==> reduced@ == residue(before, is_b(), Symbol::B).push(symbol),
                settled ==> reduced@ == residue(word@.take(i + 1), is_b(), Symbol::B),
                i < word.len(),
                before == word@.take(i as int),
                word@.take(i + 1).drop_last() == before,
                word@.take(i + 1).last() == symbol,
                symbol == word@[i as int],
            ensures
                reduced@ == residue(word@.take(i + 1), is_b(), Symbol::B),
            decreases
                    (if settled {
                        0int
                    } else {
                        1int
                    }),
        {
            if reduced.len() < 2 {
                break;
            }
            let len = reduced.len();
            let left = reduced[len - 2];
            let right = reduced[len - 1];
            proof {
                lemma_lasting_entries_do_not_cancel(before, is_b());
                lemma_lasting_entries_do_not_cancel(word@.take(i + 1), is_b());
                let kept = lasting(before, is_b());
                let whole = lasting(word@.take(i + 1), is_b());
                if left == Symbol::B {
                    if settled {
                        if odd_tail(word@.take(i + 1), is_b()) {
                            assert((is_b())(whole[whole.len() - 1]));
                        } else {
                            assert((is_b())(whole[whole.len() - 2]));
                        }
                    } else if !odd_tail(before, is_b()) {
                        assert((is_b())(kept[kept.len() - 1]));
                    }
                }
            }
            match (left, right) {
                (Symbol::B, Symbol::A) => {
                    let protected = reduced.pop().unwrap_or(Symbol::A);
                    reduced.pop();
                    reduced.push(protected);
                    proof {
                        assert(reduced@ =~= lasting(before, is_b()).push(Symbol::A));
                        settled = true;
                    }
                },
                (Symbol::B, Symbol::B) => {
                    reduced.pop();
                    reduced.pop();
                    proof {
                        assert(reduced@ =~= lasting(before, is_b()));
                        settled = true;
                    }
                },
                _ => break,
            }
        }
        i += 1;
    }
    assert(word@.take(word.len() as int) =~= word@);
    reduced
}

/// Reduces a history event by event: each event is appended, then `RR` at
/// the end vanishes and `R` before `I` or `S` at the end is swallowed, for
/// as long as either applies. What is left are the `I`s and `S`s of the
/// history, followed by one `R` where the history ends in an odd number of
/// `R`s.
pub fn reduce_history(history: &[Event]) -> (r: Vec<Event>)
    ensures
        r@ == residue(history@, is_r(), Event::R),
{
    let mut reduced: Vec<Event> = Vec::new();
    let mut i: usize = 0;
    assert(history@.take(0) =~= Seq::<Event>::empty());
    while i < history.len()
        invariant
            i <= history.len(),
            reduced@ == residue(history@.take(i as int), is_r(), Event::R),
        decreases history.len() - i,
    {
        let event = history[i];
        let ghost before = history@.take(i as int);
        proof {
            assert(history@.take(i + 1).drop_last() =~= before);
            assert(history@.take(i + 1).last() == event);
        }
        reduced.push(event);
        let ghost mut settled = false;
        loop
            invariant_except_break
                !settled ==> reduced@ == residue(before, is_r(), Event::R).push(event),
                settled ==> reduced@ == residue(history@.take(i + 1), is_r(), Event::R),
                i < history.len(),
                before == history@.take(i as int),
                history@.take(i + 1).drop_last() == before,
                history@.take(i + 1).last() == event,
                event == history@[i as int],
            ensures
                reduced@ == residue(history@.take(i + 1), is_r(), Event::R),
            decreases
                    (if settled {
                        0int
                    } else {
                        1int
                    }),
        {
            if reduced.len() < 2 {
                break;
            }
            let len = reduced.len();
            let left = reduced[len - 2];
            let right = reduced[len - 1];
            proof {
                lemma_lasting_entries_do_not_cancel(before, is_r());
                lemma_lasting_entries_do_not_cancel(history@.take(i + 1), is_r());
                let kept = lasting(before, is_r());
                let whole = lasting(history@.take(i + 1), is_r());
                if left == Event::R {
                    if settled {
                        if odd_tail(history@.take(i + 1), is_r()) {
                            assert((is_r())(whole[whole.len() - 1]));
                        } else {
                            assert((is_r())(whole[whole.len() - 2]));
                        }
                    } else if !odd_tail(before, is_r()) {
                        assert((is_r())(kept[kept.len() - 1]));
                    }
                }
            }
            match (left, right) {
                (Event::R, Event::R) => {
                    reduced.pop();
                    reduced.pop();
                    proof {
                        assert(reduced@ =~= lasting(before, is_r()));
                        settled = true;
                    }
                },
                (Event::R, Event::I) | (Event::R, Event::S) => {
                    let survivor = reduced.pop().unwrap_or(Event::S);
                    reduced.pop();
                    reduced.push(survivor);
                    proof {
                        assert(reduced@ =~= lasting(before, is_r()).push(event));
                        settled = true;
                    }
                },
                _ => break,
            }
        }
        i += 1;
    }
    assert(history@.take(history.len() as int) =~= history@);
    reduced
}

} // verus!
