//! The order in which proposals are listed, and the line printed for each.

use crate::trade::{all_gain, transition_views, Transition, TransitionView};
use vstd::prelude::*;

verus! {

/// Whether the gains never fall from one transition to the next.
pub open spec fn ascending(transitions: Seq<TransitionView>) -> bool {
    forall|i: int, j: int|
        0 <= i < j < transitions.len() ==> (#[trigger] transitions[i]).gain
            <= (#[trigger] transitions[j]).gain
}

/// An ascending list with one more transition put behind every transition
/// that gains no more than it does.
pub open spec fn placed(sorted: Seq<TransitionView>, transition: TransitionView) -> Seq<
    TransitionView,
>
    decreases sorted.len(),
{
    if sorted.len() == 0 || sorted.last().gain <= transition.gain {
        sorted.push(transition)
    } else {
        placed(sorted.drop_last(), transition).push(sorted.last())
    }
}

/// The transitions by ascending gain; those of equal gain keep the order
/// in which they came.
pub open spec fn ranked(transitions: Seq<TransitionView>) -> Seq<TransitionView>
    decreases transitions.len(),
{
    if transitions.len() == 0 {
        Seq::empty()
    } else {
        placed(ranked(transitions.drop_last()), transitions.last())
    }
}

/// Placing a transition is inserting it at the one place that has only
/// greater gains behind it and no greater gain just before it.
pub proof fn lemma_placed_at(sorted: Seq<TransitionView>, transition: TransitionView, place: int)
    requires
        0 <= place <= sorted.len(),
        forall|k: int| place <= k < sorted.len() ==> (#[trigger] sorted[k]).gain > transition.gain,
        place > 0 ==> sorted[place - 1].gain <= transition.gain,
    ensures
        placed(sorted, transition) == sorted.insert(place, transition),
    decreases sorted.len(),
{
    if sorted.len() > 0 && sorted.last().gain > transition.gain {
        lemma_placed_at(sorted.drop_last(), transition, place);
    }
}

/// Placing keeps a list ascending and adds exactly the one transition.
pub proof fn lemma_placed(sorted: Seq<TransitionView>, transition: TransitionView)
    requires
        ascending(sorted),
    ensures
        ascending(placed(sorted, transition)),
        placed(sorted, transition).to_multiset() == sorted.to_multiset().insert(transition),
        placed(sorted, transition).len() == sorted.len() + 1,
    decreases sorted.len(),
{
    broadcast use vstd::seq_lib::group_to_multiset_ensures;

    if sorted.len() > 0 && sorted.last().gain > transition.gain {
        let front = sorted.drop_last();
        lemma_placed(front, transition);
        assert(front.push(sorted.last()) == sorted);
        let inner = placed(front, transition);
        let whole = inner.push(sorted.last());
        assert forall|i: int, j: int| 0 <= i < j < whole.len() implies (#[trigger] whole[i]).gain
            <= (#[trigger] whole[j]).gain by {
            if j == whole.len() - 1 {
                // What stands before the last is the new transition or
                // comes from the front, and neither gains more.
                assert(inner.to_multiset().count(inner[i]) > 0);
                if inner[i] != transition {
                    assert(front.contains(inner[i]));
                }
            }
        }
    }
}

/// Ranking gives an ascending list of the very same transitions, each as
/// often as it came.
pub proof fn lemma_ranked(transitions: Seq<TransitionView>)
    ensures
        ascending(ranked(transitions)),
        ranked(transitions).to_multiset() == transitions.to_multiset(),
        ranked(transitions).len() == transitions.len(),
    decreases transitions.len(),
{
    broadcast use vstd::seq_lib::group_to_multiset_ensures;

    if transitions.len() > 0 {
        lemma_ranked(transitions.drop_last());
        lemma_placed(ranked(transitions.drop_last()), transitions.last());
        assert(transitions.drop_last().push(transitions.last()) == transitions);
    }
}

/// The transitions by ascending gain, those of equal gain in the order in
/// which they came.
pub fn rank(transitions: Vec<Transition>) -> (sorted: Vec<Transition>)
    ensures
        transition_views(sorted@) == ranked(transition_views(transitions@)),
        ascending(transition_views(sorted@)),
        transition_views(sorted@).to_multiset() == transition_views(transitions@).to_multiset(),
{
    let ghost all = transition_views(transitions@);
    let mut sorted: Vec<Transition> = Vec::new();
    for transition in it: transitions
        invariant
            it.seq() == transitions@,
            all == transition_views(transitions@),
            transition_views(sorted@) == ranked(all.take(it.index())),
    {
        let ghost before = transition_views(sorted@);
        let mut place = sorted.len();
        while place > 0 && sorted[place - 1].gain > transition.gain
            invariant
                place <= sorted.len(),
                before == transition_views(sorted@),
                forall|k: int|
                    place <= k < before.len() ==> (#[trigger] before[k]).gain > transition.gain,
            decreases place,
        {
            place = place - 1;
        }
        proof {
            lemma_placed_at(before, transition@, place as int);
            assert(all.take(it.index() + 1).drop_last() == all.take(it.index()));
        }
        sorted.insert(place, transition);
    }
    proof {
        assert(all.take(all.len() as int) == all);
        lemma_ranked(all);
    }
    sorted
}

/// The character for a digit.
pub open spec fn digit(d: int) -> char {
    if d == 0 {
        '0'
    } else if d == 1 {
        '1'
    } else if d == 2 {
        '2'
    } else if d == 3 {
        '3'
    } else if d == 4 {
        '4'
    } else if d == 5 {
        '5'
    } else if d == 6 {
        '6'
    } else if d == 7 {
        '7'
    } else if d == 8 {
        '8'
    } else {
        '9'
    }
}

/// A natural number in decimal, without leading zeros.
pub open spec fn decimal(n: nat) -> Seq<char>
    decreases n,
{
    if n < 10 {
        seq![digit(n as int)]
    } else {
        decimal(n / 10).push(digit((n % 10) as int))
    }
}

/// A gain in ten-thousandths as a number of hundredths with two decimals:
/// 1500 reads `15.00`. A loss reads the same behind a minus sign.
pub open spec fn percent(gain: int) -> Seq<char> {
    let size = if gain < 0 {
        -gain
    } else {
        gain
    };
    let sign = if gain < 0 {
        seq!['-']
    } else {
        Seq::empty()
    };
    sign + decimal((size / 100) as nat) + seq!['.', digit(size % 100 / 10), digit(size % 10)]
}

/// The line printed for a transition.
pub open spec fn line(transition: TransitionView) -> Seq<char> {
    transition.description + ": +"@ + percent(transition.gain)
}

/// The transitions of a list that gain, in the order of the list.
pub open spec fn gaining(transitions: Seq<TransitionView>) -> Seq<TransitionView>
    decreases transitions.len(),
{
    if transitions.len() == 0 {
        Seq::empty()
    } else if transitions.last().gain > 0 {
        gaining(transitions.drop_last()).push(transitions.last())
    } else {
        gaining(transitions.drop_last())
    }
}

/// The lines printed for a list of transitions: one for each transition
/// that gains, in the order of the list.
pub open spec fn printed(transitions: Seq<TransitionView>) -> Seq<Seq<char>> {
    gaining(transitions).map_values(|transition: TransitionView| line(transition))
}

/// Every transition that is printed gains and comes from the list, and
/// what is printed of an ascending list is ascending.
pub proof fn lemma_gaining(transitions: Seq<TransitionView>)
    ensures
        all_gain(gaining(transitions)),
        forall|i: int|
            0 <= i < gaining(transitions).len() ==> transitions.contains(
                #[trigger] gaining(transitions)[i],
            ),
        ascending(transitions) ==> ascending(gaining(transitions)),
    decreases transitions.len(),
{
    if transitions.len() > 0 {
        let front = transitions.drop_last();
        let kept = gaining(front);
        lemma_gaining(front);
        assert forall|i: int| 0 <= i < kept.len() implies transitions.contains(
            #[trigger] kept[i],
        ) by {
            let k = choose|k: int| 0 <= k < front.len() && front[k] == kept[i];
        }
        if ascending(transitions) {
            assert(ascending(front)) by {
                assert forall|i: int, j: int| 0 <= i < j < front.len() implies (
                #[trigger] front[i]).gain <= (#[trigger] front[j]).gain by {
                }
            }
            assert forall|i: int| 0 <= i < kept.len() implies (#[trigger] kept[i]).gain
                <= transitions.last().gain by {
                let k = choose|k: int| 0 <= k < front.len() && front[k] == kept[i];
            }
        }
    }
}

/// What is printed of any list of transitions is a line for each
/// transition of the list that gains, every such transition as often as it
/// came, by ascending gain.
pub proof fn lemma_printed_in_order(transitions: Seq<TransitionView>)
    ensures
        ascending(gaining(ranked(transitions))),
        all_gain(gaining(ranked(transitions))),
        ranked(transitions).to_multiset() == transitions.to_multiset(),
        printed(ranked(transitions)).len() == gaining(ranked(transitions)).len(),
        forall|i: int|
            0 <= i < gaining(ranked(transitions)).len() ==> #[trigger] printed(
                ranked(transitions),
            )[i] == line(gaining(ranked(transitions))[i]),
{
    lemma_ranked(transitions);
    lemma_gaining(ranked(transitions));
}

/// The texts of a list of lines.
pub open spec fn line_views(lines: Seq<String>) -> Seq<Seq<char>> {
    lines.map_values(|line: String| line@)
}

/// The digit `d` as text.
fn digit_text(d: u128) -> (text: &'static str)
    requires
        d < 10,
    ensures
        text@ == seq![digit(d as int)],
{
    proof {
        reveal_strlit("0");
        reveal_strlit("1");
        reveal_strlit("2");
        reveal_strlit("3");
        reveal_strlit("4");
        reveal_strlit("5");
        reveal_strlit("6");
        reveal_strlit("7");
        reveal_strlit("8");
        reveal_strlit("9");
    }
    if d == 0 {
        "0"
    } else if d == 1 {
        "1"
    } else if d == 2 {
        "2"
    } else if d == 3 {
        "3"
    } else if d == 4 {
        "4"
    } else if d == 5 {
        "5"
    } else if d == 6 {
        "6"
    } else if d == 7 {
        "7"
    } else if d == 8 {
        "8"
    } else {
        "9"
    }
}

/// Appends `n` in decimal to `text`.
fn append_decimal(text: &mut String, n: u128)
    ensures
        final(text)@ == old(text)@ + decimal(n as nat),
    decreases n,
{
    if n >= 10 {
        append_decimal(text, n / 10);
    }
    text.append(digit_text(n % 10));
}

impl Transition {
    /// The line to print for this transition: its description and its gain
    /// in hundredths with two decimals.
    pub fn render(&self) -> (text: String)
        ensures
            text@ == line(self@),
    {
        let mut text = self.description.clone();
        text.append(": +");
        let size: u128 = if self.gain < 0 {
            proof {
                reveal_strlit("-");
            }
            text.append("-");
            ((-(self.gain + 1)) as u128) + 1
        } else {
            self.gain as u128
        };
        append_decimal(&mut text, size / 100);
        proof {
            reveal_strlit(".");
        }
        text.append(".");
        text.append(digit_text(size % 100 / 10));
        text.append(digit_text(size % 10));
        text
    }
}

/// The lines to print for a list of proposals: the transitions by
/// ascending gain, and of those a line for each that gains.
pub fn report(transitions: Vec<Transition>) -> (lines: Vec<String>)
    ensures
        line_views(lines@) == printed(ranked(transition_views(transitions@))),
{
    let sorted = rank(transitions);
    let ghost all = transition_views(sorted@);
    let mut lines: Vec<String> = Vec::new();
    let mut i: usize = 0;
    while i < sorted.len()
        invariant
            i <= sorted.len(),
            all == transition_views(sorted@),
            line_views(lines@) == printed(all.take(i as int)),
        decreases sorted.len() - i,
    {
        proof {
            assert(all.take(i + 1).drop_last() == all.take(i as int));
        }
        if sorted[i].gain > 0 {
            let ghost before = line_views(lines@);
            let text = sorted[i].render();
            lines.push(text);
            proof {
                assert(before.push(text@) =~= printed(all.take(i + 1)));
            }
        }
        i = i + 1;
    }
    proof {
        assert(all.take(i as int) == all);
    }
    lines
}

} // verus!
