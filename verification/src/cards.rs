//! Playing cards and the hand arithmetic of the card game built on them:
//! the deck, the rank values with the ace worth one when eleven would
//! bust, and a shuffle that provably keeps the deck's contents.

use rand::seq::SliceRandom;
use vstd::prelude::*;

verus! {

/// A card's suite.
#[derive(Debug, Clone, Copy, PartialEq, Eq, Structural)]
pub enum Suite {
    Hearts,
    Diamonds,
    Clubs,
    Spades,
}

/// A card's rank: a pip value, a face, or the ace.
#[derive(Debug, Clone, Copy, PartialEq, Eq, Structural)]
pub enum Rank {
    Pip(u8),
    Jack,
    King,
    Queen,
    Ace,
}

/// One playing card.
#[derive(Debug, Clone, Copy, PartialEq, Eq, Structural)]
pub struct Card {
    pub suite: Suite,
    pub rank: Rank,
}

/// The suite at an index of the fixed suite order.
pub open spec fn suite_of_index(i: int) -> Suite {
    if i == 0 {
        Suite::Hearts
    } else if i == 1 {
        Suite::Diamonds
    } else if i == 2 {
        Suite::Clubs
    } else {
        Suite::Spades
    }
}

/// The rank at an index of the fixed rank order: pips two to ten, then
/// jack, king, queen, ace.
pub open spec fn rank_of_index(i: int) -> Rank {
    if 0 <= i < 9 {
        Rank::Pip((i + 2) as u8)
    } else if i == 9 {
        Rank::Jack
    } else if i == 10 {
        Rank::King
    } else if i == 11 {
        Rank::Queen
    } else {
        Rank::Ace
    }
}

/// The full deck, rank by rank and suite by suite within each rank.
pub open spec fn spec_deck() -> Seq<Card> {
    Seq::new(52, |i: int| Card { suite: suite_of_index(i % 4), rank: rank_of_index(i / 4) })
}

impl Suite {
    /// The four suites in their fixed order.
    pub fn suites() -> (r: Vec<Suite>)
        ensures
            r@.len() == 4,
            forall|i: int| 0 <= i < 4 ==> r@[i] == suite_of_index(i),
    {
        let v = vec![Suite::Hearts, Suite::Diamonds, Suite::Clubs, Suite::Spades];
        v
    }
}

impl Rank {
    /// The thirteen ranks in their fixed order.
    pub fn ranks() -> (r: Vec<Rank>)
        ensures
            r@.len() == 13,
            forall|i: int| 0 <= i < 13 ==> r@[i] == rank_of_index(i),
    {
        let v = vec![
            Rank::Pip(2),
            Rank::Pip(3),
            Rank::Pip(4),
            Rank::Pip(5),
            Rank::Pip(6),
            Rank::Pip(7),
            Rank::Pip(8),
            Rank::Pip(9),
            Rank::Pip(10),
            Rank::Jack,
            Rank::King,
            Rank::Queen,
            Rank::Ace,
        ];
        v
    }

    /// How a rank counts toward a hand: its pips, ten for a face, and for
    /// the ace eleven, or one when eleven would bust the hand.
    pub open spec fn spec_value(self, ace_would_bust: bool) -> u8 {
        match self {
            Rank::Ace => if ace_would_bust {
                1
            } else {
                11
            },
            Rank::Pip(n) => n,
            Rank::Jack => 10,
            Rank::King => 10,
            Rank::Queen => 10,
        }
    }

    /// The rank's count toward a hand.
    pub fn value(&self, ace_would_bust: bool) -> (r: u8)
        ensures
            r == self.spec_value(ace_would_bust),
    {
        match self {
            Rank::Ace => if ace_would_bust {
                1
            } else {
                11
            },
            Rank::Pip(n) => *n,
            Rank::Jack => 10,
            Rank::King => 10,
            Rank::Queen => 10,
        }
    }
}

impl Card {
    /// A card of the given suite and rank.
    pub fn new(suite: Suite, rank: Rank) -> (r: Card)
        ensures
            r == (Card { suite, rank }),
    {
        Card { suite, rank }
    }

    /// The card's count toward a hand.
    pub fn value(&self, ace_would_bust: bool) -> (r: u8)
        ensures
            r == self.rank.spec_value(ace_would_bust),
    {
        self.rank.value(ace_would_bust)
    }

    /// The full 52-card deck in its fixed order.
    pub fn deck() -> (r: Vec<Card>)
        ensures
            r@ == spec_deck(),
    {
        let suites = Suite::suites();
        let ranks = Rank::ranks();
        let mut out: Vec<Card> = Vec::new();
        let mut ri: usize = 0;
        while ri < 13
            invariant
                ri <= 13,
                suites@.len() == 4,
                forall|i: int| 0 <= i < 4 ==> suites@[i] == suite_of_index(i),
                ranks@.len() == 13,
                forall|i: int| 0 <= i < 13 ==> ranks@[i] == rank_of_index(i),
                out@.len() == 4 * ri,
                out@ == spec_deck().take(4 * ri),
            decreases 13 - ri,
        {
            let mut si: usize = 0;
            while si < 4
                invariant
                    ri < 13,
                    si <= 4,
                    suites@.len() == 4,
                    forall|i: int| 0 <= i < 4 ==> suites@[i] == suite_of_index(i),
                    ranks@.len() == 13,
                    forall|i: int| 0 <= i < 13 ==> ranks@[i] == rank_of_index(i),
                    out@.len() == 4 * ri + si,
                    out@ == spec_deck().take(4 * ri + si),
                decreases 4 - si,
            {
                out.push(Card::new(suites[si], ranks[ri]));
                proof {
                    let k = 4 * (ri as int) + si;
                    assert((4 * (ri as int) + si) % 4 == si && (4 * (ri as int) + si) / 4
                        == ri as int) by (nonlinear_arith)
                        requires
                            0 <= ri < 13 && 0 <= si < 4,
                    ;
                    assert(spec_deck()[k] == (Card {
                        suite: suite_of_index(si as int),
                        rank: rank_of_index(ri as int),
                    }));
                    assert(out@ =~= spec_deck().take(k + 1));
                }
                si = si + 1;
            }
            ri = ri + 1;
        }
        proof {
            assert(spec_deck().take(52) =~= spec_deck());
        }
        out
    }
}

/// How a hand counts: cards in order, each adding its value, with an ace
/// counting one exactly when eleven would take the running count past
/// twenty-one.
pub open spec fn spec_hand_value(s: Seq<Card>, acc: int) -> int
    decreases s.len(),
{
    if s.len() == 0 {
        acc
    } else {
        spec_hand_value(s.drop_first(), acc + s[0].rank.spec_value(acc + 11 > 21))
    }
}

/// Count a hand of at most one deck's worth of cards.
pub fn hand_value(cards: &Vec<Card>) -> (r: u32)
    requires
        cards@.len() <= 52,
    ensures
        r == spec_hand_value(cards@, 0),
{
    let mut acc: u32 = 0;
    let mut i: usize = 0;
    proof {
        assert(cards@.skip(0) =~= cards@);
    }
    while i < cards.len()
        invariant
            i <= cards@.len() <= 52,
            acc <= 255 * i,
            spec_hand_value(cards@, 0) == spec_hand_value(cards@.skip(i as int), acc as int),
        decreases cards@.len() - i,
    {
        let c = &cards[i];
        proof {
            assert(cards@.skip(i as int)[0] == cards@[i as int]);
            assert(cards@.skip(i as int).drop_first() =~= cards@.skip(i + 1));
        }
        acc = acc + c.value(acc + 11 > 21) as u32;
        i = i + 1;
    }
    proof {
        assert(cards@.skip(cards@.len() as int) =~= Seq::<Card>::empty());
    }
    acc
}

/// Relies on `rand`'s `SliceRandom::shuffle`: a Fisher-Yates shuffle that
/// permutes the slice in place, so the cards afterwards are exactly the
/// cards before, in some order.
#[verifier::external_body]
fn shuffle_cards(cards: &mut Vec<Card>)
    ensures
        final(cards)@.to_multiset() == old(cards)@.to_multiset(),
{
    cards.shuffle(&mut rand::rng());
}

/// A full deck in a fresh random order: the same fifty-two cards, however
/// they land.
pub fn shuffled_deck() -> (r: Vec<Card>)
    ensures
        r@.to_multiset() == spec_deck().to_multiset(),
{
    let mut deck = Card::deck();
    shuffle_cards(&mut deck);
    deck
}

} // verus!
