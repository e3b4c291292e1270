//! Card tests: the deck, rank values, and hand counting.

use lamm_core::cards::{hand_value, shuffled_deck, Card, Rank, Suite};
use lamm_core::common::BigBirbError;

#[test]
fn deck_has_every_card_once() {
    let deck = Card::deck();
    assert_eq!(deck.len(), 52);
    for rank in Rank::ranks() {
        for suite in Suite::suites() {
            assert_eq!(
                deck.iter().filter(|c| **c == Card::new(suite, rank)).count(),
                1
            );
        }
    }
}

#[test]
fn rank_values() {
    assert_eq!(Rank::Pip(7).value(false), 7);
    assert_eq!(Rank::Jack.value(false), 10);
    assert_eq!(Rank::King.value(true), 10);
    assert_eq!(Rank::Queen.value(false), 10);
    assert_eq!(Rank::Ace.value(false), 11);
    assert_eq!(Rank::Ace.value(true), 1);
    assert_eq!(Card::new(Suite::Hearts, Rank::Ace).value(true), 1);
}

#[test]
fn hand_counting_adjusts_aces() {
    let hand = vec![
        Card::new(Suite::Hearts, Rank::Ace),
        Card::new(Suite::Spades, Rank::King),
    ];
    assert_eq!(hand_value(&hand), 21);
    let hand = vec![
        Card::new(Suite::Hearts, Rank::King),
        Card::new(Suite::Spades, Rank::Queen),
        Card::new(Suite::Clubs, Rank::Ace),
    ];
    assert_eq!(hand_value(&hand), 21);
    let hand = vec![
        Card::new(Suite::Hearts, Rank::Ace),
        Card::new(Suite::Spades, Rank::Ace),
    ];
    // Eleven, then one: the second ace would bust.
    assert_eq!(hand_value(&hand), 12);
    assert_eq!(hand_value(&vec![]), 0);
}

#[test]
fn shuffling_keeps_the_cards() {
    let deck = shuffled_deck();
    assert_eq!(deck.len(), 52);
    for rank in Rank::ranks() {
        for suite in Suite::suites() {
            assert_eq!(
                deck.iter().filter(|c| **c == Card::new(suite, rank)).count(),
                1
            );
        }
    }
}

#[test]
fn guild_only_message() {
    assert_eq!(
        BigBirbError::GuildOnly.message(),
        "This command must be run inside of a guild."
    );
}
