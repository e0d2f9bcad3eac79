use blackjack::card::{Card, Rank, Suit};
use blackjack::render::ProfitRow::{Bar, Blank, Label, LabelContinued};
use blackjack::render::{deck_gauge_rows, hand_as_string, profit_gauge_rows};

#[test]
fn compact_hand_is_one_card_per_line() {
    let mut hidden = Card::new(Suit::Club, Rank::Nine);
    hidden.conceal();
    let hand = vec![hidden, Card::new(Suit::Heart, Rank::Four)];
    assert_eq!(hand_as_string(&hand, true), "?\nFour of ♥\n");
}

#[test]
fn empty_hand_is_empty_text() {
    assert_eq!(hand_as_string(&Vec::new(), true), "");
    assert_eq!(hand_as_string(&Vec::new(), false), "");
}

#[test]
fn faces_come_two_to_a_row() {
    let hand = vec![
        Card::new(Suit::Spade, Rank::Ace),
        Card::new(Suit::Heart, Rank::Two),
        Card::new(Suit::Club, Rank::King),
    ];
    let expected = "┌───────┐ ┌───────┐\n\
                    │A      │ │2      │\n\
                    │       │ │   ♥   │\n\
                    │   ♠   │ │       │\n\
                    │       │ │   ♥   │\n\
                    │      A│ │      2│\n\
                    └───────┘ └───────┘\n\
                    ┌───────┐\n\
                    │K      │\n\
                    │ ♣     │\n\
                    │       │\n\
                    │     ♣ │\n\
                    │      K│\n\
                    └───────┘\n";
    assert_eq!(hand_as_string(&hand, false), expected);
}

#[test]
fn deck_gauge_fills_from_the_bottom() {
    assert_eq!(deck_gauge_rows(52, 4), vec![false, false, false, true]);
    assert_eq!(deck_gauge_rows(104, 4), vec![false, true, true, true]);
    assert_eq!(deck_gauge_rows(0, 3), vec![false, false, false]);
    assert!(deck_gauge_rows(10, 0).is_empty());
}

#[test]
fn profit_gauge_bars_above_label_when_ahead() {
    assert_eq!(profit_gauge_rows(200, 7), vec![Blank, Bar, Bar, Label, Blank, Blank, Blank]);
    assert_eq!(profit_gauge_rows(250, 8), vec![Blank, Bar, Bar, Label, LabelContinued, Blank, Blank, Blank]);
}

#[test]
fn profit_gauge_bars_below_label_when_behind() {
    assert_eq!(profit_gauge_rows(-100, 8), vec![Blank, Blank, Blank, Label, LabelContinued, Bar, Blank, Blank]);
    assert_eq!(profit_gauge_rows(-299, 7), vec![Blank, Blank, Blank, Label, Bar, Bar, Blank]);
    assert_eq!(profit_gauge_rows(-99, 5), vec![Blank, Blank, Label, Blank, Blank]);
}

#[test]
fn profit_gauge_at_zero_shows_only_label() {
    assert_eq!(profit_gauge_rows(0, 5), vec![Blank, Blank, Label, Blank, Blank]);
    assert_eq!(profit_gauge_rows(i64::MIN, 3), vec![Blank, Label, Bar]);
}
