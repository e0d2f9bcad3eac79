use blackjack::card::{Card, Rank, Suit, DECK_SIZE};

const SUITS: [Suit; 4] = [Suit::Club, Suit::Diamond, Suit::Heart, Suit::Spade];
const RANKS: [Rank; 13] = [
    Rank::Ace,
    Rank::Two,
    Rank::Three,
    Rank::Four,
    Rank::Five,
    Rank::Six,
    Rank::Seven,
    Rank::Eight,
    Rank::Nine,
    Rank::Ten,
    Rank::Jack,
    Rank::Queen,
    Rank::King,
];

#[test]
fn card_values_follow_rank() {
    let expected = [11, 2, 3, 4, 5, 6, 7, 8, 9, 10, 10, 10, 10];
    for (rank, value) in RANKS.iter().zip(expected.iter()) {
        assert_eq!(Card::new(Suit::Heart, *rank).value(), *value);
    }
}

#[test]
fn only_aces_are_aces() {
    for rank in RANKS.iter() {
        assert_eq!(Card::new(Suit::Club, *rank).is_ace(), *rank == Rank::Ace);
    }
}

#[test]
fn concealing_changes_only_the_face() {
    let mut card = Card::new(Suit::Spade, Rank::King);
    assert!(!card.hidden);
    card.conceal();
    assert!(card.hidden);
    assert_eq!(card.value(), 10);
    assert_eq!(card.rank, Rank::King);
    assert_eq!(card.suit, Suit::Spade);
    card.show();
    assert!(!card.hidden);
}

#[test]
fn two_deck_shoe_holds_each_card_twice() {
    let deck = Card::generate_deck(2);
    assert_eq!(deck.len(), 104);
    for suit in SUITS.iter() {
        for rank in RANKS.iter() {
            let copies = deck.iter().filter(|c| c.suit == *suit && c.rank == *rank).count();
            assert_eq!(copies, 2);
        }
    }
    assert!(deck.iter().all(|c| !c.hidden));
}

#[test]
fn shoe_lists_suit_by_suit_with_copies_together() {
    let deck = Card::generate_deck(2);
    assert_eq!(deck[0].suit, Suit::Diamond);
    assert_eq!(deck[0].rank, Rank::Ace);
    assert_eq!(deck[1].rank, Rank::Ace);
    assert_eq!(deck[2].rank, Rank::Two);
    assert_eq!(deck[26].suit, Suit::Heart);
    assert_eq!(deck[52].suit, Suit::Club);
    assert_eq!(deck[103].suit, Suit::Spade);
    assert_eq!(deck[103].rank, Rank::King);
}

#[test]
fn single_deck_and_empty_shoe() {
    assert_eq!(Card::generate_deck(1).len(), DECK_SIZE);
    assert!(Card::generate_deck(0).is_empty());
}

#[test]
fn compact_text_names_rank_and_suit() {
    assert_eq!(Card::new(Suit::Spade, Rank::Ace).as_compact_string(), "Ace of ♠");
    assert_eq!(Card::new(Suit::Heart, Rank::Ten).as_compact_string(), "Ten of ♥");
    assert_eq!(Card::new(Suit::Club, Rank::Queen).as_compact_string(), "Queen of ♣");
    assert_eq!(Card::new(Suit::Diamond, Rank::Seven).as_compact_string(), "Seven of ♦");
}

#[test]
fn hidden_card_reads_as_question_mark() {
    let mut card = Card::new(Suit::Spade, Rank::Ace);
    card.conceal();
    assert_eq!(card.as_compact_string(), "?");
    let lines = card.as_art_string_lines();
    assert_eq!(
        lines,
        vec![
            "┌───────┐",
            "│       │",
            "│       │",
            "│   ?   │",
            "│       │",
            "│       │",
            "└───────┘",
        ]
    );
}

#[test]
fn art_of_seven_of_hearts() {
    let lines = Card::new(Suit::Heart, Rank::Seven).as_art_string_lines();
    assert_eq!(
        lines,
        vec![
            "┌───────┐",
            "│7 ♥ ♥  │",
            "│   ♥   │",
            "│       │",
            "│  ♥ ♥  │",
            "│  ♥ ♥ 7│",
            "└───────┘",
        ]
    );
}

#[test]
fn art_of_ten_and_jack() {
    let ten = Card::new(Suit::Club, Rank::Ten).as_art_string_lines();
    assert_eq!(ten[1], "│1 ♣ ♣  │");
    assert_eq!(ten[2], "│0 ♣ ♣  │");
    assert_eq!(ten[3], "│  ♣ ♣  │");
    assert_eq!(ten[4], "│  ♣ ♣ 1│");
    assert_eq!(ten[5], "│  ♣ ♣ 0│");
    let jack = Card::new(Suit::Diamond, Rank::Jack).as_art_string_lines();
    assert_eq!(
        jack,
        vec![
            "┌───────┐",
            "│J      │",
            "│ ♦     │",
            "│       │",
            "│     ♦ │",
            "│      J│",
            "└───────┘",
        ]
    );
}

#[test]
fn every_face_is_seven_lines() {
    for suit in SUITS.iter() {
        for rank in RANKS.iter() {
            let lines = Card::new(*suit, *rank).as_art_string_lines();
            assert_eq!(lines.len(), 7);
            assert!(lines.iter().all(|l| l.chars().count() == 9));
        }
    }
}
