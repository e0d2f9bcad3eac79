use blackjack::card::{Card, Rank, Suit};
use blackjack::game::{hand_value, Game, Input, State, Winner, BET, PLAYING_DECK_SIZE};

fn hand(ranks: &[Rank]) -> Vec<Card> {
    ranks.iter().map(|r| Card::new(Suit::Heart, *r)).collect()
}

/// A deck that deals `top_first` in that order, above thirty filler cards.
fn stacked(top_first: &[Rank]) -> Vec<Card> {
    let mut deck: Vec<Card> = (0..30).map(|_| Card::new(Suit::Club, Rank::Six)).collect();
    for rank in top_first.iter().rev() {
        deck.push(Card::new(Suit::Spade, *rank));
    }
    deck
}

fn ranks(cards: &[Card]) -> Vec<Rank> {
    cards.iter().map(|c| c.rank).collect()
}

#[test]
fn two_aces_and_nine_make_twenty_one() {
    assert_eq!(hand_value(&hand(&[Rank::Ace, Rank::Ace, Rank::Nine])), 21);
}

#[test]
fn ace_king_is_twenty_one() {
    assert_eq!(hand_value(&hand(&[Rank::Ace, Rank::King])), 21);
}

#[test]
fn ten_nine_five_stays_bust() {
    assert_eq!(hand_value(&hand(&[Rank::Ten, Rank::Nine, Rank::Five])), 24);
}

#[test]
fn soft_totals_and_edges() {
    assert_eq!(hand_value(&Vec::new()), 0);
    assert_eq!(hand_value(&hand(&[Rank::Ace])), 11);
    assert_eq!(hand_value(&hand(&[Rank::Ace, Rank::Ace])), 12);
    assert_eq!(hand_value(&hand(&[Rank::Ace, Rank::Ace, Rank::Ace, Rank::Ace])), 14);
    assert_eq!(hand_value(&hand(&[Rank::Ace, Rank::Six, Rank::King])), 17);
    assert_eq!(hand_value(&hand(&[Rank::Ace, Rank::Ace, Rank::King, Rank::King])), 22);
}

#[test]
fn new_game_waits_for_first_round() {
    let game = Game::new();
    assert!(game.state() == State::NewDeck);
    assert_eq!(game.deck_length(), 0);
    assert_eq!(game.profit(), 0);
    assert_eq!(game.bet(), BET);
    assert_eq!(game.bet(), 100);
    assert!(!game.compact_mode());
    assert!(game.my_hand().is_empty());
    assert!(game.dealer_hand().is_empty());
}

#[test]
fn deal_alternates_and_hides_dealer_first_card() {
    let mut game = Game::from_deck(stacked(&[Rank::Ten, Rank::Two, Rank::Eight, Rank::Three]));
    game.update(Input::Idle);
    assert!(game.state() == State::MyTurn);
    assert_eq!(ranks(game.my_hand()), vec![Rank::Ten, Rank::Eight]);
    assert_eq!(ranks(game.dealer_hand()), vec![Rank::Two, Rank::Three]);
    assert!(game.dealer_hand()[0].hidden);
    assert!(!game.dealer_hand()[1].hidden);
    assert_eq!(game.profit(), -100);
    assert_eq!(game.deck_length(), 30);
}

#[test]
fn push_round_leaves_profit_unchanged() {
    let mut game = Game::from_deck(stacked(&[Rank::Ten, Rank::Ten, Rank::Nine, Rank::Nine]));
    game.update(Input::Idle);
    assert_eq!(game.profit(), -100);
    game.update(Input::Stay);
    assert!(game.state() == State::Result(Winner::Push));
    assert_eq!(game.profit(), 0);
    assert!(!game.dealer_hand()[0].hidden);
}

#[test]
fn five_card_charlie_beats_dealer_twenty() {
    let mut game = Game::from_deck(stacked(&[
        Rank::Ace,
        Rank::Ten,
        Rank::Two,
        Rank::Queen,
        Rank::Three,
        Rank::Four,
        Rank::Five,
    ]));
    game.update(Input::Idle);
    game.update(Input::Hit);
    game.update(Input::Hit);
    assert!(game.state() == State::MyTurn);
    game.update(Input::Hit);
    assert_eq!(game.my_hand().len(), 5);
    assert_eq!(hand_value(game.my_hand()), 15);
    assert_eq!(hand_value(game.dealer_hand()), 20);
    assert!(game.state() == State::Result(Winner::Me));
    assert_eq!(game.profit(), 50);
}

#[test]
fn dealer_five_cards_beat_higher_player_total() {
    let mut game = Game::from_deck(stacked(&[
        Rank::Ten,
        Rank::Two,
        Rank::Eight,
        Rank::Three,
        Rank::Two,
        Rank::Two,
        Rank::Ace,
    ]));
    game.update(Input::Idle);
    game.update(Input::Stay);
    assert_eq!(game.dealer_hand().len(), 5);
    assert_eq!(
        ranks(game.dealer_hand()),
        vec![Rank::Two, Rank::Three, Rank::Two, Rank::Two, Rank::Ace]
    );
    assert_eq!(hand_value(game.dealer_hand()), 20);
    assert!(game.state() == State::Result(Winner::Dealer));
    assert_eq!(game.profit(), -100);
}

#[test]
fn dealer_stops_at_seventeen() {
    let mut game = Game::from_deck(stacked(&[
        Rank::Ten,
        Rank::Ten,
        Rank::Nine,
        Rank::Two,
        Rank::Five,
        Rank::King,
    ]));
    game.update(Input::Idle);
    game.update(Input::Stay);
    assert_eq!(ranks(game.dealer_hand()), vec![Rank::Ten, Rank::Two, Rank::Five]);
    assert_eq!(hand_value(game.dealer_hand()), 17);
    assert!(game.state() == State::Result(Winner::Me));
    assert_eq!(game.profit(), 50);
    assert_eq!(game.deck_length(), 31);
}

#[test]
fn dealer_bust_loses() {
    let mut game = Game::from_deck(stacked(&[
        Rank::Ten,
        Rank::Ten,
        Rank::Two,
        Rank::Six,
        Rank::King,
    ]));
    game.update(Input::Idle);
    game.update(Input::Stay);
    assert_eq!(hand_value(game.dealer_hand()), 26);
    assert!(game.state() == State::Result(Winner::Me));
}

#[test]
fn player_bust_ends_turn_and_loses() {
    let mut game = Game::from_deck(stacked(&[
        Rank::Ten,
        Rank::Ten,
        Rank::Nine,
        Rank::Seven,
        Rank::Five,
    ]));
    game.update(Input::Idle);
    game.update(Input::Hit);
    assert_eq!(hand_value(game.my_hand()), 24);
    assert!(game.state() == State::Result(Winner::Dealer));
    assert_eq!(game.profit(), -100);
}

#[test]
fn both_bust_is_a_push() {
    let mut game = Game::from_deck(stacked(&[
        Rank::Ten,
        Rank::Ten,
        Rank::Six,
        Rank::Six,
        Rank::King,
        Rank::Queen,
    ]));
    game.update(Input::Idle);
    game.update(Input::Hit);
    assert_eq!(hand_value(game.my_hand()), 26);
    assert_eq!(hand_value(game.dealer_hand()), 26);
    assert!(game.state() == State::Result(Winner::Push));
    assert_eq!(game.profit(), 0);
}

#[test]
fn hitting_to_twenty_one_settles() {
    let mut game = Game::from_deck(stacked(&[
        Rank::Ten,
        Rank::Ten,
        Rank::Six,
        Rank::Eight,
        Rank::Five,
    ]));
    game.update(Input::Idle);
    game.update(Input::Hit);
    assert_eq!(hand_value(game.my_hand()), 21);
    assert!(game.state() == State::Result(Winner::Me));
}

#[test]
fn blackjack_settles_at_the_deal() {
    let mut game = Game::from_deck(stacked(&[Rank::Ace, Rank::Nine, Rank::King, Rank::Nine]));
    game.update(Input::Idle);
    assert!(game.state() == State::Result(Winner::Me));
    assert!(!game.dealer_hand()[0].hidden);
    assert_eq!(game.dealer_hand().len(), 2);
    assert_eq!(game.profit(), 50);
}

#[test]
fn inputs_outside_their_state_do_nothing() {
    let mut game = Game::from_deck(stacked(&[Rank::Ten, Rank::Two, Rank::Eight, Rank::Three]));
    game.update(Input::Idle);
    game.update(Input::New);
    game.update(Input::Idle);
    assert!(game.state() == State::MyTurn);
    assert_eq!(game.my_hand().len(), 2);
    assert_eq!(game.deck_length(), 30);
    game.update(Input::Stay);
    let settled = game.state();
    let profit = game.profit();
    game.update(Input::Hit);
    game.update(Input::Stay);
    game.update(Input::Idle);
    assert!(game.state() == settled);
    assert_eq!(game.profit(), profit);
}

#[test]
fn display_toggle_changes_nothing_else() {
    let mut game = Game::from_deck(stacked(&[Rank::Ten, Rank::Two, Rank::Eight, Rank::Three]));
    game.update(Input::CompactMode);
    assert!(game.compact_mode());
    assert!(game.state() == State::NewDeck);
    assert_eq!(game.deck_length(), 34);
    game.update(Input::Idle);
    game.update(Input::CompactMode);
    assert!(!game.compact_mode());
    assert!(game.state() == State::MyTurn);
    assert_eq!(game.my_hand().len(), 2);
}

#[test]
fn new_round_reuses_a_long_deck() {
    let mut game = Game::from_deck(stacked(&[
        Rank::Ten,
        Rank::Ten,
        Rank::Nine,
        Rank::Nine,
        Rank::Eight,
        Rank::Seven,
        Rank::Six,
        Rank::Five,
    ]));
    game.update(Input::Idle);
    game.update(Input::Stay);
    assert_eq!(game.profit(), 0);
    game.update(Input::New);
    assert_eq!(ranks(game.my_hand()), vec![Rank::Eight, Rank::Six]);
    assert_eq!(ranks(game.dealer_hand()), vec![Rank::Seven, Rank::Five]);
    assert_eq!(game.deck_length(), 30);
    assert_eq!(game.profit(), -100);
}

#[test]
fn short_deck_is_replaced_by_a_full_shoe() {
    let short: Vec<Card> = (0..25).map(|_| Card::new(Suit::Club, Rank::Six)).collect();
    let mut game = Game::from_deck(short);
    game.update(Input::Idle);
    let in_play = game.deck_length() + game.my_hand().len() + game.dealer_hand().len();
    assert_eq!(in_play, PLAYING_DECK_SIZE);
    assert_eq!(in_play, 104);
}

#[test]
fn deck_of_twenty_six_is_kept() {
    let deck: Vec<Card> = (0..26).map(|_| Card::new(Suit::Club, Rank::Six)).collect();
    let mut game = Game::from_deck(deck);
    game.update(Input::Idle);
    assert_eq!(game.deck_length(), 22);
}

#[test]
fn first_shoe_is_full_and_shuffled() {
    let mut unshuffled_deals = 0;
    for _ in 0..5 {
        let mut game = Game::new();
        game.update(Input::Idle);
        let in_play = game.deck_length() + game.my_hand().len() + game.dealer_hand().len();
        assert_eq!(in_play, 104);
        // An unshuffled shoe would deal two kings and two queens of spades.
        let all_spades = game
            .my_hand()
            .iter()
            .chain(game.dealer_hand().iter())
            .take(4)
            .all(|c| c.suit == Suit::Spade && (c.rank == Rank::King || c.rank == Rank::Queen));
        if all_spades {
            unshuffled_deals += 1;
        }
    }
    assert!(unshuffled_deals < 5);
}
