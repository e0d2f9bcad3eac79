use rand::rngs::ThreadRng;
use rand::seq::SliceRandom;
use vstd::prelude::*;

use crate::card::{rank_value, standard_shoe, Card, Rank, DECK_SIZE};

verus! {

/// Decks in the shoe.
pub const NUMBER_OF_DECKS: usize = 2;

/// Cards in a full shoe.
pub const PLAYING_DECK_SIZE: usize = DECK_SIZE * NUMBER_OF_DECKS;

/// A round starts from a fresh shoe when fewer cards than this are left.
pub const RESHUFFLE_THRESHOLD: usize = 26;

/// Most cards a hand can hold.
pub const MAX_HAND: usize = 5;

/// The wager placed on each round.
pub const BET: i64 = 100;

#[derive(Clone, Copy, Debug, PartialEq, Eq, Structural)]
pub enum Input {
    /// No key that the game reacts to.
    Idle,
    Hit,
    Stay,
    New,
    CompactMode,
}

/// Who took a settled round.
#[derive(Clone, Copy, Debug, PartialEq, Eq, Structural)]
pub enum Winner {
    Push,
    Me,
    Dealer,
}

#[derive(Clone, Copy, Debug, PartialEq, Eq, Structural)]
pub enum State {
    NewDeck,
    MyTurn,
    Result(Winner),
}

/// Sum of the cards' points, each ace counted as 11.
pub open spec fn raw_sum(hand: Seq<Card>) -> int
    decreases hand.len(),
{
    if hand.len() == 0 {
        0
    } else {
        raw_sum(hand.drop_last()) + rank_value(hand.last().rank)
    }
}

/// Number of aces in a hand.
pub open spec fn ace_count(hand: Seq<Card>) -> nat
    decreases hand.len(),
{
    if hand.len() == 0 {
        0
    } else {
        ace_count(hand.drop_last()) + if hand.last().rank == Rank::Ace {
            1nat
        } else {
            0nat
        }
    }
}

/// Counts one more ace as 1 instead of 11 while the total is over 21 and
/// an ace is left to count low.
pub open spec fn soft_total(total: int, aces: nat) -> int
    decreases aces,
{
    if total > 21 && aces > 0 {
        soft_total(total - 10, (aces - 1) as nat)
    } else {
        total
    }
}

/// The blackjack total of a hand, with soft aces.
pub open spec fn hand_total(hand: Seq<Card>) -> int {
    soft_total(raw_sum(hand), ace_count(hand))
}

/// The total used to compare hands: a bust counts as -1.
pub open spec fn score(hand: Seq<Card>) -> int {
    if hand_total(hand) > 21 {
        -1
    } else {
        hand_total(hand)
    }
}

/// The card with its face-down flag set to `hidden`.
pub open spec fn with_hidden(card: Card, hidden: bool) -> Card {
    Card { hidden, ..card }
}

/// The dealer's draws: from the top (the end) of `deck` while the dealer's
/// total is under 17 and the hand holds fewer than five cards. Gives the
/// dealer's hand and what is left of the deck.
pub open spec fn dealer_play(dealer: Seq<Card>, deck: Seq<Card>) -> (Seq<Card>, Seq<Card>)
    decreases deck.len(),
{
    if hand_total(dealer) < 17 && dealer.len() < MAX_HAND && deck.len() > 0 {
        dealer_play(dealer.push(deck.last()), deck.drop_last())
    } else {
        (dealer, deck)
    }
}

/// Who takes the round, with the five-card rule ahead of the totals.
pub open spec fn outcome(player: Seq<Card>, dealer: Seq<Card>) -> Winner {
    let p = score(player);
    let d = score(dealer);
    if player.len() == MAX_HAND && p != -1 {
        if dealer.len() == MAX_HAND && d != -1 {
            Winner::Push
        } else {
            Winner::Me
        }
    } else if dealer.len() == MAX_HAND && d != -1 {
        Winner::Dealer
    } else if p == d {
        Winner::Push
    } else if p > d {
        Winner::Me
    } else {
        Winner::Dealer
    }
}

/// What is paid back at settlement: the stake on a push, one and a half
/// times it on a win, nothing on a loss.
pub open spec fn payout(winner: Winner, bet: int) -> int {
    match winner {
        Winner::Push => bet,
        Winner::Me => bet * 3 / 2,
        Winner::Dealer => 0,
    }
}

/// The state of a game as plain values.
pub struct GameView {
    pub state: State,
    pub deck: Seq<Card>,
    pub player: Seq<Card>,
    pub dealer: Seq<Card>,
    pub profit: int,
    pub bet: int,
    pub compact_mode: bool,
}

/// A permutation of a full unshuffled shoe.
pub open spec fn is_fresh_shoe(shoe: Seq<Card>) -> bool {
    &&& shoe.len() == PLAYING_DECK_SIZE
    &&& shoe.to_multiset() == standard_shoe(NUMBER_OF_DECKS as nat).to_multiset()
}

impl GameView {
    /// What holds of every reachable game: the stake is fixed, and during
    /// the player's turn both hands are dealt and the deck holds enough for
    /// the rest of the round.
    pub open spec fn wf(self) -> bool {
        &&& self.bet == BET
        &&& self.state == State::MyTurn ==> {
            &&& 2 <= self.player.len() < MAX_HAND
            &&& self.dealer.len() == 2
            &&& self.deck.len() + self.player.len() >= 24
        }
    }

    /// Profit is far enough from the bounds of `i64` for a round to be
    /// booked.
    pub open spec fn has_headroom(self) -> bool {
        i64::MIN + self.bet <= self.profit <= i64::MAX - 2 * self.bet
    }

    /// Settles the round: the dealer's first card is turned up, the dealer
    /// draws, the winner is decided and paid.
    pub open spec fn settle(self) -> GameView {
        let shown = self.dealer.update(0, with_hidden(self.dealer[0], false));
        let played = dealer_play(shown, self.deck);
        let winner = outcome(self.player, played.0);
        GameView {
            state: State::Result(winner),
            deck: played.1,
            dealer: played.0,
            profit: self.profit + payout(winner, self.bet),
            ..self
        }
    }

    /// Deals a round from the top of `shoe`: the stake is taken, player and
    /// dealer get two cards each in turn, the dealer's first face down. A
    /// player's 21 settles at once.
    pub open spec fn deal(self, shoe: Seq<Card>) -> GameView {
        let n = shoe.len() as int;
        let player = seq![shoe[n - 1], shoe[n - 3]];
        let dealer = seq![with_hidden(shoe[n - 2], true), shoe[n - 4]];
        let dealt = GameView {
            state: State::MyTurn,
            deck: shoe.take(n - 4),
            player,
            dealer,
            profit: self.profit - self.bet,
            ..self
        };
        if hand_total(player) == 21 {
            dealt.settle()
        } else {
            dealt
        }
    }

    /// Starts a round, from `fresh` where the deck has run short.
    pub open spec fn start_round(self, fresh: Seq<Card>) -> GameView {
        if self.deck.len() < RESHUFFLE_THRESHOLD {
            self.deal(fresh)
        } else {
            self.deal(self.deck)
        }
    }

    /// The player takes the top card; over 20 or a fifth card ends the turn.
    pub open spec fn hit(self) -> GameView {
        let player = self.player.push(self.deck.last());
        let drawn = GameView { deck: self.deck.drop_last(), player, ..self };
        if hand_total(player) > 20 || player.len() == MAX_HAND {
            drawn.settle()
        } else {
            drawn
        }
    }

    /// The game after `input`, where `fresh` is the shuffled shoe that a
    /// round starts from if the deck has run short.
    pub open spec fn step(self, input: Input, fresh: Seq<Card>) -> GameView {
        if input == Input::CompactMode {
            GameView { compact_mode: !self.compact_mode, ..self }
        } else {
            match self.state {
                State::NewDeck => self.start_round(fresh),
                State::MyTurn => match input {
                    Input::Hit => self.hit(),
                    Input::Stay => self.settle(),
                    _ => self,
                },
                State::Result(_) => if input == Input::New {
                    self.start_round(fresh)
                } else {
                    self
                },
            }
        }
    }
}

/// The total of a hand: the sum of its cards with aces high, less 10 for
/// each ace counted low while the sum is over 21.
pub fn hand_value(hand: &Vec<Card>) -> (r: i32)
    requires
        hand@.len() <= 1_000_000,
    ensures
        r as int == hand_total(hand@),
{
    let mut value: i32 = 0;
    let mut aces: u32 = 0;
    let mut i: usize = 0;
    while i < hand.len()
        invariant
            i <= hand@.len() <= 1_000_000,
            value as int == raw_sum(hand@.take(i as int)),
            aces as nat == ace_count(hand@.take(i as int)),
            0 <= value <= 11 * i,
            aces <= i,
        decreases hand@.len() - i,
    {
        assert(hand@.take(i + 1).drop_last() =~= hand@.take(i as int));
        value = value + hand[i].value();
        if hand[i].is_ace() {
            aces = aces + 1;
        }
        i = i + 1;
    }
    assert(hand@.take(i as int) =~= hand@);
    while value > 21 && aces != 0
        invariant
            soft_total(value as int, aces as nat) == hand_total(hand@),
            value >= 0,
        decreases aces,
    {
        value = value - 10;
        aces = aces - 1;
    }
    value
}

#[verifier::external_type_specification]
#[verifier::external_body]
pub struct ExThreadRng(ThreadRng);

/// Relies on rand::thread_rng: a handle on this thread's random generator.
#[verifier::external_body]
fn new_rng() -> ThreadRng {
    rand::thread_rng()
}

/// Relies on rand's `SliceRandom::shuffle`, which permutes the slice in
/// place by swaps: the same cards come back, in an order left to chance.
#[verifier::external_body]
fn shuffle_cards(cards: &mut Vec<Card>, rng: &mut ThreadRng)
    ensures
        final(cards)@.len() == old(cards)@.len(),
        final(cards)@.to_multiset() == old(cards)@.to_multiset(),
{
    cards.shuffle(rng);
}

pub struct Game {
    state: State,
    rng: ThreadRng,
    deck: Vec<Card>,
    my_hand: Vec<Card>,
    dealer_hand: Vec<Card>,
    profit: i64,
    bet: i64,
    compact_mode: bool,
}

impl View for Game {
    type V = GameView;

    closed spec fn view(&self) -> GameView {
        GameView {
            state: self.state,
            deck: self.deck@,
            player: self.my_hand@,
            dealer: self.dealer_hand@,
            profit: self.profit as int,
            bet: self.bet as int,
            compact_mode: self.compact_mode,
        }
    }
}

impl Game {
    /// A game before its first round: no cards anywhere, no profit yet.
    pub fn new() -> (g: Game)
        ensures
            g@ == (GameView {
                state: State::NewDeck,
                deck: Seq::empty(),
                player: Seq::empty(),
                dealer: Seq::empty(),
                profit: 0,
                bet: BET as int,
                compact_mode: false,
            }),
            g@.wf(),
    {
        Game::from_deck(Vec::new())
    }

    /// A game before its first round whose deck is `deck`, top card last.
    /// A deck of fewer than 26 cards is replaced by a fresh shoe when the
    /// round starts; a longer one is dealt as it stands.
    pub fn from_deck(deck: Vec<Card>) -> (g: Game)
        ensures
            g@ == (GameView {
                state: State::NewDeck,
                deck: deck@,
                player: Seq::empty(),
                dealer: Seq::empty(),
                profit: 0,
                bet: BET as int,
                compact_mode: false,
            }),
            g@.wf(),
    {
        Game {
            state: State::NewDeck,
            rng: new_rng(),
            deck,
            my_hand: Vec::new(),
            dealer_hand: Vec::new(),
            profit: 0,
            bet: BET,
            compact_mode: false,
        }
    }

    /// Turns the dealer's first card up, lets the dealer draw, and books
    /// the result.
    fn calculate_result(&mut self)
        requires
            old(self)@.bet == BET,
            old(self)@.profit + 2 * old(self)@.bet <= i64::MAX,
            2 <= old(self)@.player.len() <= MAX_HAND,
            old(self)@.dealer.len() == 2,
            old(self)@.deck.len() >= 3,
        ensures
            final(self)@ == old(self)@.settle(),
    {
        self.state = State::Result(Winner::Push);

        let mut first = self.dealer_hand[0];
        first.show();
        self.dealer_hand.set(0, first);

        let ghost shown = self.dealer_hand@;
        let ghost deck0 = self.deck@;
        assert(shown == old(self)@.dealer.update(0, with_hidden(old(self)@.dealer[0], false)));
        while hand_value(&self.dealer_hand) < 17 && self.dealer_hand.len() < MAX_HAND
            invariant
                2 <= self.dealer_hand@.len() <= MAX_HAND,
                self.deck@.len() + self.dealer_hand@.len() >= 5,
                dealer_play(self.dealer_hand@, self.deck@) == dealer_play(shown, deck0),
                self.my_hand@ == old(self)@.player,
                self.profit == old(self).profit,
                self.bet == old(self).bet,
                self.state == State::Result(Winner::Push),
                self.compact_mode == old(self).compact_mode,
                self.rng == old(self).rng,
            decreases self.deck@.len(),
        {
            let card = self.deck.pop().unwrap();
            self.dealer_hand.push(card);
        }
        let ghost played = dealer_play(shown, deck0);
        assert(played == (self.dealer_hand@, self.deck@));

        let mut my_hand_value = hand_value(&self.my_hand);
        let mut dealer_hand_value = hand_value(&self.dealer_hand);

        if my_hand_value > 21 {
            my_hand_value = -1;
        }
        if dealer_hand_value > 21 {
            dealer_hand_value = -1;
        }

        let my_hand_length = self.my_hand.len();
        let dealer_hand_length = self.dealer_hand.len();

        if my_hand_length == MAX_HAND && my_hand_value != -1 {
            if dealer_hand_length == MAX_HAND && dealer_hand_value != -1 {
                self.profit = self.profit + self.bet;
            } else {
                self.state = State::Result(Winner::Me);
                self.profit = self.profit + self.bet * 3 / 2;
            }
        } else if dealer_hand_length == MAX_HAND && dealer_hand_value != -1 {
            self.state = State::Result(Winner::Dealer);
        } else if my_hand_value == dealer_hand_value {
            self.state = State::Result(Winner::Push);
            self.profit = self.profit + self.bet;
        } else if my_hand_value > dealer_hand_value {
            self.state = State::Result(Winner::Me);
            self.profit = self.profit + self.bet * 3 / 2;
        } else {
            self.state = State::Result(Winner::Dealer);
        }
        assert(self@ == old(self)@.settle());
    }

    /// The player draws the top card; the round is settled on a total over
    /// 20 or on a fifth card.
    fn hit(&mut self)
        requires
            old(self)@.wf(),
            old(self)@.has_headroom(),
            old(self)@.state == State::MyTurn,
        ensures
            final(self)@ == old(self)@.hit(),
            final(self)@.wf(),
    {
        let card = self.deck.pop().unwrap();
        self.my_hand.push(card);
        if hand_value(&self.my_hand) > 20 || self.my_hand.len() == MAX_HAND {
            self.calculate_result();
        }
    }

    /// Starts a round: a fresh shuffled shoe if the deck has run short, the
    /// stake taken, two cards each dealt, and a player's 21 settled at once.
    fn new_deck(&mut self)
        requires
            old(self)@.wf(),
            old(self)@.has_headroom(),
        ensures
            final(self)@.wf(),
            exists|fresh: Seq<Card>|
                is_fresh_shoe(fresh) && final(self)@ == old(self)@.start_round(fresh),
    {
        let ghost mut fresh = standard_shoe(NUMBER_OF_DECKS as nat);
        self.state = State::MyTurn;

        if self.deck.len() < RESHUFFLE_THRESHOLD {
            self.deck.clear();
            let mut shoe = Card::generate_deck(NUMBER_OF_DECKS);
            self.deck.append(&mut shoe);
            shuffle_cards(&mut self.deck, &mut self.rng);
            proof {
                fresh = self.deck@;
            }
        }
        let ghost shoe = self.deck@;
        assert(is_fresh_shoe(fresh));
        assert(shoe == if old(self)@.deck.len() < RESHUFFLE_THRESHOLD {
            fresh
        } else {
            old(self)@.deck
        });

        self.profit = self.profit - self.bet;

        self.my_hand.clear();
        self.dealer_hand.clear();

        let card = self.deck.pop().unwrap();
        self.my_hand.push(card);
        let card = self.deck.pop().unwrap();
        self.dealer_hand.push(card);
        let card = self.deck.pop().unwrap();
        self.my_hand.push(card);
        let card = self.deck.pop().unwrap();
        self.dealer_hand.push(card);

        let mut first = self.dealer_hand[0];
        first.conceal();
        self.dealer_hand.set(0, first);

        let ghost n = shoe.len() as int;
        assert(self.deck@ =~= shoe.take(n - 4));
        assert(self.my_hand@ =~= seq![shoe[n - 1], shoe[n - 3]]);
        assert(self.dealer_hand@ =~= seq![with_hidden(shoe[n - 2], true), shoe[n - 4]]);

        if hand_value(&self.my_hand) == 21 {
            self.calculate_result();
        }
        assert(self@ == old(self)@.start_round(fresh));
    }

    /// Applies one input: a display toggle in any state, otherwise what the
    /// state admits (a round start, a hit, a stay, a new round); any other
    /// pair leaves the game as it is.
    pub fn update(&mut self, input: Input)
        requires
            old(self)@.wf(),
            old(self)@.has_headroom(),
        ensures
            final(self)@.wf(),
            exists|fresh: Seq<Card>|
                is_fresh_shoe(fresh) && final(self)@ == old(self)@.step(input, fresh),
    {
        let ghost any_shoe = standard_shoe(NUMBER_OF_DECKS as nat);
        assert(is_fresh_shoe(any_shoe));
        if input == Input::CompactMode {
            self.compact_mode = !self.compact_mode;
            assert(self@ == old(self)@.step(input, any_shoe));
            return;
        }

        match self.state {
            State::NewDeck => {
                self.new_deck();
            },
            State::MyTurn => match input {
                Input::Hit => {
                    self.hit();
                    assert(self@ == old(self)@.step(input, any_shoe));
                },
                Input::Stay => {
                    self.calculate_result();
                    assert(self@ == old(self)@.step(input, any_shoe));
                },
                _ => {
                    assert(self@ == old(self)@.step(input, any_shoe));
                },
            },
            State::Result(_) => {
                if input == Input::New {
                    self.new_deck();
                } else {
                    assert(self@ == old(self)@.step(input, any_shoe));
                }
            },
        }
    }

    pub fn my_hand(&self) -> (r: &Vec<Card>)
        ensures
            r@ == self@.player,
    {
        &self.my_hand
    }

    pub fn dealer_hand(&self) -> (r: &Vec<Card>)
        ensures
            r@ == self@.dealer,
    {
        &self.dealer_hand
    }

    pub fn bet(&self) -> (r: i64)
        ensures
            r as int == self@.bet,
    {
        self.bet
    }

    pub fn compact_mode(&self) -> (r: bool)
        ensures
            r == self@.compact_mode,
    {
        self.compact_mode
    }

    pub fn deck_length(&self) -> (r: usize)
        ensures
            r as int == self@.deck.len(),
    {
        self.deck.len()
    }

    pub fn profit(&self) -> (r: i64)
        ensures
            r as int == self@.profit,
    {
        self.profit
    }

    pub fn state(&self) -> (r: State)
        ensures
            r == self@.state,
    {
        self.state
    }
}

} // verus!
