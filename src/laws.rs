//! Facts about hands and rounds, proved over the model in `game`.
use vstd::prelude::*;

use crate::card::{face_up, lemma_shoe_card_count, Card, Rank, Suit};
use crate::game::{
    ace_count, dealer_play, hand_total, is_fresh_shoe, outcome, payout, raw_sum, soft_total,
    GameView, Input, State, Winner, MAX_HAND, NUMBER_OF_DECKS, PLAYING_DECK_SIZE,
    RESHUFFLE_THRESHOLD,
};

verus! {

/// The total of a hand when `low` of its aces count 1 and the rest 11.
pub open spec fn total_with_low_aces(hand: Seq<Card>, low: nat) -> int {
    lowered(raw_sum(hand), low)
}

/// `total` with `low` aces moved from 11 to 1.
pub open spec fn lowered(total: int, low: nat) -> int {
    total - 10 * low
}

proof fn lemma_soft_total(total: int, aces: nat) -> (low: nat)
    ensures
        low <= aces,
        soft_total(total, aces) == total - 10 * low,
        total - 10 * aces <= 21 ==> soft_total(total, aces) <= 21,
        forall|k: nat|
            k <= aces && #[trigger] lowered(total, k) <= 21 ==> lowered(total, k) <= soft_total(
                total,
                aces,
            ),
    decreases aces,
{
    if total > 21 && aces > 0 {
        let inner = lemma_soft_total(total - 10, (aces - 1) as nat);
        assert forall|k: nat| k <= aces && #[trigger] lowered(total, k) <= 21 implies lowered(
            total,
            k,
        ) <= soft_total(total, aces) by {
            assert(k >= 1);
            let k1 = (k - 1) as nat;
            assert(lowered(total - 10, k1) == lowered(total, k));
        }
        inner + 1
    } else {
        0
    }
}

/// The soft-ace total is the hand counted with some of its aces low, and
/// the fewest such: whenever counting aces as 1 or 11 can keep the hand at
/// 21 or under, the total is 21 or under, and it is the highest such count.
pub proof fn hand_total_is_best_count(hand: Seq<Card>)
    ensures
        exists|low: nat|
            low <= ace_count(hand) && hand_total(hand) == #[trigger] total_with_low_aces(hand, low),
        total_with_low_aces(hand, ace_count(hand)) <= 21 ==> hand_total(hand) <= 21,
        forall|low: nat|
            low <= ace_count(hand) && #[trigger] total_with_low_aces(hand, low) <= 21
                ==> total_with_low_aces(hand, low) <= hand_total(hand),
{
    let low = lemma_soft_total(raw_sum(hand), ace_count(hand));
    assert(hand_total(hand) == total_with_low_aces(hand, low));
}

proof fn lemma_raw_sum_covers_aces(hand: Seq<Card>)
    ensures
        raw_sum(hand) >= 10 * ace_count(hand),
    decreases hand.len(),
{
    if hand.len() > 0 {
        lemma_raw_sum_covers_aces(hand.drop_last());
    }
}

proof fn lemma_soft_total_nonneg(total: int, aces: nat)
    requires
        total >= 10 * aces,
    ensures
        soft_total(total, aces) >= 0,
    decreases aces,
{
    if total > 21 && aces > 0 {
        lemma_soft_total_nonneg(total - 10, (aces - 1) as nat);
    }
}

/// No hand totals below zero.
pub proof fn hand_total_nonneg(hand: Seq<Card>)
    ensures
        hand_total(hand) >= 0,
{
    lemma_raw_sum_covers_aces(hand);
    lemma_soft_total_nonneg(raw_sum(hand), ace_count(hand));
}

/// A hand of five cards that is not bust beats any dealer hand but a
/// five-card one that is not bust, whatever the totals, and is paid one
/// and a half times the stake; against that one it pushes.
pub proof fn five_card_charlie(player: Seq<Card>, dealer: Seq<Card>, bet: int)
    requires
        player.len() == MAX_HAND,
        hand_total(player) <= 21,
    ensures
        dealer.len() < MAX_HAND || hand_total(dealer) > 21 ==> outcome(player, dealer)
            == Winner::Me,
        dealer.len() == MAX_HAND && hand_total(dealer) <= 21 ==> outcome(player, dealer)
            == Winner::Push,
        payout(Winner::Me, bet) == bet * 3 / 2,
{
    hand_total_nonneg(player);
    hand_total_nonneg(dealer);
}

/// The dealer draws from the top of the deck exactly while the hand is
/// under 17 and under five cards. Given enough cards, the final hand holds
/// at most five, is 17 or more or holds five, extends the first hand by the
/// deck's top cards in order, and every hand on the way was under 17 with
/// fewer than five cards.
pub proof fn dealer_stops_at_seventeen_or_five(dealer: Seq<Card>, deck: Seq<Card>)
    requires
        dealer.len() <= MAX_HAND,
        deck.len() + dealer.len() >= MAX_HAND,
    ensures
        ({
            let (hand, rest) = dealer_play(dealer, deck);
            let drawn = hand.len() - dealer.len();
            &&& dealer.len() <= hand.len() <= MAX_HAND
            &&& hand_total(hand) >= 17 || hand.len() == MAX_HAND
            &&& hand.take(dealer.len() as int) == dealer
            &&& rest == deck.take(deck.len() - drawn)
            &&& forall|i: int|
                dealer.len() <= i < hand.len() ==> #[trigger] hand[i] == deck[deck.len() - 1 - (i
                    - dealer.len())]
            &&& forall|m: int|
                dealer.len() <= m < hand.len() ==> hand_total(#[trigger] hand.take(m)) < 17 && m
                    < MAX_HAND
        }),
    decreases deck.len(),
{
    if hand_total(dealer) < 17 && dealer.len() < MAX_HAND && deck.len() > 0 {
        let next = dealer.push(deck.last());
        let rest = deck.drop_last();
        dealer_stops_at_seventeen_or_five(next, rest);
        let (hand, left) = dealer_play(next, rest);
        assert(hand.take(dealer.len() as int) =~= hand.take(next.len() as int).drop_last());
        assert(left =~= deck.take(deck.len() - (hand.len() - dealer.len())));
        assert forall|m: int|
            dealer.len() <= m < hand.len() implies hand_total(#[trigger] hand.take(m)) < 17 && m
                < MAX_HAND by {
            if m == dealer.len() {
                assert(next.drop_last() =~= dealer);
                assert(hand.take(m) =~= hand.take(next.len() as int).drop_last());
            }
        }
    } else {
        assert(dealer.take(dealer.len() as int) =~= dealer);
        assert(deck.take(deck.len() as int) =~= deck);
    }
}

/// Whatever order a shuffle leaves, a fresh shoe holds every card of a
/// deck exactly twice, face up.
pub proof fn fresh_shoe_holds_each_card_twice(shoe: Seq<Card>, suit: Suit, rank: Rank)
    requires
        is_fresh_shoe(shoe),
    ensures
        shoe.to_multiset().count(face_up(suit, rank)) == NUMBER_OF_DECKS,
{
    lemma_shoe_card_count(NUMBER_OF_DECKS as nat, suit, rank);
}

/// Applies `moves` in order from `g`, with `fresh` as the shoe for any
/// round that starts on the way.
pub open spec fn play(g: GameView, moves: Seq<Input>, fresh: Seq<Card>) -> GameView
    decreases moves.len(),
{
    if moves.len() == 0 {
        g
    } else {
        play(g, moves.drop_last(), fresh).step(moves.last(), fresh)
    }
}

/// Profit within a round: the stake is off while the player is on turn,
/// and the payout of the result is back once settled.
pub open spec fn booked_for_round(x: GameView, before: GameView) -> bool {
    &&& x.bet == before.bet
    &&& x.state != State::NewDeck
    &&& x.state == State::MyTurn ==> x.profit == before.profit - before.bet
    &&& forall|w: Winner|
        x.state == State::Result(w) ==> x.profit == before.profit - before.bet + #[trigger] payout(
            w,
            before.bet,
        )
}

proof fn lemma_round_booking(g: GameView, fresh: Seq<Card>, moves: Seq<Input>)
    requires
        g.state != State::MyTurn,
        forall|i: int| 0 <= i < moves.len() ==> moves[i] != Input::New,
    ensures
        booked_for_round(play(g.step(Input::New, fresh), moves, fresh), g),
    decreases moves.len(),
{
    if moves.len() > 0 {
        let prefix = moves.drop_last();
        assert forall|i: int| 0 <= i < prefix.len() implies prefix[i] != Input::New by {
            assert(prefix[i] == moves[i]);
        }
        lemma_round_booking(g, fresh, prefix);
        assert(moves.last() == moves[moves.len() - 1]);
    }
}

/// Over one round, from the deal through any inputs that start no new
/// round, profit moves by the payout less the stake: a push leaves it
/// where it was, a win raises it by half the stake, a loss takes the stake.
pub proof fn round_net_profit(g: GameView, fresh: Seq<Card>, moves: Seq<Input>)
    requires
        g.state != State::MyTurn,
        forall|i: int| 0 <= i < moves.len() ==> moves[i] != Input::New,
    ensures
        ({
            let end = play(g.step(Input::New, fresh), moves, fresh);
            &&& end.state == State::MyTurn ==> end.profit == g.profit - g.bet
            &&& end.state == State::Result(Winner::Push) ==> end.profit == g.profit
            &&& end.state == State::Result(Winner::Me) ==> end.profit == g.profit + g.bet * 3 / 2
                - g.bet
            &&& end.state == State::Result(Winner::Dealer) ==> end.profit == g.profit - g.bet
        }),
{
    lemma_round_booking(g, fresh, moves);
    let end = play(g.step(Input::New, fresh), moves, fresh);
    assert(payout(Winner::Push, g.bet) == g.bet);
    assert(payout(Winner::Me, g.bet) == g.bet * 3 / 2);
    assert(payout(Winner::Dealer, g.bet) == 0);
}

/// A round that starts with fewer than 26 cards left is dealt from a full
/// fresh shoe: the deck is then what is left of that shoe, and the deck and
/// both hands hold exactly as many cards as it. With 26 or more left the
/// round is dealt from the deck as it was.
pub proof fn short_deck_is_replaced(g: GameView, fresh: Seq<Card>)
    requires
        is_fresh_shoe(fresh),
    ensures
        ({
            let next = g.start_round(fresh);
            let shoe = if g.deck.len() < RESHUFFLE_THRESHOLD {
                fresh
            } else {
                g.deck
            };
            &&& g.deck.len() < RESHUFFLE_THRESHOLD ==> next.deck.len() + next.player.len()
                + next.dealer.len() == PLAYING_DECK_SIZE
            &&& next.deck.len() + next.player.len() + next.dealer.len() == shoe.len()
            &&& next.deck == shoe.take(next.deck.len() as int)
        }),
{
    let shoe = if g.deck.len() < RESHUFFLE_THRESHOLD {
        fresh
    } else {
        g.deck
    };
    let n = shoe.len() as int;
    let player = seq![shoe[n - 1], shoe[n - 3]];
    let dealer = seq![crate::game::with_hidden(shoe[n - 2], true), shoe[n - 4]];
    let dealt = GameView {
        state: State::MyTurn,
        deck: shoe.take(n - 4),
        player,
        dealer,
        profit: g.profit - g.bet,
        ..g
    };
    assert(g.start_round(fresh) == g.deal(shoe));
    if hand_total(player) == 21 {
        let shown = dealer.update(0, crate::game::with_hidden(dealer[0], false));
        dealer_stops_at_seventeen_or_five(shown, dealt.deck);
        assert(dealt.deck.take(dealt.deck.len() - (dealer_play(shown, dealt.deck).0.len() - 2))
            =~= shoe.take(dealt.deck.len() - (dealer_play(shown, dealt.deck).0.len() - 2)));
    }
}

} // verus!
