use vstd::arithmetic::div_mod::{
    lemma_div_denominator, lemma_div_pos_is_pos, lemma_fundamental_div_mod,
    lemma_fundamental_div_mod_converse, lemma_mod_pos_bound,
};
use vstd::prelude::*;

verus! {

/// Cards in one standard deck.
pub const DECK_SIZE: usize = 52;

#[derive(Clone, Copy, Debug, PartialEq, Eq, Structural)]
pub enum Suit {
    Club,
    Diamond,
    Heart,
    Spade,
}

#[derive(Clone, Copy, Debug, PartialEq, Eq, Structural)]
pub enum Rank {
    Ace,
    Two,
    Three,
    Four,
    Five,
    Six,
    Seven,
    Eight,
    Nine,
    Ten,
    Jack,
    Queen,
    King,
}

/// A playing card. `hidden` only says whether the card is shown face down;
/// it never takes part in scoring.
#[derive(Clone, Copy, Debug)]
pub struct Card {
    pub suit: Suit,
    pub rank: Rank,
    pub hidden: bool,
}

/// Blackjack points of a rank, with an ace counted high.
pub open spec fn rank_value(rank: Rank) -> int {
    match rank {
        Rank::Ace => 11,
        Rank::Two => 2,
        Rank::Three => 3,
        Rank::Four => 4,
        Rank::Five => 5,
        Rank::Six => 6,
        Rank::Seven => 7,
        Rank::Eight => 8,
        Rank::Nine => 9,
        _ => 10,
    }
}

/// The card of the given suit and rank, face up.
pub open spec fn face_up(suit: Suit, rank: Rank) -> Card {
    Card { suit, rank, hidden: false }
}

/// Suits in the order in which a fresh shoe lists them.
pub open spec fn suit_order() -> Seq<Suit> {
    seq![Suit::Diamond, Suit::Heart, Suit::Club, Suit::Spade]
}

/// Ranks in the order in which a fresh shoe lists them within a suit.
pub open spec fn rank_order() -> Seq<Rank> {
    seq![
        Rank::Ace,
        Rank::Two,
        Rank::Three,
        Rank::Four,
        Rank::Five,
        Rank::Six,
        Rank::Seven,
        Rank::Eight,
        Rank::Nine,
        Rank::Ten,
        Rank::Jack,
        Rank::Queen,
        Rank::King,
    ]
}

/// An unshuffled shoe of `n` decks: suit by suit, rank by rank within a
/// suit, and `n` face-up copies of each card next to one another.
pub open spec fn standard_shoe(n: nat) -> Seq<Card> {
    Seq::new(
        52 * n,
        |i: int| face_up(suit_order()[i / (13 * n as int)], rank_order()[(i / n as int) % 13]),
    )
}

/// Where the copy `j` of the card with suit index `si` and rank index `ri`
/// stands in an unshuffled shoe of `n` decks.
proof fn lemma_shoe_index(n: nat, si: int, ri: int, j: int)
    requires
        n > 0,
        0 <= si < 4,
        0 <= ri < 13,
        0 <= j < n,
    ensures
        0 <= si * 13 * n + ri * n + j < 52 * n,
        standard_shoe(n)[si * 13 * n + ri * n + j] == face_up(suit_order()[si], rank_order()[ri]),
{
    let k = si * 13 * n + ri * n + j;
    assert(0 <= ri * n + j < 13 * n) by (nonlinear_arith)
        requires
            0 <= ri < 13,
            0 <= j < n,
    ;
    assert(k == si * (13 * n) + (ri * n + j)) by (nonlinear_arith)
        requires
            k == si * 13 * n + ri * n + j,
    ;
    assert(0 <= k < 52 * n) by (nonlinear_arith)
        requires
            k == si * (13 * n) + (ri * n + j),
            0 <= si < 4,
            0 <= ri * n + j < 13 * n,
    ;
    lemma_fundamental_div_mod_converse(k, 13 * n as int, si, ri * n + j);
    assert(k == (13 * si + ri) * n + j) by (nonlinear_arith)
        requires
            k == si * 13 * n + ri * n + j,
    ;
    lemma_fundamental_div_mod_converse(k, n as int, 13 * si + ri, j);
    lemma_fundamental_div_mod_converse(13 * si + ri, 13, si, ri);
}

/// Position of a suit in `suit_order`.
pub open spec fn suit_index(suit: Suit) -> int {
    match suit {
        Suit::Diamond => 0,
        Suit::Heart => 1,
        Suit::Club => 2,
        Suit::Spade => 3,
    }
}

/// Position of a rank in `rank_order`.
pub open spec fn rank_index(rank: Rank) -> int {
    match rank {
        Rank::Ace => 0,
        Rank::Two => 1,
        Rank::Three => 2,
        Rank::Four => 3,
        Rank::Five => 4,
        Rank::Six => 5,
        Rank::Seven => 6,
        Rank::Eight => 7,
        Rank::Nine => 8,
        Rank::Ten => 9,
        Rank::Jack => 10,
        Rank::Queen => 11,
        Rank::King => 12,
    }
}

proof fn lemma_orders()
    ensures
        forall|s: Suit| 0 <= #[trigger] suit_index(s) < 4 && suit_order()[suit_index(s)] == s,
        forall|i: int| 0 <= i < 4 ==> suit_index(#[trigger] suit_order()[i]) == i,
        forall|r: Rank| 0 <= #[trigger] rank_index(r) < 13 && rank_order()[rank_index(r)] == r,
        forall|i: int| 0 <= i < 13 ==> rank_index(#[trigger] rank_order()[i]) == i,
{
    assert(forall|i: int| 0 <= i < 4 ==> suit_index(#[trigger] suit_order()[i]) == i) by {
        assert(suit_order()[0] == Suit::Diamond);
        assert(suit_order()[1] == Suit::Heart);
        assert(suit_order()[2] == Suit::Club);
        assert(suit_order()[3] == Suit::Spade);
    }
    assert(forall|i: int| 0 <= i < 13 ==> rank_index(#[trigger] rank_order()[i]) == i) by {
        assert(rank_order()[0] == Rank::Ace);
        assert(rank_order()[1] == Rank::Two);
        assert(rank_order()[2] == Rank::Three);
        assert(rank_order()[3] == Rank::Four);
        assert(rank_order()[4] == Rank::Five);
        assert(rank_order()[5] == Rank::Six);
        assert(rank_order()[6] == Rank::Seven);
        assert(rank_order()[7] == Rank::Eight);
        assert(rank_order()[8] == Rank::Nine);
        assert(rank_order()[9] == Rank::Ten);
        assert(rank_order()[10] == Rank::Jack);
        assert(rank_order()[11] == Rank::Queen);
        assert(rank_order()[12] == Rank::King);
    }
}

/// How many copies of a card the first `k` cards of an unshuffled shoe
/// hold: its copies form one block of `n` cards.
proof fn lemma_shoe_prefix_count(n: nat, suit: Suit, rank: Rank, k: int)
    requires
        n > 0,
        0 <= k <= 52 * n,
    ensures
        ({
            let start = (13 * suit_index(suit) + rank_index(rank)) * n;
            let count = standard_shoe(n).take(k).to_multiset().count(face_up(suit, rank));
            count == if k <= start {
                0
            } else if k >= start + n {
                n as int
            } else {
                k - start
            }
        }),
    decreases k,
{
    broadcast use vstd::seq_lib::group_to_multiset_ensures;

    let shoe = standard_shoe(n);
    let card = face_up(suit, rank);
    if k == 0 {
        assert(shoe.take(0) =~= Seq::<Card>::empty());
    } else {
        let i = k - 1;
        lemma_shoe_prefix_count(n, suit, rank, i);
        assert(shoe.take(k) =~= shoe.take(i).push(shoe[i]));

        lemma_orders();
        let big = 13 * suit_index(suit) + rank_index(rank);
        let q = i / (n as int);
        let j = i % (n as int);
        lemma_fundamental_div_mod(i, n as int);
        lemma_mod_pos_bound(i, n as int);
        lemma_div_pos_is_pos(i, n as int);
        assert(q < 52) by (nonlinear_arith)
            requires
                i == n * q + j,
                0 <= j,
                i < 52 * n,
                n > 0,
        ;
        lemma_div_denominator(i, n as int, 13);
        assert(n as int * 13 == 13 * n as int);
        let si = q / 13;
        let ri = q % 13;
        lemma_fundamental_div_mod_converse(q, 13, si, ri);
        assert(0 <= si < 4);
        assert(shoe[i] == face_up(suit_order()[si], rank_order()[ri]));
        assert((shoe[i] == card) <==> (q == big)) by {
            if q == big {
                lemma_fundamental_div_mod_converse(q, 13, suit_index(suit), rank_index(rank));
            }
        }
        assert((q == big) <==> (big * n <= i < big * n + n)) by (nonlinear_arith)
            requires
                i == n * q + j,
                0 <= j < n,
        ;
    }
}

/// An unshuffled shoe of `n` decks holds every card of a deck exactly `n`
/// times, face up.
pub proof fn lemma_shoe_card_count(n: nat, suit: Suit, rank: Rank)
    ensures
        standard_shoe(n).to_multiset().count(face_up(suit, rank)) == n,
{
    if n == 0 {
        broadcast use vstd::seq_lib::group_to_multiset_ensures;

        assert(standard_shoe(n).len() == 0);
        assert(standard_shoe(n) =~= Seq::<Card>::empty());
    } else {
        lemma_orders();
        lemma_shoe_prefix_count(n, suit, rank, 52 * n as int);
        assert(standard_shoe(n).take(52 * n as int) =~= standard_shoe(n));
        assert((13 * suit_index(suit) + rank_index(rank)) * n + n <= 52 * n) by (nonlinear_arith)
            requires
                0 <= suit_index(suit) < 4,
                0 <= rank_index(rank) < 13,
        ;
    }
}

/// The symbol of a suit.
pub open spec fn suit_icon(suit: Suit) -> Seq<char> {
    match suit {
        Suit::Club => "♣"@,
        Suit::Diamond => "♦"@,
        Suit::Heart => "♥"@,
        Suit::Spade => "♠"@,
    }
}

/// The name of a rank in words.
pub open spec fn rank_name(rank: Rank) -> Seq<char> {
    match rank {
        Rank::Ace => "Ace"@,
        Rank::Two => "Two"@,
        Rank::Three => "Three"@,
        Rank::Four => "Four"@,
        Rank::Five => "Five"@,
        Rank::Six => "Six"@,
        Rank::Seven => "Seven"@,
        Rank::Eight => "Eight"@,
        Rank::Nine => "Nine"@,
        Rank::Ten => "Ten"@,
        Rank::Jack => "Jack"@,
        Rank::Queen => "Queen"@,
        Rank::King => "King"@,
    }
}

/// One line of text for a card: "?" while it is face down.
pub open spec fn compact_text(card: Card) -> Seq<char> {
    if card.hidden {
        "?"@
    } else {
        rank_name(card.rank) + " of "@ + suit_icon(card.suit)
    }
}

pub(crate) fn suit_icon_str(suit: Suit) -> (r: &'static str)
    ensures
        r@ == suit_icon(suit),
{
    match suit {
        Suit::Club => "♣",
        Suit::Diamond => "♦",
        Suit::Heart => "♥",
        Suit::Spade => "♠",
    }
}

fn rank_name_str(rank: Rank) -> (r: &'static str)
    ensures
        r@ == rank_name(rank),
{
    match rank {
        Rank::Ace => "Ace",
        Rank::Two => "Two",
        Rank::Three => "Three",
        Rank::Four => "Four",
        Rank::Five => "Five",
        Rank::Six => "Six",
        Rank::Seven => "Seven",
        Rank::Eight => "Eight",
        Rank::Nine => "Nine",
        Rank::Ten => "Ten",
        Rank::Jack => "Jack",
        Rank::Queen => "Queen",
        Rank::King => "King",
    }
}

impl Card {
    /// A face-up card.
    pub fn new(suit: Suit, rank: Rank) -> (r: Card)
        ensures
            r == face_up(suit, rank),
    {
        Card { suit, rank, hidden: false }
    }

    /// Turns the card face down.
    pub fn conceal(&mut self)
        ensures
            *final(self) == (Card { hidden: true, ..*old(self) }),
    {
        self.hidden = true;
    }

    /// Turns the card face up.
    pub fn show(&mut self)
        ensures
            *final(self) == (Card { hidden: false, ..*old(self) }),
    {
        self.hidden = false;
    }

    pub fn is_ace(&self) -> (r: bool)
        ensures
            r == (self.rank == Rank::Ace),
    {
        self.rank == Rank::Ace
    }

    /// Blackjack points, an ace counted as 11.
    pub fn value(&self) -> (r: i32)
        ensures
            r as int == rank_value(self.rank),
    {
        match self.rank {
            Rank::Ace => 11,
            Rank::Two => 2,
            Rank::Three => 3,
            Rank::Four => 4,
            Rank::Five => 5,
            Rank::Six => 6,
            Rank::Seven => 7,
            Rank::Eight => 8,
            Rank::Nine => 9,
            Rank::Ten | Rank::Jack | Rank::Queen | Rank::King => 10,
        }
    }

    /// The card in words, such as "Ace of ♠"; "?" while face down.
    pub fn as_compact_string(&self) -> (r: String)
        ensures
            r@ == compact_text(*self),
    {
        if self.hidden {
            return String::from_str("?");
        }
        let mut text = String::from_str(rank_name_str(self.rank));
        text.append(" of ");
        text.append(suit_icon_str(self.suit));
        text
    }

    /// `number_of_decks` full decks, unshuffled: every rank of one suit
    /// before the next suit, the copies of a card side by side.
    pub fn generate_deck(number_of_decks: usize) -> (deck: Vec<Card>)
        requires
            52 * number_of_decks <= usize::MAX,
        ensures
            deck@ == standard_shoe(number_of_decks as nat),
    {
        let suits = [Suit::Diamond, Suit::Heart, Suit::Club, Suit::Spade];
        let ranks = [
            Rank::Ace,
            Rank::Two,
            Rank::Three,
            Rank::Four,
            Rank::Five,
            Rank::Six,
            Rank::Seven,
            Rank::Eight,
            Rank::Nine,
            Rank::Ten,
            Rank::Jack,
            Rank::Queen,
            Rank::King,
        ];
        assert(suits@ == suit_order());
        assert(ranks@ == rank_order());
        let ghost n = number_of_decks as nat;

        let mut deck: Vec<Card> = Vec::new();
        let mut si: usize = 0;
        while si < 4
            invariant
                suits@ == suit_order(),
                ranks@ == rank_order(),
                n == number_of_decks,
                52 * n <= usize::MAX,
                si <= 4,
                deck@.len() == si * 13 * n,
                deck@ == standard_shoe(n).take(deck@.len() as int),
            decreases 4 - si,
        {
            let mut ri: usize = 0;
            while ri < 13
                invariant
                    suits@ == suit_order(),
                    ranks@ == rank_order(),
                    n == number_of_decks,
                    52 * n <= usize::MAX,
                    si < 4,
                    ri <= 13,
                    deck@.len() == si * 13 * n + ri * n,
                    deck@ == standard_shoe(n).take(deck@.len() as int),
                decreases 13 - ri,
            {
                let mut j: usize = 0;
                while j < number_of_decks
                    invariant
                        suits@ == suit_order(),
                        ranks@ == rank_order(),
                        n == number_of_decks,
                        52 * n <= usize::MAX,
                        si < 4,
                        ri < 13,
                        j <= n,
                        deck@.len() == si * 13 * n + ri * n + j,
                        deck@ == standard_shoe(n).take(deck@.len() as int),
                    decreases number_of_decks - j,
                {
                    proof {
                        lemma_shoe_index(n, si as int, ri as int, j as int);
                    }
                    let ghost before = deck@;
                    deck.push(Card::new(suits[si], ranks[ri]));
                    assert(deck@ =~= standard_shoe(n).take(deck@.len() as int));
                    j = j + 1;
                }
                proof {
                    assert(si * 13 * n + ri * n + n == si * 13 * n + (ri + 1) * n) by (nonlinear_arith);
                }
                ri = ri + 1;
            }
            proof {
                assert(si * 13 * n + 13 * n == (si + 1) * 13 * n) by (nonlinear_arith);
            }
            si = si + 1;
        }
        assert(deck@ =~= standard_shoe(n));
        deck
    }
}

} // verus!
