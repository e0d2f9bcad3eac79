//! Text for the table: hands as lines of text, ready to be drawn.
use vstd::prelude::*;

use crate::art::{art_lines, lemma_art_lines_len, texts};
use crate::card::{compact_text, Card};
use crate::game::PLAYING_DECK_SIZE;

verus! {

/// Lines, each followed by a newline.
pub open spec fn lines_text(lines: Seq<Seq<char>>) -> Seq<char>
    decreases lines.len(),
{
    if lines.len() == 0 {
        Seq::empty()
    } else {
        lines_text(lines.drop_last()) + lines.last() + "\n"@
    }
}

/// Two faces side by side, one space apart, line by line as far as the
/// left one goes.
pub open spec fn side_by_side(left: Seq<Seq<char>>, right: Seq<Seq<char>>) -> Seq<char>
    decreases left.len(),
{
    if left.len() == 0 {
        Seq::empty()
    } else {
        side_by_side(left.drop_last(), right) + left.last() + " "@ + right[left.len() - 1] + "\n"@
    }
}

/// A hand in words, one card to a line.
pub open spec fn compact_hand_text(hand: Seq<Card>) -> Seq<char>
    decreases hand.len(),
{
    if hand.len() == 0 {
        Seq::empty()
    } else {
        compact_hand_text(hand.drop_last()) + compact_text(hand.last()) + "\n"@
    }
}

/// The first `pairs` pairs of cards of a hand, each pair drawn side by side.
pub open spec fn paired_text(hand: Seq<Card>, pairs: nat) -> Seq<char>
    decreases pairs,
{
    if pairs == 0 {
        Seq::empty()
    } else {
        paired_text(hand, (pairs - 1) as nat) + side_by_side(
            art_lines(hand[2 * pairs - 2]),
            art_lines(hand[2 * pairs - 1]),
        )
    }
}

/// A hand drawn as card faces, two to a row; an odd last card on its own.
pub open spec fn art_hand_text(hand: Seq<Card>) -> Seq<char> {
    let pairs = hand.len() / 2;
    if hand.len() % 2 == 1 {
        paired_text(hand, pairs) + lines_text(art_lines(hand.last()))
    } else {
        paired_text(hand, pairs)
    }
}

/// The text of a hand, in words or as card faces.
pub open spec fn hand_text(hand: Seq<Card>, compact_mode: bool) -> Seq<char> {
    if compact_mode {
        compact_hand_text(hand)
    } else {
        art_hand_text(hand)
    }
}

fn append_side_by_side(output: &mut String, left: &Vec<String>, right: &Vec<String>)
    requires
        left@.len() <= right@.len(),
    ensures
        final(output)@ == old(output)@ + side_by_side(texts(left@), texts(right@)),
{
    let ghost base = old(output)@;
    let ghost l = texts(left@);
    let ghost r = texts(right@);
    let mut j: usize = 0;
    while j < left.len()
        invariant
            j <= left@.len() <= right@.len(),
            l == texts(left@),
            r == texts(right@),
            output@ == base + side_by_side(l.take(j as int), r),
        decreases left@.len() - j,
    {
        assert(l.take(j + 1).drop_last() =~= l.take(j as int));
        output.append(left[j].as_str());
        output.append(" ");
        output.append(right[j].as_str());
        output.append("\n");
        assert(output@ =~= base + side_by_side(l.take(j + 1), r));
        j = j + 1;
    }
    assert(l.take(j as int) =~= l);
}

fn append_lines(output: &mut String, lines: &Vec<String>)
    ensures
        final(output)@ == old(output)@ + lines_text(texts(lines@)),
{
    let ghost base = old(output)@;
    let ghost l = texts(lines@);
    let mut j: usize = 0;
    while j < lines.len()
        invariant
            j <= lines@.len(),
            l == texts(lines@),
            output@ == base + lines_text(l.take(j as int)),
        decreases lines@.len() - j,
    {
        assert(l.take(j + 1).drop_last() =~= l.take(j as int));
        output.append(lines[j].as_str());
        output.append("\n");
        assert(output@ =~= base + lines_text(l.take(j + 1)));
        j = j + 1;
    }
    assert(l.take(j as int) =~= l);
}

/// A hand as text: one card per line in words in compact mode, otherwise
/// as card faces two to a row.
pub fn hand_as_string(hand: &Vec<Card>, compact_mode: bool) -> (r: String)
    ensures
        r@ == hand_text(hand@, compact_mode),
{
    let mut output = String::new();

    if compact_mode {
        let mut i: usize = 0;
        while i < hand.len()
            invariant
                i <= hand@.len(),
                output@ == compact_hand_text(hand@.take(i as int)),
            decreases hand@.len() - i,
        {
            assert(hand@.take(i + 1).drop_last() =~= hand@.take(i as int));
            let line = hand[i].as_compact_string();
            output.append(line.as_str());
            output.append("\n");
            i = i + 1;
        }
        assert(hand@.take(i as int) =~= hand@);
        return output;
    }

    let mut is_first_card = true;
    let mut first_card: Vec<String> = Vec::new();
    let mut i: usize = 0;
    while i < hand.len()
        invariant
            i <= hand@.len(),
            is_first_card == (i % 2 == 0),
            output@ == paired_text(hand@, i as nat / 2),
            !is_first_card ==> texts(first_card@) == art_lines(hand@[i - 1]),
        decreases hand@.len() - i,
    {
        if is_first_card {
            first_card = hand[i].as_art_string_lines();
            is_first_card = !is_first_card;
        } else {
            let second_card = hand[i].as_art_string_lines();
            is_first_card = !is_first_card;
            assert(texts(first_card@).len() == first_card@.len());
            assert(texts(second_card@).len() == second_card@.len());
            proof {
                lemma_art_lines_len(hand@[i - 1]);
                lemma_art_lines_len(hand@[i as int]);
            }
            append_side_by_side(&mut output, &first_card, &second_card);
            assert((i as nat + 1) / 2 == (i as nat - 1) / 2 + 1);
        }
        i = i + 1;
    }

    if !is_first_card {
        append_lines(&mut output, &first_card);
    }
    output
}

/// Whether row `row` of a deck gauge `height` rows tall is filled: the
/// filled part sits at the bottom and is the share of a full shoe that is
/// left.
pub open spec fn deck_row_filled(cards_remaining: int, height: int, row: int) -> bool {
    row * PLAYING_DECK_SIZE + height * cards_remaining > height * PLAYING_DECK_SIZE
}

/// The rows of a deck gauge, top first: `true` where the row is filled.
pub fn deck_gauge_rows(cards_remaining: usize, height: u16) -> (rows: Vec<bool>)
    ensures
        rows@.len() == height,
        forall|row: int|
            0 <= row < height ==> #[trigger] rows@[row] == deck_row_filled(
                cards_remaining as int,
                height as int,
                row,
            ),
{
    let mut rows: Vec<bool> = Vec::new();
    let total = PLAYING_DECK_SIZE as u128;
    let mut row: u16 = 0;
    while row < height
        invariant
            row <= height,
            total == PLAYING_DECK_SIZE,
            rows@.len() == row,
            forall|k: int|
                0 <= k < row ==> #[trigger] rows@[k] == deck_row_filled(
                    cards_remaining as int,
                    height as int,
                    k,
                ),
        decreases height - row,
    {
        assert(height as int * cards_remaining as int <= 0xffff * 0xffff_ffff_ffff_ffff)
            by (nonlinear_arith)
            requires
                height <= 0xffff,
                cards_remaining <= 0xffff_ffff_ffff_ffff,
        ;
        let filled = row as u128 * total + height as u128 * cards_remaining as u128 > height as u128
            * total;
        rows.push(filled);
        row = row + 1;
    }
    rows
}

/// What a row of the profit gauge shows.
#[derive(Clone, Copy, Debug, PartialEq, Eq, Structural)]
pub enum ProfitRow {
    /// Nothing.
    Blank,
    /// A full-width bar: one per hundred of profit, above the label when
    /// ahead, below it when behind.
    Bar,
    /// The profit and bet figures.
    Label,
    /// The second line of a label that takes two lines; nothing more is
    /// written for it.
    LabelContinued,
}

/// The bars the gauge shows for a profit: one per full hundred.
pub open spec fn bar_count(profit: int) -> int {
    if profit >= 0 {
        profit / 100
    } else {
        (-profit) / 100
    }
}

/// What row `row` of a profit gauge `height` rows tall shows. An even
/// height puts the label on two lines just above the middle; an odd one on
/// the middle row.
pub open spec fn profit_row(profit: int, height: int, row: int) -> ProfitRow {
    let half = height / 2;
    let bars = bar_count(profit);
    if height % 2 == 0 {
        if row == half - 1 {
            ProfitRow::Label
        } else if row == half {
            ProfitRow::LabelContinued
        } else if profit > 0 {
            if half - 2 - bars < row < half - 1 {
                ProfitRow::Bar
            } else {
                ProfitRow::Blank
            }
        } else if half < row < half + 1 + bars {
            ProfitRow::Bar
        } else {
            ProfitRow::Blank
        }
    } else {
        if row == half {
            ProfitRow::Label
        } else if profit > 0 {
            if half - 1 - bars < row < half {
                ProfitRow::Bar
            } else {
                ProfitRow::Blank
            }
        } else if half < row < half + 1 + bars {
            ProfitRow::Bar
        } else {
            ProfitRow::Blank
        }
    }
}

/// The rows of the profit gauge, top first.
pub fn profit_gauge_rows(profit: i64, height: u16) -> (rows: Vec<ProfitRow>)
    ensures
        rows@.len() == height,
        forall|row: int|
            0 <= row < height ==> #[trigger] rows@[row] == profit_row(
                profit as int,
                height as int,
                row,
            ),
{
    let magnitude: u64 = if profit >= 0 {
        profit as u64
    } else {
        (-(profit + 1)) as u64 + 1
    };
    let bars = (magnitude / 100) as i64;
    assert(bars == bar_count(profit as int));
    let half: i64 = height as i64 / 2;
    let double_line = height % 2 == 0;

    let mut rows: Vec<ProfitRow> = Vec::new();
    let mut row: u16 = 0;
    while row < height
        invariant
            row <= height,
            bars == bar_count(profit as int),
            0 <= bars <= i64::MAX / 100 + 1,
            half == height / 2,
            double_line == (height % 2 == 0),
            rows@.len() == row,
            forall|k: int|
                0 <= k < row ==> #[trigger] rows@[k] == profit_row(
                    profit as int,
                    height as int,
                    k,
                ),
        decreases height - row,
    {
        let h = row as i64;
        let kind = if double_line {
            if h == half - 1 {
                ProfitRow::Label
            } else if h == half {
                ProfitRow::LabelContinued
            } else if profit > 0 {
                if half - 2 - bars < h && h < half - 1 {
                    ProfitRow::Bar
                } else {
                    ProfitRow::Blank
                }
            } else if half < h && h < half + 1 + bars {
                ProfitRow::Bar
            } else {
                ProfitRow::Blank
            }
        } else {
            if h == half {
                ProfitRow::Label
            } else if profit > 0 {
                if half - 1 - bars < h && h < half {
                    ProfitRow::Bar
                } else {
                    ProfitRow::Blank
                }
            } else if half < h && h < half + 1 + bars {
                ProfitRow::Bar
            } else {
                ProfitRow::Blank
            }
        };
        rows.push(kind);
        row = row + 1;
    }
    rows
}

} // verus!
