//! Card faces drawn in box characters, seven lines to a card.
use vstd::prelude::*;

use crate::card::{suit_icon, Card, Rank, Suit};

verus! {

/// The top edge of a card face.
pub open spec fn top_edge() -> Seq<char> {
    "┌───────┐"@
}

/// The bottom edge of a card face.
pub open spec fn bottom_edge() -> Seq<char> {
    "└───────┘"@
}

/// A row with nothing on it.
pub open spec fn blank() -> Seq<char> {
    "│       │"@
}

/// A row with the symbol in the middle.
pub open spec fn center_row(icon: Seq<char>) -> Seq<char> {
    "│   "@ + icon + "   │"@
}

/// A row with two symbols.
pub open spec fn pair_row(icon: Seq<char>) -> Seq<char> {
    "│  "@ + icon + " "@ + icon + "  │"@
}

/// A row with the symbol near the left edge.
pub open spec fn left_row(icon: Seq<char>) -> Seq<char> {
    "│ "@ + icon + "     │"@
}

/// A row with the symbol near the right edge.
pub open spec fn right_row(icon: Seq<char>) -> Seq<char> {
    "│     "@ + icon + " │"@
}

/// A row with a label at the left and two symbols.
pub open spec fn tagged_left_row(tag: Seq<char>, icon: Seq<char>) -> Seq<char> {
    "│"@ + tag + " "@ + icon + " "@ + icon + "  │"@
}

/// A row with two symbols and a label at the right.
pub open spec fn tagged_right_row(tag: Seq<char>, icon: Seq<char>) -> Seq<char> {
    "│  "@ + icon + " "@ + icon + " "@ + tag + "│"@
}

/// The five rows between the edges of a face-up card.
pub open spec fn face_rows(rank: Rank, icon: Seq<char>) -> Seq<Seq<char>> {
    match rank {
        Rank::Ace => seq![
            "│A      │"@,
            blank(),
            center_row(icon),
            blank(),
            "│      A│"@,
        ],
        Rank::Two => seq![
            "│2      │"@,
            center_row(icon),
            blank(),
            center_row(icon),
            "│      2│"@,
        ],
        Rank::Three => seq![
            "│3      │"@,
            center_row(icon),
            center_row(icon),
            center_row(icon),
            "│      3│"@,
        ],
        Rank::Four => seq![
            "│4      │"@,
            pair_row(icon),
            blank(),
            pair_row(icon),
            "│      4│"@,
        ],
        Rank::Five => seq![
            "│5      │"@,
            pair_row(icon),
            center_row(icon),
            pair_row(icon),
            "│      5│"@,
        ],
        Rank::Six => seq![
            "│6      │"@,
            pair_row(icon),
            pair_row(icon),
            pair_row(icon),
            "│      6│"@,
        ],
        Rank::Seven => seq![
            tagged_left_row("7"@, icon),
            center_row(icon),
            blank(),
            pair_row(icon),
            tagged_right_row("7"@, icon),
        ],
        Rank::Eight => seq![
            tagged_left_row("8"@, icon),
            pair_row(icon),
            blank(),
            pair_row(icon),
            tagged_right_row("8"@, icon),
        ],
        Rank::Nine => seq![
            tagged_left_row("9"@, icon),
            pair_row(icon),
            center_row(icon),
            pair_row(icon),
            tagged_right_row("9"@, icon),
        ],
        Rank::Ten => seq![
            tagged_left_row("1"@, icon),
            tagged_left_row("0"@, icon),
            pair_row(icon),
            tagged_right_row("1"@, icon),
            tagged_right_row("0"@, icon),
        ],
        Rank::Jack => seq![
            "│J      │"@,
            left_row(icon),
            blank(),
            right_row(icon),
            "│      J│"@,
        ],
        Rank::Queen => seq![
            "│Q      │"@,
            left_row(icon),
            blank(),
            right_row(icon),
            "│      Q│"@,
        ],
        Rank::King => seq![
            "│K      │"@,
            left_row(icon),
            blank(),
            right_row(icon),
            "│      K│"@,
        ],
    }
}

/// The lines of a card face: a question mark while it is face down.
pub open spec fn art_lines(card: Card) -> Seq<Seq<char>> {
    if card.hidden {
        seq![top_edge(), blank(), blank(), "│   ?   │"@, blank(), blank(), bottom_edge()]
    } else {
        seq![top_edge()] + face_rows(card.rank, suit_icon(card.suit)) + seq![bottom_edge()]
    }
}

/// Every card face is seven lines.
pub proof fn lemma_art_lines_len(card: Card)
    ensures
        art_lines(card).len() == 7,
{
}

/// The text of each string.
pub open spec fn texts(lines: Seq<String>) -> Seq<Seq<char>> {
    lines.map_values(|line: String| line@)
}

fn blank_row() -> (r: &'static str)
    ensures
        r@ == blank(),
{
    "│       │"
}

fn make_center_row(icon: &str) -> (r: String)
    ensures
        r@ == center_row(icon@),
{
    let mut row = String::from_str("│   ");
    row.append(icon);
    row.append("   │");
    row
}

fn make_pair_row(icon: &str) -> (r: String)
    ensures
        r@ == pair_row(icon@),
{
    let mut row = String::from_str("│  ");
    row.append(icon);
    row.append(" ");
    row.append(icon);
    row.append("  │");
    row
}

fn make_left_row(icon: &str) -> (r: String)
    ensures
        r@ == left_row(icon@),
{
    let mut row = String::from_str("│ ");
    row.append(icon);
    row.append("     │");
    row
}

fn make_right_row(icon: &str) -> (r: String)
    ensures
        r@ == right_row(icon@),
{
    let mut row = String::from_str("│     ");
    row.append(icon);
    row.append(" │");
    row
}

fn make_tagged_left_row(tag: &str, icon: &str) -> (r: String)
    ensures
        r@ == tagged_left_row(tag@, icon@),
{
    let mut row = String::from_str("│");
    row.append(tag);
    row.append(" ");
    row.append(icon);
    row.append(" ");
    row.append(icon);
    row.append("  │");
    row
}

fn make_tagged_right_row(tag: &str, icon: &str) -> (r: String)
    ensures
        r@ == tagged_right_row(tag@, icon@),
{
    let mut row = String::from_str("│  ");
    row.append(icon);
    row.append(" ");
    row.append(icon);
    row.append(" ");
    row.append(tag);
    row.append("│");
    row
}

impl Card {
    /// The card face as seven lines of box characters.
    pub fn as_art_string_lines(&self) -> (lines: Vec<String>)
        ensures
            texts(lines@) == art_lines(*self),
    {
        let mut lines: Vec<String> = vec![String::from_str("┌───────┐")];

        if self.hidden {
            lines.push(String::from_str(blank_row()));
            lines.push(String::from_str(blank_row()));
            lines.push(String::from_str("│   ?   │"));
            lines.push(String::from_str(blank_row()));
            lines.push(String::from_str(blank_row()));
            lines.push(String::from_str("└───────┘"));
            assert(texts(lines@) =~= art_lines(*self));
            return lines;
        }

        let icon = crate::card::suit_icon_str(self.suit);
        match self.rank {
            Rank::Ace => {
                lines.push(String::from_str("│A      │"));
                lines.push(String::from_str(blank_row()));
                lines.push(make_center_row(icon));
                lines.push(String::from_str(blank_row()));
                lines.push(String::from_str("│      A│"));
            },
            Rank::Two => {
                lines.push(String::from_str("│2      │"));
                lines.push(make_center_row(icon));
                lines.push(String::from_str(blank_row()));
                lines.push(make_center_row(icon));
                lines.push(String::from_str("│      2│"));
            },
            Rank::Three => {
                lines.push(String::from_str("│3      │"));
                lines.push(make_center_row(icon));
                lines.push(make_center_row(icon));
                lines.push(make_center_row(icon));
                lines.push(String::from_str("│      3│"));
            },
            Rank::Four => {
                lines.push(String::from_str("│4      │"));
                lines.push(make_pair_row(icon));
                lines.push(String::from_str(blank_row()));
                lines.push(make_pair_row(icon));
                lines.push(String::from_str("│      4│"));
            },
            Rank::Five => {
                lines.push(String::from_str("│5      │"));
                lines.push(make_pair_row(icon));
                lines.push(make_center_row(icon));
                lines.push(make_pair_row(icon));
                lines.push(String::from_str("│      5│"));
            },
            Rank::Six => {
                lines.push(String::from_str("│6      │"));
                lines.push(make_pair_row(icon));
                lines.push(make_pair_row(icon));
                lines.push(make_pair_row(icon));
                lines.push(String::from_str("│      6│"));
            },
            Rank::Seven => {
                lines.push(make_tagged_left_row("7", icon));
                lines.push(make_center_row(icon));
                lines.push(String::from_str(blank_row()));
                lines.push(make_pair_row(icon));
                lines.push(make_tagged_right_row("7", icon));
            },
            Rank::Eight => {
                lines.push(make_tagged_left_row("8", icon));
                lines.push(make_pair_row(icon));
                lines.push(String::from_str(blank_row()));
                lines.push(make_pair_row(icon));
                lines.push(make_tagged_right_row("8", icon));
            },
            Rank::Nine => {
                lines.push(make_tagged_left_row("9", icon));
                lines.push(make_pair_row(icon));
                lines.push(make_center_row(icon));
                lines.push(make_pair_row(icon));
                lines.push(make_tagged_right_row("9", icon));
            },
            Rank::Ten => {
                lines.push(make_tagged_left_row("1", icon));
                lines.push(make_tagged_left_row("0", icon));
                lines.push(make_pair_row(icon));
                lines.push(make_tagged_right_row("1", icon));
                lines.push(make_tagged_right_row("0", icon));
            },
            Rank::Jack => {
                lines.push(String::from_str("│J      │"));
                lines.push(make_left_row(icon));
                lines.push(String::from_str(blank_row()));
                lines.push(make_right_row(icon));
                lines.push(String::from_str("│      J│"));
            },
            Rank::Queen => {
                lines.push(String::from_str("│Q      │"));
                lines.push(make_left_row(icon));
                lines.push(String::from_str(blank_row()));
                lines.push(make_right_row(icon));
                lines.push(String::from_str("│      Q│"));
            },
            Rank::King => {
                lines.push(String::from_str("│K      │"));
                lines.push(make_left_row(icon));
                lines.push(String::from_str(blank_row()));
                lines.push(make_right_row(icon));
                lines.push(String::from_str("│      K│"));
            },
        }

        lines.push(String::from_str("└───────┘"));
        assert(texts(lines@) =~= art_lines(*self));
        lines
    }
}

} // verus!
