//! The four kinds of cell, and how each one is drawn and named.

use vstd::prelude::*;
use crate::text::same_text;

verus! {

/// What a cell of the board holds.
#[derive(Clone, Copy, Debug, PartialEq, Eq, Structural)]
pub enum GameItem {
    /// A cell of the border. It never changes.
    Wall,
    /// A playable cell that no team has taken.
    Empty,
    /// A piece of the cookie team.
    Cookie,
    /// A piece of the milk team.
    Milk,
}

/// The character that stands for a wall.
pub const WALL_GLYPH: char = '\u{2b1c}';

/// The character that stands for an empty cell.
pub const EMPTY_GLYPH: char = '\u{2b1b}';

/// The character that stands for a cookie.
pub const COOKIE_GLYPH: char = '\u{1f36a}';

/// The character that stands for a glass of milk.
pub const MILK_GLYPH: char = '\u{1f95b}';

impl GameItem {
    /// Whether the item belongs to one of the two teams.
    pub open spec fn is_piece(self) -> bool {
        self == GameItem::Cookie || self == GameItem::Milk
    }

    /// The team that a coin toss picks: cookie for heads, milk for tails.
    pub open spec fn of_coin(heads: bool) -> GameItem {
        if heads {
            GameItem::Cookie
        } else {
            GameItem::Milk
        }
    }

    /// The team that goes by `name`: "cookie" or "milk".
    pub open spec fn named(name: Seq<char>) -> Option<GameItem> {
        if name == "cookie"@ {
            Some(GameItem::Cookie)
        } else if name == "milk"@ {
            Some(GameItem::Milk)
        } else {
            None
        }
    }

    /// The character that stands for the item in a rendered board.
    pub open spec fn glyph(self) -> char {
        match self {
            GameItem::Wall => WALL_GLYPH,
            GameItem::Empty => EMPTY_GLYPH,
            GameItem::Cookie => COOKIE_GLYPH,
            GameItem::Milk => MILK_GLYPH,
        }
    }

    /// Tells a team's piece from a wall or an empty cell.
    pub fn piece(self) -> (b: bool)
        ensures
            b == self.is_piece(),
    {
        match self {
            GameItem::Cookie | GameItem::Milk => true,
            GameItem::Wall | GameItem::Empty => false,
        }
    }

    /// Turns a coin toss into a team's piece.
    pub fn from_coin(heads: bool) -> (item: GameItem)
        ensures
            item == GameItem::of_coin(heads),
            item.is_piece(),
    {
        if heads {
            GameItem::Cookie
        } else {
            GameItem::Milk
        }
    }

    /// Reads a team's name.
    pub fn from_name(name: &str) -> (item: Option<GameItem>)
        ensures
            item == GameItem::named(name@),
            item matches Some(team) ==> team.is_piece(),
    {
        if same_text(name, "cookie") {
            Some(GameItem::Cookie)
        } else if same_text(name, "milk") {
            Some(GameItem::Milk)
        } else {
            None
        }
    }

    /// The character drawn for the item.
    pub fn to_glyph(self) -> (c: char)
        ensures
            c == self.glyph(),
    {
        match self {
            GameItem::Wall => WALL_GLYPH,
            GameItem::Empty => EMPTY_GLYPH,
            GameItem::Cookie => COOKIE_GLYPH,
            GameItem::Milk => MILK_GLYPH,
        }
    }
}

/// No two kinds of cell share a character, so a rendered cell tells its kind.
pub proof fn lemma_glyphs_differ(a: GameItem, b: GameItem)
    requires
        a.glyph() == b.glyph(),
    ensures
        a == b,
{
}

} // verus!
