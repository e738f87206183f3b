//! The list of games as the menu shows it: one row per game and the row that
//! is selected.

use vstd::prelude::*;

use crate::menu::catalog::{GameEntry, GameEntryView, Platform};
use crate::menu::gpio_port::MenuKey;

verus! {

/// What the list asks of the menu after a key.
#[derive(Debug, Clone, Copy, PartialEq, Eq, Structural)]
pub enum Msg {
    /// Show the list again: the selection may have moved.
    Redraw,
    /// Start the game at this index of the catalogue.
    SelectGame(usize),
    /// Leave the menu.
    Exit,
}

/// The index above `index`; the first row stays where it is.
pub open spec fn index_above(index: nat) -> nat {
    if index > 0 {
        (index - 1) as nat
    } else {
        0
    }
}

/// The index below `index` in a list of `count` rows; the last row stays
/// where it is.
pub open spec fn index_below(index: nat, count: nat) -> nat {
    if index + 1 < count {
        index + 1
    } else {
        index
    }
}

/// The index that is selected after `key`, in a list of `count` rows.
pub open spec fn index_after(index: nat, count: nat, key: MenuKey) -> nat {
    match key {
        MenuKey::Up => index_above(index),
        MenuKey::Down => index_below(index, count),
        _ => index,
    }
}

/// What the list answers to `key` while `index` is selected.
pub open spec fn message_for(index: usize, key: MenuKey) -> Option<Msg> {
    match key {
        MenuKey::Up | MenuKey::Down => Some(Msg::Redraw),
        MenuKey::Enter => Some(Msg::SelectGame(index)),
        MenuKey::Esc => Some(Msg::Exit),
        MenuKey::Other => None,
    }
}

/// The short name of a platform.
pub open spec fn platform_tag(platform: Platform) -> Seq<char> {
    match platform {
        Platform::GameBoy => "GB"@,
        Platform::GameBoyColor => "GBC"@,
    }
}

/// The cells of the row of a game: its name, a separator, its platform.
pub open spec fn row_of(game: GameEntryView) -> Seq<Seq<char>> {
    seq![game.name, " - "@, platform_tag(game.platform)]
}

/// The index above `index`.
pub fn move_up(index: usize) -> (moved: usize)
    ensures
        moved == index_above(index as nat),
{
    if index > 0 {
        index - 1
    } else {
        0
    }
}

/// The index below `index` in a list of `count` rows.
pub fn move_down(index: usize, count: usize) -> (moved: usize)
    ensures
        moved == index_below(index as nat, count as nat),
{
    if index < count && index + 1 < count {
        index + 1
    } else {
        index
    }
}

/// The rows of the menu and the selected one. The selection stops at both
/// ends of the list.
pub struct GamesList {
    rows: Vec<Vec<String>>,
    list_index: usize,
}

impl GamesList {
    /// The text of each cell of each row.
    pub closed spec fn rows(&self) -> Seq<Seq<Seq<char>>> {
        Seq::new(
            self.rows@.len(),
            |i: int| Seq::new(self.rows@[i]@.len(), |j: int| self.rows@[i]@[j]@),
        )
    }

    /// The index of the selected row.
    pub closed spec fn selected(&self) -> usize {
        self.list_index
    }

    /// The selected index is that of a row, or 0 in an empty list.
    pub open spec fn wf(&self) -> bool {
        self.selected() < self.rows().len() || (self.rows().len() == 0 && self.selected() == 0)
    }

    /// The list for a catalogue, with the first row selected.
    pub fn new(games: &Vec<GameEntry>) -> (list: Self)
        ensures
            list.wf(),
            list.selected() == 0,
            list.rows().len() == games@.len(),
            forall|i: int| 0 <= i < games@.len() ==> #[trigger] list.rows()[i] == row_of(games@[i]@),
    {
        let mut rows: Vec<Vec<String>> = Vec::new();
        let mut i: usize = 0;
        while i < games.len()
            invariant
                i <= games@.len(),
                rows@.len() == i,
                forall|k: int|
                    0 <= k < i ==> Seq::new(
                        (#[trigger] rows@[k])@.len(),
                        |j: int| rows@[k]@[j]@,
                    ) == row_of(games@[k]@),
            decreases games@.len() - i,
        {
            let game: &GameEntry = &games[i];
            let mut row: Vec<String> = Vec::new();
            row.push(game.name.clone());
            row.push(" - ".to_owned());
            match game.platform {
                Platform::GameBoy => row.push("GB".to_owned()),
                Platform::GameBoyColor => row.push("GBC".to_owned()),
            }
            assert(Seq::new(row@.len(), |j: int| row@[j]@) =~= row_of(game@));
            rows.push(row);
            i += 1;
        }
        let list = Self { rows, list_index: 0 };
        assert forall|i: int| 0 <= i < games@.len() implies #[trigger] list.rows()[i] == row_of(
            games@[i]@,
        ) by {
            assert(Seq::new((#[trigger] rows@[i])@.len(), |j: int| rows@[i]@[j]@) == row_of(
                games@[i]@,
            ));
        }
        list
    }

    /// Number of rows.
    pub fn len(&self) -> (n: usize)
        ensures
            n == self.rows().len(),
    {
        self.rows.len()
    }

    /// The cells of the rows.
    pub fn cells(&self) -> (rows: &Vec<Vec<String>>)
        ensures
            rows@.len() == self.rows().len(),
            forall|i: int, j: int|
                0 <= i < rows@.len() && 0 <= j < rows@[i]@.len() ==> (#[trigger] rows@[i]@[j])@
                    == self.rows()[i][j],
            forall|i: int| 0 <= i < rows@.len() ==> (#[trigger] rows@[i])@.len() == self.rows()[i].len(),
    {
        &self.rows
    }

    /// The index of the selected row.
    pub fn list_index(&self) -> (index: usize)
        ensures
            index == self.selected(),
    {
        self.list_index
    }

    /// Handles a key: `Up` and `Down` move the selection by one row and stop
    /// at the ends, `Enter` asks for the selected game, `Esc` asks to leave.
    pub fn on(&mut self, key: MenuKey) -> (msg: Option<Msg>)
        requires
            old(self).wf(),
        ensures
            final(self).wf(),
            final(self).rows() == old(self).rows(),
            final(self).selected() == index_after(
                old(self).selected() as nat,
                old(self).rows().len(),
                key,
            ),
            msg == message_for(old(self).selected(), key),
    {
        match key {
            MenuKey::Down => {
                self.list_index = move_down(self.list_index, self.rows.len());
                Some(Msg::Redraw)
            },
            MenuKey::Up => {
                self.list_index = move_up(self.list_index);
                Some(Msg::Redraw)
            },
            MenuKey::Enter => Some(Msg::SelectGame(self.list_index)),
            MenuKey::Esc => Some(Msg::Exit),
            MenuKey::Other => None,
        }
    }
}

} // verus!
