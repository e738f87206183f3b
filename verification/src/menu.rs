//! The menu: the catalogue of games, the keys that move through it, and the
//! screen that shows it.

use std::path::PathBuf;
use std::rc::Rc;
use vstd::prelude::*;

pub mod catalog;
pub mod games_list;
pub mod gpio_port;
pub mod text;

use crate::app_config::AppConfig;
use crate::framebuffer::Framebuffer;
use crate::input::{ButtonEvent, EventQueue, TryRecvError};
use self::catalog::{catalog_view, scan, scanned, DirectoryEntry, GameEntry, GameEntryView, Platform};
use self::games_list::{index_after, message_for, move_down, move_up, Msg};
use self::gpio_port::{menu_key, menu_key_of, MenuKey};
use self::text::{draw_text, overlaid, text_paints, GLYPH_SIZE, LINE_H, WHITE};

verus! {

/// Row of pixels at which the first line of the menu begins.
pub const PADDING_Y: usize = 16;

/// Column of pixels at which every line of the menu begins.
pub const PADDING_X: usize = 16;

/// Lines that stand above the list: the title and the subtitle.
pub const HEADER_LINES: usize = 2;

/// The first line of the menu.
pub const TITLE: &'static str = "handheld_frontend 0.1.0";

/// The second line of the menu.
pub const SUBTITLE: &'static str = "Press start to play a game";

/// The line shown in place of the list where the catalogue is empty.
pub const NO_GAMES: &'static str = "You have no games in your ROMs directory";

/// The state of the menu.
#[derive(Debug, Clone, Copy, PartialEq, Eq, Structural)]
pub enum MenuState {
    /// The user moves through the list. `dirty` says that the screen no
    /// longer shows the menu as it is.
    Browsing { selected: usize, dirty: bool },
    /// The user has confirmed the game at index `selected`. Final.
    Launching { selected: usize },
    /// The menu is left. Final.
    Exiting,
}

/// What the application does after a run of the menu.
#[derive(Debug)]
pub enum AppState {
    /// Stay in the menu: nothing is pending, and the producer of the events
    /// is still there.
    Continue,
    /// Hand the selected game over to the emulator.
    Launch { rom_file: PathBuf, config: Rc<AppConfig> },
    /// Leave the application.
    Exit,
}

/// One line of the menu on the screen.
pub struct MenuLine {
    pub text: Seq<char>,
    pub invert: bool,
}

/// Whether `state` is a state of a menu over `count` games: the selected
/// index is that of a game, or 0 while an empty catalogue is browsed.
pub open spec fn state_valid(state: MenuState, count: nat) -> bool {
    match state {
        MenuState::Browsing { selected, dirty } => selected < count || (count == 0 && selected
            == 0),
        MenuState::Launching { selected } => selected < count,
        MenuState::Exiting => true,
    }
}

/// The state after one button event, in a menu over `count` games. The
/// event counts as the menu key it stands for, and the list answers the key:
/// a request for a game launches it if there is one, a request to leave
/// exits, and a move of the selection, which stops at both ends of the list,
/// marks the screen as dirty. Releases and the other buttons change nothing,
/// and neither does anything in a final state.
pub open spec fn next_state(state: MenuState, count: nat, event: ButtonEvent) -> MenuState {
    match state {
        MenuState::Browsing { selected, dirty } => match menu_key_of(event) {
            Some(key) => match message_for(selected, key) {
                Some(Msg::SelectGame(index)) => if index < count {
                    MenuState::Launching { selected: index }
                } else {
                    state
                },
                Some(Msg::Exit) => MenuState::Exiting,
                Some(Msg::Redraw) => MenuState::Browsing {
                    selected: index_after(selected as nat, count, key) as usize,
                    dirty: true,
                },
                None => state,
            },
            None => state,
        },
        _ => state,
    }
}

/// The state after one button event.
pub fn advance(state: MenuState, count: usize, event: ButtonEvent) -> (next: MenuState)
    ensures
        next == next_state(state, count as nat, event),
{
    match state {
        MenuState::Browsing { selected, dirty } => match menu_key(event) {
            Some(MenuKey::Enter) => if selected < count {
                MenuState::Launching { selected }
            } else {
                state
            },
            Some(MenuKey::Esc) => MenuState::Exiting,
            Some(MenuKey::Up) => MenuState::Browsing { selected: move_up(selected), dirty: true },
            Some(MenuKey::Down) => MenuState::Browsing {
                selected: move_down(selected, count),
                dirty: true,
            },
            _ => state,
        },
        _ => state,
    }
}

/// Where a run of the menu ends.
pub struct RunResult {
    /// The state in which the run ends.
    pub state: MenuState,
    /// How many pending events the run has taken.
    pub consumed: nat,
    /// The selection with which the screen was last drawn, if it was drawn.
    pub shown: Option<usize>,
}

/// A run of the menu from `state` over the pending `events`, without a
/// request to shut down. While browsing, a dirty screen is drawn before the
/// next event is taken. The run ends in a final state, or with nothing
/// pending: then the menu goes on browsing if the producer of the events is
/// `connected`, and exits if it is gone.
pub open spec fn run_result(
    state: MenuState,
    count: nat,
    events: Seq<ButtonEvent>,
    connected: bool,
) -> RunResult
    decreases events.len(),
{
    match state {
        MenuState::Browsing { selected, dirty } => {
            let shown = if dirty {
                Some(selected)
            } else {
                None
            };
            if events.len() == 0 {
                RunResult {
                    state: if connected {
                        MenuState::Browsing { selected, dirty: false }
                    } else {
                        MenuState::Exiting
                    },
                    consumed: 0,
                    shown,
                }
            } else {
                let rest = run_result(
                    next_state(MenuState::Browsing { selected, dirty: false }, count, events[0]),
                    count,
                    events.drop_first(),
                    connected,
                );
                RunResult {
                    state: rest.state,
                    consumed: rest.consumed + 1,
                    shown: if rest.shown is Some {
                        rest.shown
                    } else {
                        shown
                    },
                }
            }
        },
        _ => RunResult { state, consumed: 0, shown: None },
    }
}

/// Row of pixels at which the first row of the list begins, below the title
/// and the subtitle.
pub const LIST_TOP: usize = 48;

/// How many rows of the list fit on a screen of `height` rows of pixels: the
/// rows whose glyphs, eight rows of pixels from the top of their line, lie on
/// the screen.
pub open spec fn max_visible(height: nat) -> nat {
    if height >= LIST_TOP + GLYPH_SIZE {
        ((height - LIST_TOP - GLYPH_SIZE) / (LINE_H as int) + 1) as nat
    } else {
        0
    }
}

/// Index of the first game that is shown: the window of `room` rows is
/// centred on the selection and does not run past the end of the list.
pub open spec fn first_visible(selected: nat, count: nat, room: nat) -> nat {
    let wanted = if selected >= room / 2 {
        (selected - room / 2) as nat
    } else {
        0
    };
    let last_start = if count >= room {
        (count - room) as nat
    } else {
        0
    };
    if wanted > last_start {
        last_start
    } else {
        wanted
    }
}

/// How many games are shown from `first` on, in a window of `room` rows.
pub open spec fn visible_count(count: nat, first: nat, room: nat) -> nat {
    if count - first < room {
        (count - first) as nat
    } else {
        room
    }
}

/// The name of a platform as the menu shows it.
pub open spec fn platform_label(platform: Platform) -> Seq<char> {
    match platform {
        Platform::GameBoy => "GameBoy"@,
        Platform::GameBoyColor => "GameBoyColor"@,
    }
}

/// The text of the row of a game: a mark for the selected one, the name and
/// the platform.
pub open spec fn row_text(game: GameEntryView, is_selected: bool) -> Seq<char> {
    (if is_selected {
        ">"@
    } else {
        " "@
    }) + " "@ + game.name + " - "@ + platform_label(game.platform)
}

/// Number of lines of the menu: the title, the subtitle, and the rows that
/// are shown, or one line that says that there are no games.
pub open spec fn menu_line_count(games: Seq<GameEntryView>, selected: nat, height: nat) -> nat {
    if games.len() == 0 {
        HEADER_LINES as nat + 1
    } else {
        HEADER_LINES as nat + visible_count(
            games.len(),
            first_visible(selected, games.len(), max_visible(height)),
            max_visible(height),
        )
    }
}

/// Line `k` of the menu, counted from the title. The row of the selected
/// game is inverted.
pub open spec fn menu_line(games: Seq<GameEntryView>, selected: nat, height: nat, k: int) -> MenuLine {
    if k == 0 {
        MenuLine { text: TITLE@, invert: false }
    } else if k == 1 {
        MenuLine { text: SUBTITLE@, invert: false }
    } else if games.len() == 0 {
        MenuLine { text: NO_GAMES@, invert: false }
    } else {
        let index = first_visible(selected, games.len(), max_visible(height)) + k - HEADER_LINES;
        MenuLine { text: row_text(games[index], index == selected), invert: index == selected }
    }
}

/// Whether one of the first `lines` lines of the menu paints the pixel
/// `(px, py)`. Line `k` begins `k` line heights below the top padding.
pub open spec fn menu_paints(
    games: Seq<GameEntryView>,
    selected: nat,
    height: nat,
    lines: nat,
    px: int,
    py: int,
) -> bool {
    let k = (py - PADDING_Y) / (LINE_H as int);
    &&& py >= PADDING_Y
    &&& k < lines
    &&& text_paints(
        menu_line(games, selected, height, k).text,
        PADDING_X as int,
        PADDING_Y + k * LINE_H,
        menu_line(games, selected, height, k).invert,
        px,
        py,
    )
}

/// The surface holds the first `lines` lines of the menu, white on black.
pub open spec fn shows_lines(
    fb: &Framebuffer,
    games: Seq<GameEntryView>,
    selected: nat,
    lines: nat,
) -> bool {
    &&& fb.wf()
    &&& fb.rest_is_zero()
    &&& forall|px: int, py: int|
        0 <= px < fb.spec_stride() && 0 <= py < fb.spec_height() ==> #[trigger] fb.spec_pixel(
            px,
            py,
        ) == if fb.in_bounds(px, py) && menu_paints(
            games,
            selected,
            fb.spec_height(),
            lines,
            px,
            py,
        ) {
            WHITE
        } else {
            0u16
        }
}

/// The surface holds the menu over `games` with `selected` selected, and
/// nothing else.
pub open spec fn shows_menu(fb: &Framebuffer, games: Seq<GameEntryView>, selected: nat) -> bool {
    shows_lines(fb, games, selected, menu_line_count(games, selected, fb.spec_height()))
}

/// The name of a platform as the menu shows it.
pub fn label(platform: Platform) -> (name: &'static str)
    ensures
        name@ == platform_label(platform),
{
    match platform {
        Platform::GameBoy => "GameBoy",
        Platform::GameBoyColor => "GameBoyColor",
    }
}

/// The text of the row of a game.
pub fn row_line(game: &GameEntry, is_selected: bool) -> (line: String)
    ensures
        line@ == row_text(game@, is_selected),
{
    let mut line: String = if is_selected {
        ">".to_owned()
    } else {
        " ".to_owned()
    };
    line.append(" ");
    line.append(game.name.as_str());
    line.append(" - ");
    line.append(label(game.platform));
    line
}

/// `Rc::clone`: a second handle to the configuration that `config` points
/// to. Nothing is copied but the pointer.
#[verifier::external_body]
fn share(config: &Rc<AppConfig>) -> (shared: Rc<AppConfig>)
    ensures
        shared == *config,
{
    Rc::clone(config)
}

/// The menu of the application: the catalogue and the state of the
/// selection.
pub struct AppMenu {
    config: Rc<AppConfig>,
    games: Vec<GameEntry>,
    state: MenuState,
}

impl AppMenu {
    /// The catalogue.
    pub closed spec fn games(&self) -> Seq<GameEntry> {
        self.games@
    }

    /// The state of the menu.
    pub closed spec fn state(&self) -> MenuState {
        self.state
    }

    /// The configuration that is handed on with a launched game.
    pub closed spec fn config(&self) -> Rc<AppConfig> {
        self.config
    }

    /// The state fits the catalogue.
    pub open spec fn wf(&self) -> bool {
        state_valid(self.state(), self.games().len())
    }

    /// What the application does in `state`: a launch hands over the path of
    /// the selected game and the configuration.
    pub open spec fn outcome_is(&self, state: MenuState, outcome: AppState) -> bool {
        match state {
            MenuState::Browsing { selected, dirty } => outcome is Continue,
            MenuState::Launching { selected } => match outcome {
                AppState::Launch { rom_file, config } => rom_file == self.games()[selected as int].path
                    && config == self.config(),
                _ => false,
            },
            MenuState::Exiting => outcome is Exit,
        }
    }

    /// The menu over the games of a directory listing, with the first game
    /// selected and nothing drawn yet.
    pub fn new(config: Rc<AppConfig>, entries: &Vec<DirectoryEntry>) -> (menu: Self)
        ensures
            menu.wf(),
            menu.config() == config,
            catalog_view(menu.games()) == scanned(entries@, entries@.len()),
            menu.state() == (MenuState::Browsing { selected: 0, dirty: true }),
    {
        let games: Vec<GameEntry> = scan(entries);
        Self { config, games, state: MenuState::Browsing { selected: 0, dirty: true } }
    }

    /// The state of the menu.
    pub fn current_state(&self) -> (state: MenuState)
        ensures
            state == self.state(),
    {
        self.state
    }

    /// The catalogue.
    pub fn entries(&self) -> (games: &Vec<GameEntry>)
        ensures
            games@ == self.games(),
    {
        &self.games
    }

    /// Draws the menu with the game at `selected` marked: clears the
    /// surface, then writes the title, the subtitle and the rows of the list
    /// that fit, the window centred on the selection.
    pub fn redraw(&self, fb: &mut Framebuffer, selected: usize)
        requires
            old(fb).wf(),
        ensures
            final(fb).same_layout(old(fb)),
            shows_menu(final(fb), catalog_view(self.games()), selected as nat),
    {
        let ghost games = catalog_view(self.games());
        let ghost height = fb.spec_height();
        fb.zero();
        if fb.width() == 0 || fb.height() == 0 {
            return ;
        }
        proof {
            fb.lemma_dimensions_fit();
        }
        let room: usize = if fb.height() >= LIST_TOP + GLYPH_SIZE {
            (fb.height() - LIST_TOP - GLYPH_SIZE) / LINE_H + 1
        } else {
            0
        };
        let count: usize = self.games.len();
        let wanted: usize = selected.saturating_sub(room / 2);
        let last_start: usize = count.saturating_sub(room);
        let first: usize = if wanted > last_start {
            last_start
        } else {
            wanted
        };
        assert(room == max_visible(height));
        assert(first == first_visible(selected as nat, count as nat, room as nat));
        let mut y: usize = PADDING_Y;
        assert(shows_lines(fb, games, selected as nat, 0));
        let ghost blank = *fb;
        draw_text(fb, TITLE, PADDING_X, &mut y, false);
        proof {
            lemma_line_drawn(&blank, fb, games, selected as nat, 0);
        }
        let ghost titled = *fb;
        draw_text(fb, SUBTITLE, PADDING_X, &mut y, false);
        proof {
            lemma_line_drawn(&titled, fb, games, selected as nat, 1);
        }
        if count == 0 {
            let ghost headed = *fb;
            draw_text(fb, NO_GAMES, PADDING_X, &mut y, false);
            proof {
                lemma_line_drawn(&headed, fb, games, selected as nat, 2);
            }
            return ;
        }
        let shown: usize = if count - first < room {
            count - first
        } else {
            room
        };
        let mut i: usize = 0;
        while i < shown
            invariant
                i <= shown,
                shown <= room,
                first + shown <= count,
                count == self.games().len(),
                count > 0,
                games == catalog_view(self.games()),
                height == fb.spec_height(),
                room == max_visible(height),
                first == first_visible(selected as nat, count as nat, room as nat),
                y == PADDING_Y + LINE_H * (HEADER_LINES + i),
                fb.spec_height() * 2 <= usize::MAX,
                fb.same_layout(old(fb)),
                shows_lines(fb, games, selected as nat, (HEADER_LINES + i) as nat),
            decreases shown - i,
        {
            let ghost prev = *fb;
            let game: &GameEntry = &self.games[first + i];
            let is_selected: bool = first + i == selected;
            let line: String = row_line(game, is_selected);
            draw_text(fb, line.as_str(), PADDING_X, &mut y, is_selected);
            proof {
                assert(games[first + i] == game@);
                lemma_line_drawn(&prev, fb, games, selected as nat, (HEADER_LINES + i) as nat);
            }
            i += 1;
        }
    }

    /// Runs the menu until it has to wait or is done. A request to shut
    /// down (`exit`) ends the menu at once and overrides everything that is
    /// pending. Otherwise the pending events are taken in order; the screen
    /// is drawn before an event is taken whenever it is dirty. The run ends
    /// with a launch, with an exit, or, where nothing is pending, with
    /// `Continue` if the producer of the events is still there and with an
    /// exit if it is gone. In a final state the menu takes no more events.
    pub fn run(&mut self, events: &mut EventQueue, fb: &mut Framebuffer, exit: bool) -> (outcome:
        AppState)
        requires
            old(self).wf(),
            old(fb).wf(),
        ensures
            final(self).wf(),
            final(self).games() == old(self).games(),
            final(self).config() == old(self).config(),
            final(events).is_connected() == old(events).is_connected(),
            final(fb).wf(),
            final(fb).same_layout(old(fb)),
            final(self).outcome_is(final(self).state(), outcome),
            exit ==> {
                &&& final(self).state() == MenuState::Exiting
                &&& final(events)@ == old(events)@
                &&& final(fb).same_content(old(fb))
            },
            !exit ==> {
                let end = run_result(
                    old(self).state(),
                    old(self).games().len(),
                    old(events)@,
                    old(events).is_connected(),
                );
                &&& final(self).state() == end.state
                &&& final(events)@ == old(events)@.subrange(
                    end.consumed as int,
                    old(events)@.len() as int,
                )
                &&& match end.shown {
                    Some(selected) => shows_menu(
                        final(fb),
                        catalog_view(old(self).games()),
                        selected as nat,
                    ),
                    None => final(fb).same_content(old(fb)),
                }
            },
    {
        if exit {
            self.state = MenuState::Exiting;
            return AppState::Exit;
        }
        let count: usize = self.games.len();
        let ghost connected = events.is_connected();
        let ghost end = run_result(self.state(), count as nat, events@, connected);
        let ghost taken: nat = 0;
        let ghost shown: Option<usize> = None;
        assert(events@ =~= old(events)@.subrange(0, old(events)@.len() as int));
        loop
            invariant
                !exit,
                self.wf(),
                self.games() == old(self).games(),
                self.config() == old(self).config(),
                count == self.games().len(),
                connected == old(events).is_connected(),
                events.is_connected() == connected,
                fb.wf(),
                fb.same_layout(old(fb)),
                end == run_result(
                    old(self).state(),
                    old(self).games().len(),
                    old(events)@,
                    old(events).is_connected(),
                ),
                taken <= old(events)@.len(),
                events@ == old(events)@.subrange(taken as int, old(events)@.len() as int),
                end.state == run_result(self.state(), count as nat, events@, connected).state,
                end.consumed == taken + run_result(
                    self.state(),
                    count as nat,
                    events@,
                    connected,
                ).consumed,
                end.shown == if run_result(self.state(), count as nat, events@, connected).shown
                    is Some {
                    run_result(self.state(), count as nat, events@, connected).shown
                } else {
                    shown
                },
                match shown {
                    Some(selected) => shows_menu(fb, catalog_view(self.games()), selected as nat),
                    None => fb.same_content(old(fb)),
                },
            decreases events@.len(),
        {
            match self.state {
                MenuState::Launching { selected } => {
                    return AppState::Launch {
                        rom_file: self.games[selected].path.clone(),
                        config: share(&self.config),
                    };
                },
                MenuState::Exiting => {
                    return AppState::Exit;
                },
                MenuState::Browsing { selected, dirty } => {
                    let browsing = MenuState::Browsing { selected, dirty: false };
                    if dirty {
                        self.redraw(fb, selected);
                        self.state = browsing;
                        proof {
                            shown = Some(selected);
                        }
                    }
                    let ghost pending = events@;
                    match events.try_recv() {
                        Err(TryRecvError::Empty) => {
                            return AppState::Continue;
                        },
                        Err(TryRecvError::Disconnected) => {
                            self.state = MenuState::Exiting;
                            return AppState::Exit;
                        },
                        Ok(event) => {
                            proof {
                                lemma_next_state_valid(browsing, count as nat, event);
                                assert(events@ =~= pending.drop_first());
                                assert(events@ =~= old(events)@.subrange(
                                    (taken + 1) as int,
                                    old(events)@.len() as int,
                                ));
                                taken = taken + 1;
                            }
                            self.state = advance(browsing, count, event);
                        },
                    }
                },
            }
        }
    }
}

/// Drawing line `k` of the menu onto a surface that holds the lines before
/// it gives a surface that holds the lines up to `k`.
proof fn lemma_line_drawn(
    prev: &Framebuffer,
    next: &Framebuffer,
    games: Seq<GameEntryView>,
    selected: nat,
    k: nat,
)
    requires
        shows_lines(prev, games, selected, k),
        overlaid(
            next,
            prev,
            |px: int, py: int|
                text_paints(
                    menu_line(games, selected, prev.spec_height(), k as int).text,
                    PADDING_X as int,
                    PADDING_Y + LINE_H * k,
                    menu_line(games, selected, prev.spec_height(), k as int).invert,
                    px,
                    py,
                ),
        ),
    ensures
        shows_lines(next, games, selected, k + 1),
{
    assert forall|px: int, py: int|
        0 <= px < next.spec_stride() && 0 <= py < next.spec_height() implies #[trigger] next.spec_pixel(
        px,
        py,
    ) == if next.in_bounds(px, py) && menu_paints(
        games,
        selected,
        next.spec_height(),
        k + 1,
        px,
        py,
    ) {
        WHITE
    } else {
        0u16
    } by {
        assert(prev.spec_pixel(px, py) == if prev.in_bounds(px, py) && menu_paints(
            games,
            selected,
            prev.spec_height(),
            k,
            px,
            py,
        ) {
            WHITE
        } else {
            0u16
        });
        let row = (py - PADDING_Y) / (LINE_H as int);
        if py >= PADDING_Y + LINE_H * k && py < PADDING_Y + LINE_H * k + 8 {
            assert(row == k);
        }
        assert(PADDING_Y + k * LINE_H == PADDING_Y + LINE_H * k);
    }
}

/// The window holds the selected game, and the glyphs of the row of the
/// selected game lie on the screen, whenever the screen has room for a row
/// at all.
pub proof fn lemma_selected_row_is_visible(selected: nat, count: nat, height: nat)
    requires
        selected < count,
        max_visible(height) > 0,
    ensures
        ({
            let room = max_visible(height);
            let first = first_visible(selected, count, room);
            &&& first <= selected < first + visible_count(count, first, room)
            &&& PADDING_Y + LINE_H * (HEADER_LINES + (selected - first)) + GLYPH_SIZE <= height
        }),
{
}

/// Every event keeps the selected index inside the catalogue.
pub proof fn lemma_next_state_valid(state: MenuState, count: nat, event: ButtonEvent)
    requires
        state_valid(state, count),
    ensures
        state_valid(next_state(state, count, event), count),
        count == 0 ==> !(next_state(state, count, event) is Launching),
{
}

/// Whatever events arrive, in whatever number and order, the selected index
/// never leaves the catalogue. On an empty catalogue it stays 0 and confirm
/// launches nothing.
pub proof fn lemma_selection_in_bounds(
    state: MenuState,
    count: nat,
    events: Seq<ButtonEvent>,
    connected: bool,
)
    requires
        state_valid(state, count),
    ensures
        state_valid(run_result(state, count, events, connected).state, count),
        run_result(state, count, events, connected).consumed <= events.len(),
        count == 0 ==> !(run_result(state, count, events, connected).state is Launching),
    decreases events.len(),
{
    if let MenuState::Browsing { selected, dirty } = state {
        if events.len() > 0 {
            let browsing = MenuState::Browsing { selected, dirty: false };
            lemma_next_state_valid(browsing, count, events[0]);
            lemma_selection_in_bounds(
                next_state(browsing, count, events[0]),
                count,
                events.drop_first(),
                connected,
            );
        }
    }
}

/// The state after a sequence of events, taken one after the other.
pub open spec fn walk(state: MenuState, count: nat, events: Seq<ButtonEvent>) -> MenuState
    decreases events.len(),
{
    if events.len() == 0 {
        state
    } else {
        walk(next_state(state, count, events[0]), count, events.drop_first())
    }
}

/// The state without the mark that the screen is dirty.
pub open spec fn drawn(state: MenuState) -> MenuState {
    match state {
        MenuState::Browsing { selected, dirty } => MenuState::Browsing { selected, dirty: false },
        _ => state,
    }
}

/// Whatever events arrive, in whatever number and order, the selected index
/// never leaves the catalogue. On an empty catalogue it stays 0 and nothing
/// is ever launched.
pub proof fn lemma_walk_in_bounds(state: MenuState, count: nat, events: Seq<ButtonEvent>)
    requires
        state_valid(state, count),
    ensures
        state_valid(walk(state, count, events), count),
        count == 0 ==> !(walk(state, count, events) is Launching),
        count == 0 ==> (walk(state, count, events) matches MenuState::Browsing { selected, .. }
            ==> selected == 0),
    decreases events.len(),
{
    if events.len() > 0 {
        lemma_next_state_valid(state, count, events[0]);
        lemma_walk_in_bounds(next_state(state, count, events[0]), count, events.drop_first());
    }
}

/// A final state stays as it is, whatever events arrive.
pub proof fn lemma_final_state_stays(state: MenuState, count: nat, events: Seq<ButtonEvent>)
    requires
        !(state is Browsing),
    ensures
        walk(state, count, events) == state,
    decreases events.len(),
{
    if events.len() > 0 {
        lemma_final_state_stays(state, count, events.drop_first());
    }
}

/// Taking two sequences of events one after the other is taking them as one.
pub proof fn lemma_walk_concat(
    state: MenuState,
    count: nat,
    first: Seq<ButtonEvent>,
    second: Seq<ButtonEvent>,
)
    ensures
        walk(state, count, first + second) == walk(walk(state, count, first), count, second),
    decreases first.len(),
{
    if first.len() == 0 {
        assert(first + second =~= second);
    } else {
        assert((first + second)[0] == first[0]);
        assert((first + second).drop_first() =~= first.drop_first() + second);
        lemma_walk_concat(next_state(state, count, first[0]), count, first.drop_first(), second);
    }
}

/// A press of a cancel button while the menu is browsed ends the menu,
/// wherever the selection is and whatever events came before or come after.
pub proof fn lemma_cancel_exits_walk(
    state: MenuState,
    count: nat,
    before: Seq<ButtonEvent>,
    cancel: ButtonEvent,
    after: Seq<ButtonEvent>,
)
    requires
        menu_key_of(cancel) == Some(MenuKey::Esc),
        walk(state, count, before) is Browsing,
    ensures
        walk(state, count, before + seq![cancel] + after) == MenuState::Exiting,
{
    let reached = walk(state, count, before);
    lemma_walk_concat(state, count, before + seq![cancel], after);
    lemma_walk_concat(state, count, before, seq![cancel]);
    let one = seq![cancel];
    assert(one.len() == 1 && one[0] == cancel);
    assert(walk(next_state(reached, count, cancel), count, one.drop_first()) == next_state(
        reached,
        count,
        cancel,
    ));
    lemma_final_state_stays(MenuState::Exiting, count, after);
}

/// A press of a cancel button ends a run of the menu at once, wherever the
/// selection is and whatever is pending behind it.
pub proof fn lemma_cancel_exits(
    selected: usize,
    dirty: bool,
    count: nat,
    events: Seq<ButtonEvent>,
    connected: bool,
)
    requires
        events.len() > 0,
        menu_key_of(events[0]) == Some(MenuKey::Esc),
    ensures
        run_result(MenuState::Browsing { selected, dirty }, count, events, connected).state
            == MenuState::Exiting,
        run_result(MenuState::Browsing { selected, dirty }, count, events, connected).consumed
            == 1,
{
    assert(run_result(MenuState::Exiting, count, events.drop_first(), connected).state
        == MenuState::Exiting);
}

/// A run of the menu is the walk over the events that it takes: it stops
/// taking events in a final state, and where it has taken them all and is
/// still browsing it exits only if the producer of the events is gone.
pub proof fn lemma_run_is_walk(
    state: MenuState,
    count: nat,
    events: Seq<ButtonEvent>,
    connected: bool,
)
    ensures
        ({
            let end = run_result(state, count, events, connected);
            let walked = walk(drawn(state), count, events.take(end.consumed as int));
            &&& end.consumed <= events.len()
            &&& if walked is Browsing {
                &&& end.consumed == events.len()
                &&& end.state == if connected {
                    drawn(walked)
                } else {
                    MenuState::Exiting
                }
            } else {
                end.state == walked
            }
        }),
    decreases events.len(),
{
    let end = run_result(state, count, events, connected);
    match state {
        MenuState::Browsing { selected, dirty } => {
            let browsing = MenuState::Browsing { selected, dirty: false };
            if events.len() == 0 {
                assert(events.take(0) =~= events);
            } else {
                let next = next_state(browsing, count, events[0]);
                let rest = events.drop_first();
                let tail = run_result(next, count, rest, connected);
                lemma_run_is_walk(next, count, rest, connected);
                assert(events.take(end.consumed as int).drop_first() =~= rest.take(
                    tail.consumed as int,
                ));
                assert(events.take(end.consumed as int)[0] == events[0]);
                lemma_walk_ignores_dirt(next, count, rest.take(tail.consumed as int));
            }
        },
        _ => {
            assert(events.take(0).len() == 0);
        },
    }
}

/// Whether the screen is dirty changes nothing in where a walk leads, but
/// for that mark itself.
pub proof fn lemma_walk_ignores_dirt(state: MenuState, count: nat, events: Seq<ButtonEvent>)
    ensures
        drawn(walk(drawn(state), count, events)) == drawn(walk(state, count, events)),
    decreases events.len(),
{
    if events.len() > 0 {
        let clean = next_state(drawn(state), count, events[0]);
        let plain = next_state(state, count, events[0]);
        assert(drawn(clean) == drawn(plain));
        lemma_walk_ignores_dirt(clean, count, events.drop_first());
        lemma_walk_ignores_dirt(plain, count, events.drop_first());
    }
}

} // verus!
