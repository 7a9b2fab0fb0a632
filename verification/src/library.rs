//! The console's Library tab: the game grid's selection, launching the
//! selected game, and what a finished session reports.
//!
//! The shell scans sources and runs sessions in the background; the state
//! here decides what each event does and what the grid shows.
use vstd::prelude::*;

use crate::games::{game_views, Game, GameView, LaunchSpec, LaunchView, SourceKind};
use crate::input::NavEvent;
use crate::launch::{Gamescope, LaunchOptions, SessionEvent};
use crate::system::strings;
use crate::text::{chars_of, concat, decimal, decimal_string, opt_str, owned, push_char};

verus! {

broadcast use vstd::string::group_string_axioms;

/// Tiles per grid row.
pub const COLUMNS: usize = 4;

/// Grid rows on screen at once.
pub const VISIBLE_ROWS: usize = 3;

pub struct LibraryState {
    pub games: Vec<Game>,
    pub selected: usize,
    pub scanning: bool,
    /// Title of the game currently owning the screen.
    pub session: Option<String>,
    /// Wrap the next launch in gamescope (toggled with Menu/F1).
    pub gamescope: bool,
}

impl Default for LibraryState {
    fn default() -> (r: Self)
        ensures
            r.games@.len() == 0,
            r.selected == 0,
            !r.scanning,
            r.session is None,
            !r.gamescope,
    {
        LibraryState {
            games: Vec::new(),
            selected: 0,
            scanning: false,
            session: None,
            gamescope: false,
        }
    }
}

/// `x` clamped to `lo..=hi`.
pub open spec fn clamp(x: int, lo: int, hi: int) -> int {
    if x < lo {
        lo
    } else if x > hi {
        hi
    } else {
        x
    }
}

/// `on` or `off`.
pub open spec fn on_off(b: bool) -> Seq<char> {
    if b {
        "on"@
    } else {
        "off"@
    }
}

/// What a Library navigation event asks the shell to do.
pub enum LibraryAction {
    Nothing,
    /// Run this game session (the session is already marked as running).
    Launch(LaunchSpec, LaunchOptions),
    /// Show a status message.
    Toast(String),
    /// Show a status message and rescan the sources (the scan is already
    /// marked as running).
    Rescan(String),
}

/// A copy of a launch spec.
pub fn copy_launch(spec: &LaunchSpec) -> (r: LaunchSpec)
    ensures
        r@ == spec@,
{
    match spec {
        LaunchSpec::Command(argv) => {
            let mut out: Vec<String> = Vec::new();
            let mut i: usize = 0;
            while i < argv.len()
                invariant
                    i <= argv@.len(),
                    strings(out@) == strings(argv@).take(i as int),
                decreases argv@.len() - i,
            {
                let ghost before = strings(out@);
                let s = argv[i].clone();
                out.push(s);
                assert(strings(out@) == before.push(s@));
                assert(strings(argv@).take(i + 1) == strings(argv@).take(i as int).push(argv@[i as int]@));
                i = i + 1;
            }
            assert(strings(argv@).take(i as int) == strings(argv@));
            LaunchSpec::Command(out)
        },
        LaunchSpec::SteamAppId(id) => LaunchSpec::SteamAppId(*id),
        LaunchSpec::FlatpakRef(app) => LaunchSpec::FlatpakRef(app.clone()),
        LaunchSpec::Heroic { runner, id } => LaunchSpec::Heroic { runner: runner.clone(), id: id.clone() },
    }
}

/// The gamescope setup launches use when wrapping is on: 1920x1080, no
/// frame limit.
pub open spec fn launch_options_spec(gamescope: bool) -> LaunchOptions {
    LaunchOptions {
        gamescope: if gamescope {
            Some(Gamescope { width: 1920, height: 1080, fps_limit: None })
        } else {
            None
        },
    }
}

impl LibraryState {
    /// Start a rescan unless one is running; true when the caller should
    /// scan.
    pub fn begin_rescan(&mut self) -> (r: bool)
        ensures
            r == !old(self).scanning,
            final(self).scanning,
            final(self).games@ == old(self).games@,
            final(self).selected == old(self).selected,
            final(self).session == old(self).session,
            final(self).gamescope == old(self).gamescope,
    {
        if self.scanning {
            return false;
        }
        self.scanning = true;
        true
    }

    /// Take the games of a finished scan; the selection is kept on the
    /// grid.
    pub fn finish_rescan(&mut self, games: Vec<Game>)
        ensures
            !final(self).scanning,
            final(self).games@ == games@,
            final(self).selected == if old(self).selected < games@.len() {
                old(self).selected as int
            } else if games@.len() == 0 {
                0
            } else {
                games@.len() - 1
            },
            final(self).session == old(self).session,
            final(self).gamescope == old(self).gamescope,
    {
        self.scanning = false;
        let n = games.len();
        self.games = games;
        let last = if n > 0 {
            n - 1
        } else {
            0
        };
        if self.selected > last {
            self.selected = last;
        }
    }

    /// Move the selection by `delta` tiles, clamped to the grid.
    pub fn move_selection(&mut self, delta: isize)
        requires
            old(self).selected <= isize::MAX,
            isize::MIN <= old(self).selected + delta <= isize::MAX,
        ensures
            final(self).selected == if old(self).games@.len() == 0 {
                old(self).selected as int
            } else {
                clamp(old(self).selected + delta, 0, old(self).games@.len() - 1)
            },
            final(self).games@ == old(self).games@,
            final(self).scanning == old(self).scanning,
            final(self).session == old(self).session,
            final(self).gamescope == old(self).gamescope,
    {
        let count = self.games.len();
        if count == 0 {
            return;
        }
        let next: i128 = self.selected as i128 + delta as i128;
        let hi: i128 = (count - 1) as i128;
        self.selected = if next < 0 {
            0
        } else if next > hi {
            count - 1
        } else {
            next as usize
        };
    }

    /// Launch the selected game unless a session is running: the session is
    /// marked with its title and the spec and options to run come back.
    pub fn launch_selected(&mut self) -> (r: Option<(LaunchSpec, LaunchOptions)>)
        ensures
            match r {
                Some((spec, opts)) => {
                    &&& old(self).session is None
                    &&& old(self).selected < old(self).games@.len()
                    &&& spec@ == old(self).games@[old(self).selected as int].launch@
                    &&& opts == launch_options_spec(old(self).gamescope)
                    &&& opt_str(final(self).session) == Some(
                        old(self).games@[old(self).selected as int].title@,
                    )
                },
                None => (old(self).session is Some || old(self).selected >= old(self).games@.len())
                    && final(self).session == old(self).session,
            },
            final(self).games@ == old(self).games@,
            final(self).selected == old(self).selected,
            final(self).scanning == old(self).scanning,
            final(self).gamescope == old(self).gamescope,
    {
        if self.session.is_some() {
            return None;
        }
        if self.selected >= self.games.len() {
            return None;
        }
        let game = &self.games[self.selected];
        let spec = copy_launch(&game.launch);
        let title = game.title.clone();
        let opts = LaunchOptions {
            gamescope: if self.gamescope {
                Some(Gamescope { width: 1920, height: 1080, fps_limit: None })
            } else {
                None
            },
        };
        self.session = Some(title);
        Some((spec, opts))
    }

    /// What a navigation event does on the Library tab: `post` and `r` are
    /// the state and action after `event` on `self`. Arrows move through
    /// the grid (a row is four tiles), Confirm launches, Menu toggles
    /// gamescope wrapping and rescans the library.
    pub open spec fn nav_step(&self, event: NavEvent, post: LibraryState, r: LibraryAction) -> bool {
        &&& post.games@ == self.games@
        &&& event != NavEvent::Menu ==> post.scanning == self.scanning
        &&& match event {
            NavEvent::Left | NavEvent::Right | NavEvent::Up | NavEvent::Down => {
                let delta: int = match event {
                    NavEvent::Left => -1,
                    NavEvent::Right => 1,
                    NavEvent::Up => -4,
                    _ => 4,
                };
                &&& r is Nothing
                &&& post.selected == if self.games@.len() == 0 {
                    self.selected as int
                } else {
                    clamp(self.selected + delta, 0, self.games@.len() - 1)
                }
                &&& post.session == self.session
                &&& post.gamescope == self.gamescope
            },
            NavEvent::Menu => {
                &&& post.gamescope == !self.gamescope
                &&& post.scanning
                &&& if self.scanning {
                    r matches LibraryAction::Toast(m) && m@ == "gamescope wrapping "@ + on_off(
                        !self.gamescope,
                    )
                } else {
                    r matches LibraryAction::Rescan(m) && m@ == "gamescope wrapping "@ + on_off(
                        !self.gamescope,
                    )
                }
                &&& post.selected == self.selected
                &&& post.session == self.session
            },
            NavEvent::Confirm => {
                &&& post.selected == self.selected
                &&& post.gamescope == self.gamescope
                &&& match r {
                    LibraryAction::Launch(spec, opts) => {
                        &&& self.session is None
                        &&& self.selected < self.games@.len()
                        &&& spec@ == self.games@[self.selected as int].launch@
                        &&& opts == launch_options_spec(self.gamescope)
                        &&& opt_str(post.session) == Some(
                            self.games@[self.selected as int].title@,
                        )
                    },
                    LibraryAction::Nothing => (self.session is Some || self.selected
                        >= self.games@.len()) && post.session == self.session,
                    _ => false,
                }
            },
            _ => r is Nothing && post.selected == self.selected
                && post.session == self.session && post.gamescope == self.gamescope,
        }
    }

    /// Handle a navigation event on the Library tab (see `nav_step`). Tab
    /// switching belongs to the shell.
    pub fn handle_nav(&mut self, event: NavEvent) -> (r: LibraryAction)
        requires
            event != NavEvent::TabNext && event != NavEvent::TabPrev,
            old(self).selected + 4 <= isize::MAX,
        ensures
            old(self).nav_step(event, *final(self), r),
    {
        match event {
            NavEvent::Left => {
                self.move_selection(-1);
                LibraryAction::Nothing
            },
            NavEvent::Right => {
                self.move_selection(1);
                LibraryAction::Nothing
            },
            NavEvent::Up => {
                self.move_selection(-4);
                LibraryAction::Nothing
            },
            NavEvent::Down => {
                self.move_selection(4);
                LibraryAction::Nothing
            },
            NavEvent::Confirm => match self.launch_selected() {
                Some((spec, opts)) => LibraryAction::Launch(spec, opts),
                None => LibraryAction::Nothing,
            },
            NavEvent::Menu => {
                self.gamescope = !self.gamescope;
                let state = if self.gamescope {
                    "on"
                } else {
                    "off"
                };
                let message = concat("gamescope wrapping ", state);
                if self.begin_rescan() {
                    LibraryAction::Rescan(message)
                } else {
                    LibraryAction::Toast(message)
                }
            },
            _ => LibraryAction::Nothing,
        }
    }

    /// A session event: when the game exits the session ends, and an
    /// unsuccessful exit reports `<title> exited with an error`.
    pub fn on_session_event(&mut self, event: SessionEvent) -> (r: Option<String>)
        ensures
            final(self).games@ == old(self).games@,
            final(self).selected == old(self).selected,
            final(self).scanning == old(self).scanning,
            final(self).gamescope == old(self).gamescope,
            match event {
                SessionEvent::Started => r is None && final(self).session == old(self).session,
                SessionEvent::Exited { success } => {
                    &&& final(self).session is None
                    &&& if success {
                        r is None
                    } else {
                        r matches Some(m) && m@ == match opt_str(old(self).session) {
                            Some(t) => t,
                            None => "game"@,
                        } + " exited with an error"@
                    }
                },
            },
    {
        match event {
            SessionEvent::Started => None,
            SessionEvent::Exited { success } => {
                let title = self.session.take();
                if success {
                    None
                } else {
                    let name = match title {
                        Some(t) => t,
                        None => owned("game"),
                    };
                    Some(concat(name.as_str(), " exited with an error"))
                }
            },
        }
    }
}

/// The grid rows on screen for a selection among `count` games: from the
/// row above the selected one (kept on screen as far as the end allows) for
/// up to three rows.
pub open spec fn visible_rows_spec(selected: nat, count: nat) -> (nat, nat) {
    let selected_row = selected / 4;
    let total_rows = (count + 3) / 4;
    let up = if selected_row > 0 {
        (selected_row - 1) as nat
    } else {
        0
    };
    let last_start = if total_rows > 3 {
        (total_rows - 3) as nat
    } else {
        0
    };
    let first = if up < last_start {
        up
    } else {
        last_start
    };
    (first, if first + 3 < total_rows {
        first + 3
    } else {
        total_rows
    })
}

/// The rows of the grid to draw, as a half-open range of row indices.
pub fn visible_rows(selected: usize, count: usize) -> (r: (usize, usize))
    ensures
        (r.0 as nat, r.1 as nat) == visible_rows_spec(selected as nat, count as nat),
{
    let selected_row = selected / COLUMNS;
    let total_rows = count / COLUMNS + if count % COLUMNS > 0 {
        1
    } else {
        0
    };
    assert(total_rows == (count + 3) / 4) by (nonlinear_arith)
        requires
            total_rows == count / 4 + if count % 4 > 0 {
                1int
            } else {
                0int
            },
    ;
    let up = if selected_row > 0 {
        selected_row - 1
    } else {
        0
    };
    let last_start = if total_rows > VISIBLE_ROWS {
        total_rows - VISIBLE_ROWS
    } else {
        0
    };
    let first = if up < last_start {
        up
    } else {
        last_start
    };
    let end = if first + VISIBLE_ROWS < total_rows {
        first + VISIBLE_ROWS
    } else {
        total_rows
    };
    (first, end)
}

/// The header line: `<n> games`.
pub fn games_header(count: usize) -> (r: String)
    ensures
        r@ == decimal(count as nat) + " games"@,
{
    let mut s = decimal_string(count as u64);
    s.append(" games");
    s
}

/// The gamescope hint of the header.
pub fn gamescope_hint(on: bool) -> (r: &'static str)
    ensures
        r@ == if on {
            "gamescope: on (Start toggles)"@
        } else {
            "gamescope: off (Start toggles)"@
        },
{
    if on {
        "gamescope: on (Start toggles)"
    } else {
        "gamescope: off (Start toggles)"
    }
}

/// The message shown while the grid is empty.
pub fn empty_message(scanning: bool) -> (r: &'static str)
    ensures
        r@ == if scanning {
            "Scanning game libraries…"@
        } else {
            "No games found — install some from the Store tab"@
        },
{
    if scanning {
        "Scanning game libraries…"
    } else {
        "No games found — install some from the Store tab"
    }
}

/// The letter shown on a tile without artwork: the title's first
/// character, or `?` for an empty title.
pub fn tile_letter(title: &str) -> (r: String)
    ensures
        r@ == if title@.len() > 0 {
            seq![title@[0]]
        } else {
            seq!['?']
        },
{
    let cs = chars_of(title);
    let mut s = String::new();
    if cs.len() > 0 {
        push_char(&mut s, cs[0]);
    } else {
        push_char(&mut s, '?');
    }
    s
}

/// A failed source as logged: `<source id>: <message>`.
pub fn source_error_line(id: &str, message: &str) -> (r: String)
    ensures
        r@ == id@ + ": "@ + message@,
{
    let mut s = concat(id, ": ");
    s.append(message);
    s
}

/// A canned library for running without real sources: Portal 2 (a Steam
/// game) then nine demo games that just sleep for two seconds.
pub open spec fn fake_game_views() -> Seq<GameView> {
    seq![crate::steam::steam_view(620, "Portal 2 (fake)"@)] + Seq::new(
        9,
        |i: int|
            GameView {
                id: "fake:"@ + decimal((i + 1) as nat),
                title: "Demo Game "@ + decimal((i + 1) as nat),
                source: SourceKind::Desktop,
                artwork: None,
                launch: LaunchView::Command(seq!["sleep"@, "2"@]),
            },
    )
}

/// The canned library (see [`fake_game_views`]).
pub fn fake_games() -> (r: Vec<Game>)
    ensures
        game_views(r@) == fake_game_views(),
{
    let mut games: Vec<Game> = Vec::new();
    games.push(Game::steam(620, "Portal 2 (fake)"));
    let ghost want = fake_game_views();
    let mut i: u32 = 1;
    while i <= 9
        invariant
            1 <= i <= 10,
            want == fake_game_views(),
            game_views(games@) == want.take(i as int),
        decreases 10 - i,
    {
        let n = decimal_string(i as u64);
        let mut argv: Vec<String> = Vec::new();
        argv.push(owned("sleep"));
        argv.push(owned("2"));
        assert(argv@.map_values(|s: String| s@) =~= seq!["sleep"@, "2"@]);
        let g = Game {
            id: concat("fake:", n.as_str()),
            title: concat("Demo Game ", n.as_str()),
            source: SourceKind::Desktop,
            artwork: None,
            launch: LaunchSpec::Command(argv),
        };
        let ghost before = game_views(games@);
        games.push(g);
        assert(game_views(games@) == before.push(g@));
        assert(want.take(i + 1) == want.take(i as int).push(want[i as int]));
        i = i + 1;
    }
    assert(want.take(10) == want);
    games
}

} // verus!
