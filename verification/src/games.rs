//! Core domain model: games, launch specs and the launcher-agnostic
//! `GameSource` abstraction, with the library's merge order.
use vstd::prelude::*;

use crate::order::{is_sorted_perm, is_strict_total, lex_less, lex_lt, sorted_indices};
use crate::order::{lemma_lex_asym, lemma_lex_total, lemma_lex_trans};
use crate::text::{chars_of, concat, decimal, decimal_string, lowercase, owned, to_lowercase};

verus! {

/// Where a game was discovered. Declaration order doubles as dedup
/// priority: earlier variants win when two sources report the same game.
#[derive(Debug, Clone, Copy, PartialEq, Eq, Structural, Hash, PartialOrd, Ord)]
pub enum SourceKind {
    Steam,
    Flatpak,
    Heroic,
    Desktop,
}

/// Dedup priority of a source (lower wins).
pub open spec fn source_rank(k: SourceKind) -> nat {
    match k {
        SourceKind::Steam => 0,
        SourceKind::Flatpak => 1,
        SourceKind::Heroic => 2,
        SourceKind::Desktop => 3,
    }
}

pub open spec fn source_label(k: SourceKind) -> Seq<char> {
    match k {
        SourceKind::Steam => "Steam"@,
        SourceKind::Flatpak => "Flatpak"@,
        SourceKind::Heroic => "Heroic"@,
        SourceKind::Desktop => "Desktop"@,
    }
}

impl SourceKind {
    /// Display name of the source.
    pub fn label(&self) -> (r: &'static str)
        ensures
            r@ == source_label(*self),
    {
        match self {
            SourceKind::Steam => "Steam",
            SourceKind::Flatpak => "Flatpak",
            SourceKind::Heroic => "Heroic",
            SourceKind::Desktop => "Desktop",
        }
    }

    /// Dedup priority as a number (lower wins).
    pub fn rank(&self) -> (r: u8)
        ensures
            r == source_rank(*self),
    {
        match self {
            SourceKind::Steam => 0,
            SourceKind::Flatpak => 1,
            SourceKind::Heroic => 2,
            SourceKind::Desktop => 3,
        }
    }
}

/// How to start a game. Kept declarative so the launch module owns process
/// mechanics (gamescope wrapping, session tracking) in one place.
#[derive(Debug, Clone, PartialEq, Eq)]
pub enum LaunchSpec {
    /// argv, already split (never shell-interpreted).
    Command(Vec<String>),
    SteamAppId(u32),
    FlatpakRef(String),
    Heroic { runner: String, id: String },
}

#[derive(Debug, Clone, PartialEq, Eq)]
pub struct Game {
    /// Stable dedup key, e.g. "steam:620", "flatpak:org.example.Game".
    pub id: String,
    pub title: String,
    pub source: SourceKind,
    /// Path to cover/icon art if the source provides one.
    pub artwork: Option<String>,
    pub launch: LaunchSpec,
}

/// A launch spec as plain values.
pub enum LaunchView {
    Command(Seq<Seq<char>>),
    SteamAppId(u32),
    FlatpakRef(Seq<char>),
    Heroic(Seq<char>, Seq<char>),
}

impl View for LaunchSpec {
    type V = LaunchView;

    open spec fn view(&self) -> LaunchView {
        match self {
            LaunchSpec::Command(argv) => LaunchView::Command(argv@.map_values(|s: String| s@)),
            LaunchSpec::SteamAppId(id) => LaunchView::SteamAppId(*id),
            LaunchSpec::FlatpakRef(app) => LaunchView::FlatpakRef(app@),
            LaunchSpec::Heroic { runner, id } => LaunchView::Heroic(runner@, id@),
        }
    }
}

/// A game as plain values.
pub struct GameView {
    pub id: Seq<char>,
    pub title: Seq<char>,
    pub source: SourceKind,
    pub artwork: Option<Seq<char>>,
    pub launch: LaunchView,
}

impl View for Game {
    type V = GameView;

    open spec fn view(&self) -> GameView {
        GameView {
            id: self.id@,
            title: self.title@,
            source: self.source,
            artwork: match &self.artwork {
                Some(a) => Some(a@),
                None => None,
            },
            launch: self.launch@,
        }
    }
}

pub open spec fn game_views(v: Seq<Game>) -> Seq<GameView> {
    v.map_values(|g: Game| g@)
}

impl Game {
    /// A Steam game: id `steam:<appid>`, launched through the Steam URL handler.
    pub fn steam(app_id: u32, title: &str) -> (g: Game)
        ensures
            g.id@ == "steam:"@ + decimal(app_id as nat),
            g.title@ == title@,
            g.source == SourceKind::Steam,
            g.artwork is None,
            g.launch == LaunchSpec::SteamAppId(app_id),
    {
        let digits = decimal_string(app_id as u64);
        Game {
            id: concat("steam:", digits.as_str()),
            title: owned(title),
            source: SourceKind::Steam,
            artwork: None,
            launch: LaunchSpec::SteamAppId(app_id),
        }
    }

    /// An installed flatpak: id `flatpak:<appid>`, launched with `flatpak run`.
    pub fn flatpak(app_id: &str, title: &str) -> (g: Game)
        ensures
            g.id@ == "flatpak:"@ + app_id@,
            g.title@ == title@,
            g.source == SourceKind::Flatpak,
            g.artwork is None,
            g.launch is FlatpakRef && g.launch->FlatpakRef_0@ == app_id@,
    {
        Game {
            id: concat("flatpak:", app_id),
            title: owned(title),
            source: SourceKind::Flatpak,
            artwork: None,
            launch: LaunchSpec::FlatpakRef(owned(app_id)),
        }
    }
}

/// A launcher backend the library can enumerate games from.
pub trait GameSource: Send + Sync {
    /// Whether this source may be named `id`. A source that says nothing
    /// more may be named anything.
    open spec fn may_be_named(&self, id: Seq<char>) -> bool {
        true
    }

    /// Whether a scan of this source may give `r`: what a source finds is
    /// decided outside this library. A source that says nothing more may
    /// find anything.
    open spec fn may_scan(&self, r: Result<Vec<Game>, String>) -> bool {
        true
    }

    /// The source's name in error reports.
    fn id(&self) -> (r: &'static str)
        ensures
            self.may_be_named(r@),
    ;

    /// The games this source offers, or why it cannot be read.
    fn scan(&self) -> (r: Result<Vec<Game>, String>)
        ensures
            self.may_scan(r),
    ;
}

// --- Library order ------------------------------------------------------------------

/// Game `i` of `g` comes before game `j` in the grid: case-insensitive
/// title, then source priority, then original position.
pub open spec fn game_before(g: Seq<Game>, i: int, j: int) -> bool {
    let a = lowercase(g[i].title@);
    let b = lowercase(g[j].title@);
    ||| lex_lt(a, b)
    ||| a == b && source_rank(g[i].source) < source_rank(g[j].source)
    ||| a == b && g[i].source == g[j].source && i < j
}

pub open spec fn game_order_table(g: Seq<Game>) -> Seq<Seq<bool>> {
    Seq::new(g.len(), |i: int| Seq::new(g.len(), |j: int| game_before(g, i, j)))
}

/// `s` has a game with this id.
pub open spec fn has_id(s: Seq<Game>, id: Seq<char>) -> bool {
    exists|j: int| 0 <= j < s.len() && s[j].id@ == id
}

/// `s` with every game whose id already occurred earlier dropped.
pub open spec fn first_of_each_id(s: Seq<Game>) -> Seq<Game>
    decreases s.len(),
{
    if s.len() == 0 {
        seq![]
    } else {
        let prev = first_of_each_id(s.drop_last());
        if has_id(s.drop_last(), s.last().id@) {
            prev
        } else {
            prev.push(s.last())
        }
    }
}

/// `out` is `found` sorted by [`game_before`], then one game per id (the
/// first in that order).
pub open spec fn sorted_unique(found: Seq<Game>, out: Seq<Game>) -> bool {
    exists|order: Seq<int>|
        is_sorted_perm(game_order_table(found), found.len(), order) && out == first_of_each_id(
            Seq::new(found.len(), |a: int| found[order[a]]),
        )
}

/// Game `i` of `s` is the one kept for its id: every game with that id has
/// a source of lower priority, or the same source and a later place.
pub open spec fn is_winner(s: Seq<Game>, i: int) -> bool {
    forall|j: int|
        0 <= j < s.len() && #[trigger] s[j].id@ == s[i].id@ ==> source_rank(s[i].source) < source_rank(
            s[j].source,
        ) || (source_rank(s[i].source) == source_rank(s[j].source) && i <= j)
}

/// The kept games among the first `n` of `s`, in input order.
pub open spec fn winners_upto(s: Seq<Game>, n: nat) -> Seq<Game>
    decreases n,
{
    if n == 0 {
        seq![]
    } else {
        winners_upto(s, (n - 1) as nat) + if is_winner(s, n - 1) {
            seq![s[n - 1]]
        } else {
            seq![]
        }
    }
}

/// The game kept for each id of `s`: the one from the highest-priority
/// source, the first of those for a tie, in input order.
pub open spec fn winners(s: Seq<Game>) -> Seq<Game> {
    winners_upto(s, s.len())
}

/// `out` is the library built from `found`: for each id the game from the
/// highest-priority source (the first of those in `found` on a tie), sorted
/// by [`game_before`].
pub open spec fn is_library_of(found: Seq<Game>, out: Seq<Game>) -> bool {
    sorted_unique(winners(found), out)
}

proof fn lemma_game_order_total(g: Seq<Game>)
    ensures
        is_strict_total(game_order_table(g), g.len()),
{
    let t = game_order_table(g);
    let n = g.len();
    assert forall|i: int, j: int| 0 <= i < n && 0 <= j < n && i != j implies t[i][j] || t[j][i] by {
        lemma_lex_total(lowercase(g[i].title@), lowercase(g[j].title@));
    }
    assert forall|i: int, j: int| 0 <= i < n && 0 <= j < n && t[i][j] implies !t[j][i] by {
        lemma_lex_asym(lowercase(g[i].title@), lowercase(g[j].title@));
        lemma_lex_asym(lowercase(g[j].title@), lowercase(g[i].title@));
    }
    assert forall|i: int, j: int, k: int|
        0 <= i < n && 0 <= j < n && 0 <= k < n && #[trigger] t[i][j] && #[trigger] t[j][k] implies t[i][k] by {
        let a = lowercase(g[i].title@);
        let b = lowercase(g[j].title@);
        let c = lowercase(g[k].title@);
        if lex_lt(a, b) && lex_lt(b, c) {
            lemma_lex_trans(a, b, c);
        }
    }
}

/// The comparison table of [`game_before`] for `games`.
fn game_table(games: &Vec<Game>) -> (t: Vec<Vec<bool>>)
    ensures
        t@.map_values(|r: Vec<bool>| r@) == game_order_table(games@),
{
    let n = games.len();
    let mut keys: Vec<Vec<char>> = Vec::new();
    let mut i: usize = 0;
    while i < n
        invariant
            i <= n == games@.len(),
            keys@.len() == i,
            forall|k: int| 0 <= k < i ==> #[trigger] keys@[k]@ == lowercase(games@[k].title@),
        decreases n - i,
    {
        let lower = to_lowercase(games[i].title.as_str());
        keys.push(chars_of(lower.as_str()));
        i = i + 1;
    }
    let mut t: Vec<Vec<bool>> = Vec::new();
    let mut i: usize = 0;
    while i < n
        invariant
            i <= n == games@.len() == keys@.len(),
            forall|k: int| 0 <= k < n ==> #[trigger] keys@[k]@ == lowercase(games@[k].title@),
            t@.len() == i,
            forall|a: int| 0 <= a < i ==> #[trigger] t@[a]@ == game_order_table(games@)[a],
        decreases n - i,
    {
        let mut row: Vec<bool> = Vec::new();
        let mut j: usize = 0;
        while j < n
            invariant
                i < n,
                j <= n == games@.len() == keys@.len(),
                forall|k: int| 0 <= k < n ==> #[trigger] keys@[k]@ == lowercase(games@[k].title@),
                row@.len() == j,
                forall|b: int| 0 <= b < j ==> #[trigger] row@[b] == game_before(games@, i as int, b),
            decreases n - j,
        {
            let lt = lex_less(&keys[i], &keys[j]);
            let eq = crate::text::chars_eq(&keys[i], &keys[j]);
            let ri = games[i].source.rank();
            let rj = games[j].source.rank();
            let before = lt || (eq && (ri < rj || (ri == rj && i < j)));
            proof {
                assert(keys@[i as int]@ == lowercase(games@[i as int].title@));
                assert(keys@[j as int]@ == lowercase(games@[j as int].title@));
                assert(ri == rj <==> games@[i as int].source == games@[j as int].source);
            }
            row.push(before);
            j = j + 1;
        }
        assert(row@ == game_order_table(games@)[i as int]);
        t.push(row);
        i = i + 1;
    }
    assert(t@.map_values(|r: Vec<bool>| r@) == game_order_table(games@));
    t
}

/// Sort games by case-insensitive title (then source priority, keeping the
/// original order for ties), and keep only the first game of each id.
fn sort_unique(games: Vec<Game>) -> (r: Vec<Game>)
    ensures
        sorted_unique(games@, r@),
{
    let n = games.len();
    let table = game_table(&games);
    proof {
        lemma_game_order_total(games@);
    }
    let order = sorted_indices(&table, n);
    let ghost ord = order@.map_values(|x: usize| x as int);
    let ghost sorted = Seq::new(n as nat, |a: int| games@[ord[a]]);
    let ghost orig = games@;
    proof {
        assert forall|a: int, b: int| 0 <= a < n && 0 <= b < n && a != b implies ord[a] != ord[b] by {
            let t = game_order_table(orig);
            if a < b {
                assert(t[ord[a]][ord[b]]);
            } else {
                assert(t[ord[b]][ord[a]]);
            }
        }
    }
    // Move the games into slots (last game first) so each can be taken once.
    let mut rest = games;
    let mut slots: Vec<Option<Game>> = Vec::new();
    while rest.len() > 0
        invariant
            rest@.len() + slots@.len() == n == orig.len(),
            rest@ == orig.take(rest@.len() as int),
            forall|k: int| 0 <= k < slots@.len() ==> #[trigger] slots@[k] == Some(orig[n - 1 - k]),
        decreases rest@.len(),
    {
        let g = rest.pop().unwrap();
        slots.push(Some(g));
    }
    let mut out: Vec<Game> = Vec::new();
    let mut a: usize = 0;
    while a < n
        invariant
            a <= n == orig.len() == order@.len() == slots@.len(),
            ord == order@.map_values(|x: usize| x as int),
            is_sorted_perm(game_order_table(orig), n as nat, ord),
            forall|x: int, y: int| 0 <= x < n && 0 <= y < n && x != y ==> ord[x] != ord[y],
            sorted == Seq::new(n as nat, |a: int| orig[ord[a]]),
            forall|b: int| a <= b < n ==> #[trigger] slots@[n - 1 - ord[b]] == Some(orig[ord[b]]),
            out@ == first_of_each_id(sorted.take(a as int)),
            forall|id: Seq<char>| has_id(sorted.take(a as int), id) <==> has_id(out@, id),
        decreases n - a,
    {
        let slot = n - 1 - order[a];
        let g = slots[slot].take().unwrap();
        assert(g == sorted[a as int]);
        let mut seen = false;
        let mut k: usize = 0;
        while k < out.len()
            invariant
                k <= out@.len(),
                seen <==> exists|m: int| 0 <= m < k && out@[m].id@ == g.id@,
            decreases out@.len() - k,
        {
            if out[k].id == g.id {
                seen = true;
            }
            k = k + 1;
        }
        let ghost old_out = out@;
        proof {
            let pre = sorted.take(a as int);
            let next = sorted.take(a + 1);
            assert(next.drop_last() == pre);
            assert(next.last() == g);
            assert(seen == has_id(old_out, g.id@));
            assert(seen == has_id(pre, g.id@));
        }
        let ghost gv = g;
        if !seen {
            out.push(g);
        }
        proof {
            let pre = sorted.take(a as int);
            let next = sorted.take(a + 1);
            assert forall|id: Seq<char>| has_id(next, id) <==> has_id(out@, id) by {
                if has_id(next, id) {
                    let j = choose|j: int| 0 <= j < next.len() && next[j].id@ == id;
                    if j < a {
                        assert(pre[j] == next[j]);
                        assert(has_id(pre, id));
                        assert(has_id(old_out, id));
                        let m = choose|m: int| 0 <= m < old_out.len() && old_out[m].id@ == id;
                        assert(out@[m] == old_out[m]);
                    } else {
                        assert(next[j] == gv);
                        if seen {
                            let m = choose|m: int| 0 <= m < old_out.len() && old_out[m].id@ == gv.id@;
                            assert(out@[m] == old_out[m]);
                        } else {
                            assert(out@[out@.len() - 1] == gv);
                        }
                    }
                }
                if has_id(out@, id) {
                    let m = choose|m: int| 0 <= m < out@.len() && out@[m].id@ == id;
                    if !seen && m == old_out.len() {
                        assert(next[a as int] == gv);
                    } else {
                        assert(old_out[m] == out@[m]);
                        assert(has_id(old_out, id));
                        assert(has_id(pre, id));
                        let j = choose|j: int| 0 <= j < pre.len() && pre[j].id@ == id;
                        assert(next[j] == pre[j]);
                    }
                }
            }
            assert forall|b: int| a + 1 <= b < n implies #[trigger] slots@[n - 1 - ord[b]] == Some(orig[ord[b]]) by {
                assert(ord[b] != ord[a as int]);
            }
        }
        a = a + 1;
    }
    assert(sorted.take(n as int) == sorted);
    out
}

/// Whether game `i` is the one kept for its id (see [`is_winner`]).
fn wins(games: &Vec<Game>, i: usize) -> (r: bool)
    requires
        i < games@.len(),
    ensures
        r == is_winner(games@, i as int),
{
    let n = games.len();
    let ri = games[i].source.rank();
    let mut w = true;
    let mut j: usize = 0;
    while j < n
        invariant
            i < n == games@.len(),
            j <= n,
            ri == source_rank(games@[i as int].source),
            w <==> forall|k: int|
                0 <= k < j && #[trigger] games@[k].id@ == games@[i as int].id@ ==> source_rank(
                    games@[i as int].source,
                ) < source_rank(games@[k].source) || (source_rank(games@[i as int].source)
                    == source_rank(games@[k].source) && i <= k),
        decreases n - j,
    {
        if games[j].id == games[i].id {
            let rj = games[j].source.rank();
            if !(ri < rj || (ri == rj && i <= j)) {
                w = false;
            }
        }
        j = j + 1;
    }
    w
}

/// Build the library: for each id keep the game from the highest-priority
/// source (Steam, then Flatpak, Heroic, desktop entries; the first of those
/// on a tie), then sort by case-insensitive title, source priority and
/// original order.
pub fn dedup_games(games: Vec<Game>) -> (r: Vec<Game>)
    ensures
        is_library_of(games@, r@),
{
    let n = games.len();
    let mut keep: Vec<bool> = Vec::new();
    let mut i: usize = 0;
    while i < n
        invariant
            i <= n == games@.len(),
            keep@.len() == i,
            forall|k: int| 0 <= k < i ==> #[trigger] keep@[k] == is_winner(games@, k),
        decreases n - i,
    {
        keep.push(wins(&games, i));
        i = i + 1;
    }
    let ghost orig = games@;
    let mut rest = games;
    let mut kept: Vec<Game> = Vec::new();
    let mut i: usize = 0;
    while rest.len() > 0
        invariant
            i <= n == orig.len() == keep@.len(),
            rest@ == orig.skip(i as int),
            rest@.len() == n - i,
            forall|k: int| 0 <= k < n ==> #[trigger] keep@[k] == is_winner(orig, k),
            kept@ == winners_upto(orig, i as nat),
        decreases rest@.len(),
    {
        let g = rest.remove(0);
        assert(g == orig[i as int]);
        if keep[i] {
            kept.push(g);
        }
        assert(rest@ == orig.skip(i + 1));
        i = i + 1;
    }
    sort_unique(kept)
}

/// The games of the sources that succeeded, in source order.
pub open spec fn found_games(results: Seq<(String, Result<Vec<Game>, String>)>) -> Seq<Game>
    decreases results.len(),
{
    if results.len() == 0 {
        Seq::empty()
    } else {
        found_games(results.drop_last()) + match results.last().1 {
            Ok(v) => v@,
            Err(_) => Seq::empty(),
        }
    }
}

/// `(source id, message)` of each source that failed, in source order.
pub open spec fn failures(results: Seq<(String, Result<Vec<Game>, String>)>) -> Seq<(Seq<char>, Seq<char>)>
    decreases results.len(),
{
    if results.len() == 0 {
        Seq::empty()
    } else {
        failures(results.drop_last()) + match results.last().1 {
            Ok(_) => Seq::empty(),
            Err(e) => seq![(results.last().0@, e@)],
        }
    }
}

/// The views of `(source id, message)` pairs.
pub open spec fn error_views(errors: Seq<(String, String)>) -> Seq<(Seq<char>, Seq<char>)> {
    errors.map_values(|e: (String, String)| (e.0@, e.1@))
}

proof fn lemma_failures_len(results: Seq<(String, Result<Vec<Game>, String>)>)
    ensures
        failures(results).len() <= results.len(),
    decreases results.len(),
{
    if results.len() > 0 {
        lemma_failures_len(results.drop_last());
    }
}

/// Build the library from each source's scan result, `(source id,
/// result)` in source order: the games of the sources that succeeded,
/// ordered and deduplicated by [`dedup_games`], and the `(source id,
/// message)` of those that failed.
pub fn collect_scans(results: Vec<(String, Result<Vec<Game>, String>)>) -> (r: (
    Vec<Game>,
    Vec<(String, String)>,
))
    ensures
        is_library_of(found_games(results@), r.0@),
        error_views(r.1@) == failures(results@),
{
    let ghost all = results@;
    let n = results.len();
    let mut rest = results;
    let mut games: Vec<Game> = Vec::new();
    let mut errors: Vec<(String, String)> = Vec::new();
    let mut i: usize = 0;
    while rest.len() > 0
        invariant
            i <= n == all.len(),
            rest@ == all.skip(i as int),
            rest@.len() == all.len() - i,
            games@ == found_games(all.take(i as int)),
            error_views(errors@) == failures(all.take(i as int)),
        decreases rest@.len(),
    {
        let (id, result) = rest.remove(0);
        assert(all.take(i + 1).drop_last() == all.take(i as int));
        assert(all.take(i + 1).last() == all[i as int]);
        match result {
            Ok(found) => {
                let mut found = found;
                games.append(&mut found);
            },
            Err(err) => {
                let ghost before = errors@;
                errors.push((id, err));
                assert(error_views(errors@) == error_views(before) + seq![(errors@.last().0@, errors@.last().1@)]);
            },
        }
        assert(rest@ == all.skip(i + 1));
        i = i + 1;
    }
    assert(all.take(i as int) == all);
    (dedup_games(games), errors)
}

/// Scan every source once, in order, and build the library from the
/// results (see [`collect_scans`]): result `i` is the name and the scan of
/// source `i`. A failing source never fails the whole scan: its message is
/// reported and the other sources' games are kept.
pub fn scan_all(sources: &[Box<dyn GameSource>]) -> (r: (Vec<Game>, Vec<(String, String)>))
    ensures
        exists|results: Seq<(String, Result<Vec<Game>, String>)>|
            #![trigger found_games(results)]
            results.len() == sources@.len() && (forall|i: int|
                0 <= i < results.len() ==> sources@[i].may_be_named(#[trigger] results[i].0@)
                    && sources@[i].may_scan(results[i].1)) && is_library_of(found_games(results), r.0@)
                && error_views(r.1@) == failures(results),
        r.1@.len() <= sources@.len(),
{
    let mut results: Vec<(String, Result<Vec<Game>, String>)> = Vec::new();
    let mut i: usize = 0;
    while i < sources.len()
        invariant
            i <= sources@.len(),
            results@.len() == i,
            forall|k: int|
                0 <= k < i ==> sources@[k].may_be_named(#[trigger] results@[k].0@) && sources@[k].may_scan(
                    results@[k].1,
                ),
        decreases sources@.len() - i,
    {
        let result = sources[i].scan();
        let name = owned(sources[i].id());
        results.push((name, result));
        i = i + 1;
    }
    let ghost rs = results@;
    proof {
        lemma_failures_len(rs);
    }
    let r = collect_scans(results);
    assert(error_views(r.1@).len() == r.1@.len());
    r
}

// --- Laws of the library order -----------------------------------------------------------

/// No two games of `s` share an id.
pub open spec fn ids_distinct(s: Seq<Game>) -> bool {
    forall|i: int, j: int| 0 <= i < j < s.len() ==> s[i].id@ != s[j].id@
}

proof fn lemma_first_of_each_id(s: Seq<Game>)
    ensures
        ids_distinct(first_of_each_id(s)),
        forall|id: Seq<char>| has_id(first_of_each_id(s), id) <==> has_id(s, id),
    decreases s.len(),
{
    if s.len() > 0 {
        let d = s.drop_last();
        let prev = first_of_each_id(d);
        lemma_first_of_each_id(d);
        let g = s.last();
        let first = first_of_each_id(s);
        let dup = has_id(d, g.id@);
        if dup {
            assert(first == prev);
        } else {
            assert(first == prev.push(g));
        }
        assert forall|id: Seq<char>| has_id(first, id) <==> has_id(s, id) by {
            if has_id(s, id) {
                let j = choose|j: int| 0 <= j < s.len() && s[j].id@ == id;
                if j < s.len() - 1 {
                    assert(d[j] == s[j]);
                    assert(has_id(d, id));
                    assert(has_id(prev, id));
                    let k = choose|k: int| 0 <= k < prev.len() && prev[k].id@ == id;
                    assert(first[k] == prev[k]);
                } else if !dup {
                    assert(first[prev.len() as int] == g);
                } else {
                    assert(has_id(prev, g.id@));
                    let k = choose|k: int| 0 <= k < prev.len() && prev[k].id@ == g.id@;
                    assert(first[k] == prev[k]);
                }
            }
            if has_id(first, id) {
                let k = choose|k: int| 0 <= k < first.len() && first[k].id@ == id;
                if k < prev.len() {
                    assert(first[k] == prev[k]);
                    assert(has_id(prev, id));
                    assert(has_id(d, id));
                    let j = choose|j: int| 0 <= j < d.len() && d[j].id@ == id;
                    assert(s[j] == d[j]);
                } else {
                    assert(first[k] == g);
                    assert(s[s.len() - 1] == g);
                }
            }
        }
        if !dup {
            assert forall|i: int, j: int| 0 <= i < j < first.len() implies first[i].id@ != first[j].id@ by {
                if j == first.len() - 1 {
                    assert(first[i] == prev[i]);
                    if prev[i].id@ == g.id@ {
                        assert(has_id(prev, g.id@));
                    }
                } else {
                    assert(first[i] == prev[i]);
                    assert(first[j] == prev[j]);
                }
            }
        }
    }
}

/// Some game of `s` is kept for the id of game `i`.
proof fn lemma_winner_exists(s: Seq<Game>, i: int)
    requires
        0 <= i < s.len(),
    ensures
        exists|w: int| 0 <= w < s.len() && s[w].id@ == s[i].id@ && is_winner(s, w),
    decreases source_rank(s[i].source), i,
{
    if !is_winner(s, i) {
        let j = choose|j: int|
            0 <= j < s.len() && #[trigger] s[j].id@ == s[i].id@ && !(source_rank(s[i].source)
                < source_rank(s[j].source) || (source_rank(s[i].source) == source_rank(s[j].source)
                && i <= j));
        lemma_winner_exists(s, j);
    }
}

/// The kept games among the first `n`: exactly the winners there.
proof fn lemma_winners_upto(s: Seq<Game>, n: nat)
    requires
        n <= s.len(),
    ensures
        forall|g: Game|
            winners_upto(s, n).contains(g) ==> exists|w: int| 0 <= w < n && s[w] == g && is_winner(s, w),
        forall|w: int| 0 <= w < n && is_winner(s, w) ==> winners_upto(s, n).contains(#[trigger] s[w]),
    decreases n,
{
    if n > 0 {
        lemma_winners_upto(s, (n - 1) as nat);
        let prev = winners_upto(s, (n - 1) as nat);
        let cur = winners_upto(s, n);
        assert forall|g: Game| cur.contains(g) implies exists|w: int|
            0 <= w < n && s[w] == g && is_winner(s, w) by {
            let k = choose|k: int| 0 <= k < cur.len() && cur[k] == g;
            if k < prev.len() {
                assert(prev[k] == g);
                assert(prev.contains(g));
            } else {
                assert(s[n - 1] == g);
            }
        }
        assert forall|w: int| 0 <= w < n && is_winner(s, w) implies cur.contains(#[trigger] s[w]) by {
            if w < n - 1 {
                let k = choose|k: int| 0 <= k < prev.len() && prev[k] == s[w];
                assert(cur[k] == s[w]);
            } else {
                assert(cur[prev.len() as int] == s[w]);
            }
        }
    }
}

/// A library built from `found` has each game id once, and exactly the ids
/// that were found: deduplication drops repeats, never a game.
pub proof fn library_ids_law(found: Seq<Game>, out: Seq<Game>)
    requires
        is_library_of(found, out),
    ensures
        ids_distinct(out),
        forall|id: Seq<char>| has_id(out, id) <==> has_id(found, id),
{
    let win = winners(found);
    let order = choose|order: Seq<int>|
        is_sorted_perm(game_order_table(win), win.len(), order) && out == first_of_each_id(
            Seq::new(win.len(), |a: int| win[order[a]]),
        );
    let sorted = Seq::new(win.len(), |a: int| win[order[a]]);
    lemma_first_of_each_id(sorted);
    lemma_game_order_total(win);
    crate::order::lemma_sorted_perm_onto(game_order_table(win), win.len(), order);
    lemma_winners_upto(found, found.len());
    assert forall|id: Seq<char>| has_id(sorted, id) <==> has_id(found, id) by {
        if has_id(sorted, id) {
            let a = choose|a: int| 0 <= a < sorted.len() && sorted[a].id@ == id;
            assert(0 <= order[a] < win.len());
            let g = win[order[a]];
            assert(winners_upto(found, found.len()).contains(g));
            let m = choose|m: int| 0 <= m < found.len() && found[m] == g && is_winner(found, m);
            assert(found[m].id@ == id);
        }
        if has_id(found, id) {
            let j = choose|j: int| 0 <= j < found.len() && found[j].id@ == id;
            lemma_winner_exists(found, j);
            let w = choose|w: int| 0 <= w < found.len() && found[w].id@ == found[j].id@ && is_winner(found, w);
            assert(winners_upto(found, found.len()).contains(found[w]));
            let k = choose|k: int| 0 <= k < win.len() && win[k] == found[w];
            assert(crate::order::has_index(order, win.len(), k));
            let a = choose|a: int| 0 <= a < win.len() && order[a] == k;
            assert(sorted[a].id@ == id);
        }
    }
}

/// Every game of `first_of_each_id(s)` is a game of `s`.
proof fn lemma_first_of_each_id_within(s: Seq<Game>)
    ensures
        forall|g: Game| first_of_each_id(s).contains(g) ==> s.contains(g),
    decreases s.len(),
{
    if s.len() > 0 {
        let d = s.drop_last();
        lemma_first_of_each_id_within(d);
        assert forall|g: Game| first_of_each_id(s).contains(g) implies s.contains(g) by {
            let f = first_of_each_id(s);
            let prev = first_of_each_id(d);
            if has_id(d, s.last().id@) {
                assert(f == prev);
            } else {
                assert(f == prev.push(s.last()));
            }
            let k = choose|k: int| 0 <= k < f.len() && f[k] == g;
            if k < prev.len() {
                assert(prev[k] == g);
                assert(prev.contains(g));
                assert(d.contains(g));
                let m = choose|m: int| 0 <= m < d.len() && d[m] == g;
                assert(s[m] == d[m]);
            } else {
                assert(s[s.len() - 1] == g);
            }
        }
    }
}

/// Each game the library keeps comes from the highest-priority source
/// among the found games with its id: a lower-priority duplicate never
/// replaces it, whatever the titles.
pub proof fn library_best_source_law(found: Seq<Game>, out: Seq<Game>)
    requires
        is_library_of(found, out),
    ensures
        forall|k: int, j: int|
            0 <= k < out.len() && 0 <= j < found.len() && #[trigger] found[j].id@ == #[trigger] out[k].id@
                ==> source_rank(out[k].source) <= source_rank(found[j].source),
{
    let win = winners(found);
    let order = choose|order: Seq<int>|
        is_sorted_perm(game_order_table(win), win.len(), order) && out == first_of_each_id(
            Seq::new(win.len(), |a: int| win[order[a]]),
        );
    let sorted = Seq::new(win.len(), |a: int| win[order[a]]);
    lemma_first_of_each_id_within(sorted);
    lemma_winners_upto(found, found.len());
    assert forall|k: int, j: int|
        0 <= k < out.len() && 0 <= j < found.len() && #[trigger] found[j].id@ == #[trigger] out[k].id@
            implies source_rank(out[k].source) <= source_rank(found[j].source) by {
        let g = out[k];
        assert(out.contains(g));
        assert(sorted.contains(g));
        let a = choose|a: int| 0 <= a < sorted.len() && sorted[a] == g;
        assert(0 <= order[a] < win.len());
        assert(winners_upto(found, found.len()).contains(win[order[a]]));
        let w = choose|w: int| 0 <= w < found.len() && found[w] == g && is_winner(found, w);
        assert(found[j].id@ == found[w].id@);
    }
}

/// `first_of_each_id(s)` keeps games of `s` in their order: game `k` is
/// game `m[k]` of `s`, with `m` increasing.
proof fn lemma_first_of_each_id_subseq(s: Seq<Game>) -> (m: Seq<int>)
    ensures
        m.len() == first_of_each_id(s).len(),
        forall|k: int|
            0 <= k < m.len() ==> 0 <= #[trigger] m[k] < s.len() && first_of_each_id(s)[k] == s[m[k]],
        forall|k: int, l: int| 0 <= k < l < m.len() ==> m[k] < m[l],
    decreases s.len(),
{
    if s.len() == 0 {
        seq![]
    } else {
        let d = s.drop_last();
        let pm = lemma_first_of_each_id_subseq(d);
        let prev = first_of_each_id(d);
        if has_id(d, s.last().id@) {
            assert forall|k: int| 0 <= k < pm.len() implies 0 <= #[trigger] pm[k] < s.len()
                && first_of_each_id(s)[k] == s[pm[k]] by {
                assert(s[pm[k]] == d[pm[k]]);
            }
            pm
        } else {
            let m = pm.push(s.len() - 1);
            assert(first_of_each_id(s) == prev.push(s.last()));
            assert forall|k: int| 0 <= k < m.len() implies 0 <= #[trigger] m[k] < s.len()
                && first_of_each_id(s)[k] == s[m[k]] by {
                if k < pm.len() {
                    assert(s[pm[k]] == d[pm[k]]);
                }
            }
            m
        }
    }
}

/// `g` is a game of `found`, the one kept for its id.
pub open spec fn is_kept_game(found: Seq<Game>, g: Game) -> bool {
    exists|w: int| 0 <= w < found.len() && found[w] == g && is_winner(found, w)
}

/// Every game of a library built from `found` is a found game, the one
/// kept for its id: no found game with that id has a higher-priority
/// source, and none from the same source comes earlier in `found`.
pub proof fn library_kept_game_law(found: Seq<Game>, out: Seq<Game>)
    requires
        is_library_of(found, out),
    ensures
        forall|k: int| 0 <= k < out.len() ==> #[trigger] is_kept_game(found, out[k]),
{
    let win = winners(found);
    let order = choose|order: Seq<int>|
        is_sorted_perm(game_order_table(win), win.len(), order) && out == first_of_each_id(
            Seq::new(win.len(), |a: int| win[order[a]]),
        );
    let sorted = Seq::new(win.len(), |a: int| win[order[a]]);
    lemma_first_of_each_id_within(sorted);
    lemma_winners_upto(found, found.len());
    assert forall|k: int| 0 <= k < out.len() implies #[trigger] is_kept_game(found, out[k]) by {
        let g = out[k];
        assert(out.contains(g));
        assert(sorted.contains(g));
        let a = choose|a: int| 0 <= a < sorted.len() && sorted[a] == g;
        assert(0 <= order[a] < win.len());
        assert(winners_upto(found, found.len()).contains(win[order[a]]));
    }
}

/// A library is sorted by case-insensitive title.
pub proof fn library_order_law(found: Seq<Game>, out: Seq<Game>)
    requires
        is_library_of(found, out),
    ensures
        forall|i: int, j: int|
            0 <= i < j < out.len() ==> !lex_lt(
                lowercase(#[trigger] out[j].title@),
                lowercase(#[trigger] out[i].title@),
            ),
{
    let win = winners(found);
    let order = choose|order: Seq<int>|
        is_sorted_perm(game_order_table(win), win.len(), order) && out == first_of_each_id(
            Seq::new(win.len(), |a: int| win[order[a]]),
        );
    let sorted = Seq::new(win.len(), |a: int| win[order[a]]);
    let m = lemma_first_of_each_id_subseq(sorted);
    assert forall|i: int, j: int| 0 <= i < j < out.len() implies !lex_lt(
        lowercase(#[trigger] out[j].title@),
        lowercase(#[trigger] out[i].title@),
    ) by {
        let (a, b) = (m[i], m[j]);
        assert(a < b);
        assert(game_order_table(win)[order[a]][order[b]]);
        assert(game_before(win, order[a], order[b]));
        let x = lowercase(out[i].title@);
        let y = lowercase(out[j].title@);
        assert(out[i] == win[order[a]] && out[j] == win[order[b]]);
        lemma_lex_asym(x, y);
        lemma_lex_asym(y, x);
    }
}

/// A library is determined by the games found: two libraries built from
/// the same games are equal. So the games [`scan_all`] returns are exactly
/// what [`dedup_games`] builds from the scan results put together in
/// source order.
pub proof fn library_unique_law(found: Seq<Game>, a: Seq<Game>, b: Seq<Game>)
    requires
        is_library_of(found, a),
        is_library_of(found, b),
    ensures
        a == b,
{
    let win = winners(found);
    let oa = choose|order: Seq<int>|
        is_sorted_perm(game_order_table(win), win.len(), order) && a == first_of_each_id(
            Seq::new(win.len(), |x: int| win[order[x]]),
        );
    let ob = choose|order: Seq<int>|
        is_sorted_perm(game_order_table(win), win.len(), order) && b == first_of_each_id(
            Seq::new(win.len(), |x: int| win[order[x]]),
        );
    lemma_game_order_total(win);
    crate::order::lemma_sorted_perm_unique(game_order_table(win), win.len(), oa, ob);
    assert(Seq::new(win.len(), |x: int| win[oa[x]]) =~= Seq::new(win.len(), |x: int| win[ob[x]]));
}

} // verus!
