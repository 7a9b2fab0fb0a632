//! Heroic Games Launcher (Epic via legendary, GOG, sideloaded) discovery.
//!
//! Heroic keeps per-store installed lists as JSON under its config dir:
//!   legendaryConfig/legendary/installed.json   {app: {title, ...}}
//!   gog_store/installed.json                   {installed: [{appName, ...}]}
//!   store_cache/gog_library.json               {games: [{app_name, title}]}
//!   sideload_apps/library.json                 {games: [{app_name, title}]}
//! Both the native (~/.config/heroic) and flatpak
//! (~/.var/app/com.heroicgameslauncher.hgl/config/heroic) roots are scanned.
//!
//! The caller reads and decodes the files; a file that is missing or not
//! JSON is passed as None.
use vstd::prelude::*;

use crate::games::{game_views, Game, GameView, LaunchSpec, LaunchView, SourceKind};
use crate::json::{array_field, json_get, str_field, JsonValue};
use crate::paths::{join, join_path};
use crate::system::strings;
use crate::text::{concat, owned, split_on};

verus! {

broadcast use vstd::string::group_string_axioms;

/// The game Heroic launches as `heroic://launch/<runner>/<id>`.
pub open spec fn heroic_view(runner: Seq<char>, id: Seq<char>, title: Seq<char>) -> GameView {
    GameView {
        id: "heroic:"@ + runner + ":"@ + id,
        title,
        source: SourceKind::Heroic,
        artwork: None,
        launch: LaunchView::Heroic(runner, id),
    }
}

/// The game for an app of one of Heroic's runners.
pub fn heroic_game(runner: &str, id: &str, title: String) -> (g: Game)
    ensures
        g@ == heroic_view(runner@, id@, title@),
{
    let mut gid = concat("heroic:", runner);
    gid.append(":");
    gid.append(id);
    Game {
        id: gid,
        title,
        source: SourceKind::Heroic,
        artwork: None,
        launch: LaunchSpec::Heroic { runner: owned(runner), id: owned(id) },
    }
}

/// The present values of `s`, in order.
pub open spec fn somes(s: Seq<Option<GameView>>) -> Seq<GameView>
    decreases s.len(),
{
    if s.len() == 0 {
        seq![]
    } else {
        let prev = somes(s.drop_last());
        match s.last() {
            Some(g) => prev.push(g),
            None => prev,
        }
    }
}

proof fn lemma_somes_step(s: Seq<Option<GameView>>, i: int)
    requires
        0 <= i < s.len(),
    ensures
        somes(s.take(i + 1)) == match s[i] {
            Some(g) => somes(s.take(i)).push(g),
            None => somes(s.take(i)),
        },
{
    assert(s.take(i + 1).drop_last() == s.take(i));
}

fn push_game(out: &mut Vec<Game>, g: Game)
    ensures
        game_views(final(out)@) == game_views(old(out)@).push(g@),
{
    out.push(g);
    assert(game_views(out@) == game_views(old(out)@).push(g@));
}

// --- legendary (Epic) -------------------------------------------------------------

/// An installed Epic app's title, or its app name when the entry has none.
pub open spec fn legendary_title(app: Seq<char>, entry: JsonValue) -> Seq<char> {
    match str_field(entry, "title"@) {
        Some(t) => t,
        None => app,
    }
}

/// One game per member of legendary's installed object.
pub open spec fn legendary_games(installed: Option<JsonValue>) -> Seq<GameView> {
    match installed {
        Some(JsonValue::Object(members)) => Seq::new(
            members@.len(),
            |i: int|
                heroic_view(
                    "legendary"@,
                    members@[i].0@,
                    legendary_title(members@[i].0@, members@[i].1),
                ),
        ),
        _ => seq![],
    }
}

/// The games in legendary's `installed.json`.
pub fn scan_legendary(installed: Option<&JsonValue>) -> (r: Vec<Game>)
    ensures
        game_views(r@) == legendary_games(
            match installed {
                Some(v) => Some(*v),
                None => None,
            },
        ),
{
    let mut out: Vec<Game> = Vec::new();
    match installed {
        Some(JsonValue::Object(members)) => {
            let ghost want = Seq::new(
                members@.len(),
                |i: int|
                    heroic_view(
                        "legendary"@,
                        members@[i].0@,
                        legendary_title(members@[i].0@, members@[i].1),
                    ),
            );
            let mut i: usize = 0;
            while i < members.len()
                invariant
                    i <= members@.len() == want.len(),
                    want == Seq::new(
                        members@.len(),
                        |i: int|
                            heroic_view(
                                "legendary"@,
                                members@[i].0@,
                                legendary_title(members@[i].0@, members@[i].1),
                            ),
                    ),
                    game_views(out@) == want.take(i as int),
                decreases members@.len() - i,
            {
                let app = members[i].0.as_str();
                let title = match members[i].1.str_field("title") {
                    Some(t) => owned(t),
                    None => owned(app),
                };
                push_game(&mut out, heroic_game("legendary", app, title));
                assert(want.take(i + 1) == want.take(i as int).push(want[i as int]));
                i = i + 1;
            }
            assert(want.take(i as int) == want);
        },
        _ => {},
    }
    out
}

// --- GOG ------------------------------------------------------------------------------

/// The `(app_name, title)` of a GOG library entry, when both are strings.
pub open spec fn library_entry(g: JsonValue) -> Option<(Seq<char>, Seq<char>)> {
    match (str_field(g, "app_name"@), str_field(g, "title"@)) {
        (Some(a), Some(t)) => Some((a, t)),
        _ => None,
    }
}

/// The title the GOG library cache gives `app`; a later entry for the same
/// app overrides an earlier one.
pub open spec fn library_title(games: Seq<JsonValue>, app: Seq<char>) -> Option<Seq<char>>
    decreases games.len(),
{
    if games.len() == 0 {
        None
    } else {
        match library_entry(games.last()) {
            Some(e) => if e.0 == app {
                Some(e.1)
            } else {
                library_title(games.drop_last(), app)
            },
            None => library_title(games.drop_last(), app),
        }
    }
}

/// The entries of the GOG library cache (none when it is missing or has no
/// `games` array).
pub open spec fn library_games(library: Option<JsonValue>) -> Seq<JsonValue> {
    match library {
        Some(lib) => match array_field(lib, "games"@) {
            Some(items) => items,
            None => seq![],
        },
        None => seq![],
    }
}

/// An installed GOG entry with a string `appName`, titled from the library
/// cache or else by its app name.
pub open spec fn gog_entry(entry: JsonValue, library: Seq<JsonValue>) -> Option<GameView> {
    match str_field(entry, "appName"@) {
        Some(app) => Some(
            heroic_view(
                "gog"@,
                app,
                match library_title(library, app) {
                    Some(t) => t,
                    None => app,
                },
            ),
        ),
        None => None,
    }
}

/// One game per usable entry of the `installed` array of GOG's install list.
pub open spec fn gog_games(installed: Option<JsonValue>, library: Option<JsonValue>) -> Seq<GameView> {
    match installed {
        Some(inst) => match array_field(inst, "installed"@) {
            Some(list) => somes(list.map_values(|e: JsonValue| gog_entry(e, library_games(library)))),
            None => seq![],
        },
        None => seq![],
    }
}

/// The title of `app` in the library cache entries `games`.
fn find_library_title(games: &Vec<JsonValue>, app: &str) -> (r: Option<String>)
    ensures
        crate::text::opt_str(r) == library_title(games@, app@),
{
    let mut k = games.len();
    assert(games@.take(k as int) == games@);
    while k > 0
        invariant
            k <= games@.len(),
            library_title(games@, app@) == library_title(games@.take(k as int), app@),
        decreases k,
    {
        let ghost pre = games@.take(k as int);
        assert(pre.drop_last() == games@.take(k - 1));
        assert(pre.last() == games@[k - 1]);
        let g = &games[k - 1];
        match (g.str_field("app_name"), g.str_field("title")) {
            (Some(a), Some(t)) => {
                let ac = crate::text::chars_of(a);
                if crate::text::is_str(&ac, app) {
                    return Some(owned(t));
                }
            },
            _ => {},
        }
        k = k - 1;
    }
    None
}

/// The games in GOG's install list, titled from the library cache.
pub fn scan_gog(installed: Option<&JsonValue>, library: Option<&JsonValue>) -> (r: Vec<Game>)
    ensures
        game_views(r@) == gog_games(
            match installed {
                Some(v) => Some(*v),
                None => None,
            },
            match library {
                Some(v) => Some(*v),
                None => None,
            },
        ),
{
    let ghost lib_opt = match library {
        Some(v) => Some(*v),
        None => None,
    };
    let empty: Vec<JsonValue> = Vec::new();
    let titles: &Vec<JsonValue> = match library {
        Some(lib) => match lib.array_field("games") {
            Some(items) => items,
            None => &empty,
        },
        None => &empty,
    };
    assert(titles@ == library_games(lib_opt));
    let mut out: Vec<Game> = Vec::new();
    let list = match installed {
        Some(inst) => match inst.array_field("installed") {
            Some(l) => l,
            None => return out,
        },
        None => return out,
    };
    let ghost entries = list@.map_values(|e: JsonValue| gog_entry(e, library_games(lib_opt)));
    let mut i: usize = 0;
    while i < list.len()
        invariant
            i <= list@.len() == entries.len(),
            titles@ == library_games(lib_opt),
            entries == list@.map_values(|e: JsonValue| gog_entry(e, library_games(lib_opt))),
            game_views(out@) == somes(entries.take(i as int)),
        decreases list@.len() - i,
    {
        proof {
            lemma_somes_step(entries, i as int);
        }
        match list[i].str_field("appName") {
            Some(app) => {
                let title = match find_library_title(titles, app) {
                    Some(t) => t,
                    None => owned(app),
                };
                push_game(&mut out, heroic_game("gog", app, title));
            },
            None => {},
        }
        i = i + 1;
    }
    assert(entries.take(i as int) == entries);
    out
}

// --- Sideloaded apps -------------------------------------------------------------------

/// A sideloaded entry with a string `app_name`, titled by its `title` or
/// else its app name.
pub open spec fn sideload_entry(entry: JsonValue) -> Option<GameView> {
    match str_field(entry, "app_name"@) {
        Some(app) => Some(
            heroic_view(
                "sideload"@,
                app,
                match str_field(entry, "title"@) {
                    Some(t) => t,
                    None => app,
                },
            ),
        ),
        None => None,
    }
}

/// One game per usable entry of the sideload library's `games` array.
pub open spec fn sideload_games(library: Option<JsonValue>) -> Seq<GameView> {
    match library {
        Some(lib) => match array_field(lib, "games"@) {
            Some(list) => somes(list.map_values(|e: JsonValue| sideload_entry(e))),
            None => seq![],
        },
        None => seq![],
    }
}

/// The games in the sideload library.
pub fn scan_sideload(library: Option<&JsonValue>) -> (r: Vec<Game>)
    ensures
        game_views(r@) == sideload_games(
            match library {
                Some(v) => Some(*v),
                None => None,
            },
        ),
{
    let mut out: Vec<Game> = Vec::new();
    let list = match library {
        Some(lib) => match lib.array_field("games") {
            Some(l) => l,
            None => return out,
        },
        None => return out,
    };
    let ghost entries = list@.map_values(|e: JsonValue| sideload_entry(e));
    let mut i: usize = 0;
    while i < list.len()
        invariant
            i <= list@.len() == entries.len(),
            entries == list@.map_values(|e: JsonValue| sideload_entry(e)),
            game_views(out@) == somes(entries.take(i as int)),
        decreases list@.len() - i,
    {
        proof {
            lemma_somes_step(entries, i as int);
        }
        match list[i].str_field("app_name") {
            Some(app) => {
                let title = match list[i].str_field("title") {
                    Some(t) => owned(t),
                    None => owned(app),
                };
                push_game(&mut out, heroic_game("sideload", app, title));
            },
            None => {},
        }
        i = i + 1;
    }
    assert(entries.take(i as int) == entries);
    out
}

// --- A config root ------------------------------------------------------------------------

/// The four files read under a Heroic config root: legendary's install
/// list, GOG's install list, the GOG library cache and the sideload library.
pub open spec fn heroic_files_spec(root: Seq<char>) -> (Seq<char>, Seq<char>, Seq<char>, Seq<char>) {
    (
        join_path(root, "legendaryConfig/legendary/installed.json"@),
        join_path(root, "gog_store/installed.json"@),
        join_path(root, "store_cache/gog_library.json"@),
        join_path(root, "sideload_apps/library.json"@),
    )
}

/// The paths of the files read under a Heroic config root.
pub fn heroic_files(root: &str) -> (r: (String, String, String, String))
    ensures
        (r.0@, r.1@, r.2@, r.3@) == heroic_files_spec(root@),
{
    (
        join(root, "legendaryConfig/legendary/installed.json"),
        join(root, "gog_store/installed.json"),
        join(root, "store_cache/gog_library.json"),
        join(root, "sideload_apps/library.json"),
    )
}

pub open spec fn opt_json(v: Option<&JsonValue>) -> Option<JsonValue> {
    match v {
        Some(x) => Some(*x),
        None => None,
    }
}

/// The games of one config root: Epic, then GOG, then sideloaded.
pub fn root_games(
    legendary: Option<&JsonValue>,
    gog_installed: Option<&JsonValue>,
    gog_library: Option<&JsonValue>,
    sideload: Option<&JsonValue>,
) -> (r: Vec<Game>)
    ensures
        game_views(r@) == legendary_games(opt_json(legendary)) + gog_games(
            opt_json(gog_installed),
            opt_json(gog_library),
        ) + sideload_games(opt_json(sideload)),
{
    let mut out = scan_legendary(legendary);
    let mut gog = scan_gog(gog_installed, gog_library);
    let mut side = scan_sideload(sideload);
    let ghost a = out@;
    let ghost b = gog@;
    let ghost c = side@;
    out.append(&mut gog);
    out.append(&mut side);
    assert(out@ == a + b + c);
    assert(game_views(a + b + c) == game_views(a) + game_views(b) + game_views(c));
    out
}

// --- The source -------------------------------------------------------------------------------

/// Heroic discovery over a list of config roots.
pub struct HeroicSource {
    roots: Vec<String>,
}

/// The roots scanned when no override is set: the native and the flatpak
/// config dirs.
pub open spec fn default_heroic_roots(home: Seq<char>) -> Seq<Seq<char>> {
    seq![
        join_path(home, ".config/heroic"@),
        join_path(home, ".var/app/com.heroicgameslauncher.hgl/config/heroic"@),
    ]
}

impl HeroicSource {
    pub closed spec fn root_list(&self) -> Seq<Seq<char>> {
        strings(self.roots@)
    }

    /// The source for this environment: `dirs_var` is the value of
    /// `SILVERDECK_HEROIC_DIRS` (colon-separated), `home` that of `HOME`.
    pub fn from_env(dirs_var: Option<&str>, home: Option<&str>) -> (r: Self)
        ensures
            r.root_list() == match dirs_var {
                Some(v) => split_on(v@, ':'),
                None => default_heroic_roots(
                    crate::paths::home_spec(
                        match home {
                            Some(h) => Some(h@),
                            None => None,
                        },
                    ),
                ),
            },
    {
        match crate::paths::env_paths(dirs_var) {
            Some(roots) => HeroicSource { roots },
            None => {
                let h = crate::paths::home_dir(home);
                let mut roots: Vec<String> = Vec::new();
                roots.push(join(h.as_str(), ".config/heroic"));
                roots.push(join(h.as_str(), ".var/app/com.heroicgameslauncher.hgl/config/heroic"));
                let r = HeroicSource { roots };
                assert(r.root_list() == default_heroic_roots(h@));
                r
            },
        }
    }

    /// The source for an explicit list of config roots.
    pub fn at(roots: Vec<String>) -> (r: Self)
        ensures
            r.root_list() == strings(roots@),
    {
        HeroicSource { roots }
    }

    /// The config roots to scan, in order.
    pub fn roots(&self) -> (r: &Vec<String>)
        ensures
            strings(r@) == self.root_list(),
    {
        &self.roots
    }

    /// The source's id.
    pub fn id(&self) -> (r: &'static str)
        ensures
            r@ == "heroic"@,
    {
        "heroic"
    }
}

} // verus!
