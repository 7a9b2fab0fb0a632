//! Steam library discovery.
//!
//! The caller locates the Steam install and reads its libraries and app
//! manifests; the functions here decide which apps are games, how each is
//! launched and where its cover art may be cached.
use vstd::prelude::*;

use crate::desktop::{found_view, found_views};
use crate::games::{Game, GameView, LaunchSpec, LaunchView, SourceKind};
use crate::paths::{join, join_path};
use crate::system::strings;
use crate::text::{chars_of, concat, decimal, decimal_string, opt_str, owned, starts_with};

verus! {

broadcast use vstd::string::group_string_axioms;

/// An installed app as its manifest gives it.
pub struct SteamApp {
    pub app_id: u32,
    pub name: Option<String>,
}

pub open spec fn app_views(apps: Seq<SteamApp>) -> Seq<(u32, Option<Seq<char>>)> {
    apps.map_values(|a: SteamApp| (a.app_id, opt_str(a.name)))
}

/// Steam's own runtime/tool apps that show up as installed apps but are not
/// games: Steamworks Common Redistributables, Steam Linux Runtime 1.0, 2.0
/// and 3.0, and the Proton BattlEye and EasyAntiCheat runtimes.
pub open spec fn non_game_ids() -> Seq<u32> {
    seq![228980u32, 1070560u32, 1391110u32, 1628350u32, 961940u32, 1826330u32]
}

/// Whether an app id is one of Steam's runtime/tool apps.
pub fn is_tool_app(app_id: u32) -> (r: bool)
    ensures
        r == non_game_ids().contains(app_id),
{
    let r = app_id == 228980 || app_id == 1070560 || app_id == 1391110 || app_id == 1628350
        || app_id == 961940 || app_id == 1826330;
    proof {
        let ids = non_game_ids();
        if r {
            if app_id == 228980 {
                assert(ids[0] == app_id);
            } else if app_id == 1070560 {
                assert(ids[1] == app_id);
            } else if app_id == 1391110 {
                assert(ids[2] == app_id);
            } else if app_id == 1628350 {
                assert(ids[3] == app_id);
            } else if app_id == 961940 {
                assert(ids[4] == app_id);
            } else {
                assert(ids[5] == app_id);
            }
        }
    }
    r
}

/// An app is listed as a game unless it is a runtime/tool app, has no
/// name, or is a Proton build.
pub open spec fn is_listed(app_id: u32, name: Option<Seq<char>>) -> bool {
    !non_game_ids().contains(app_id) && match name {
        Some(n) => !starts_with(n, "Proton"@),
        None => false,
    }
}

/// Whether the app is listed as a game (see [`is_listed`]).
pub fn listed(app: &SteamApp) -> (r: bool)
    ensures
        r == is_listed(app.app_id, opt_str(app.name)),
{
    if is_tool_app(app.app_id) {
        return false;
    }
    match &app.name {
        Some(n) => {
            let c = chars_of(n.as_str());
            !crate::text::starts_with_str(&c, "Proton")
        },
        None => false,
    }
}

/// Steam Big Picture, always offered: the controller-friendly entry point
/// for anything the launcher integration doesn't cover (login, store).
pub open spec fn big_picture() -> GameView {
    GameView {
        id: "steam:bigpicture"@,
        title: "Steam Big Picture"@,
        source: SourceKind::Steam,
        artwork: None,
        launch: LaunchView::Command(seq!["steam"@, "-gamepadui"@]),
    }
}

/// A Steam game as `Game::steam` builds it.
pub open spec fn steam_view(app_id: u32, title: Seq<char>) -> GameView {
    GameView {
        id: "steam:"@ + decimal(app_id as nat),
        title,
        source: SourceKind::Steam,
        artwork: None,
        launch: LaunchView::SteamAppId(app_id),
    }
}

/// Where Steam caches cover art: the per-app directory layout first, then
/// the legacy flat files.
pub open spec fn artwork_candidates(root: Seq<char>, app_id: u32) -> Seq<Seq<char>> {
    let cache = join_path(root, "appcache/librarycache"@);
    let id = decimal(app_id as nat);
    seq![
        join_path(join_path(cache, id), "library_600x900.jpg"@),
        join_path(join_path(cache, id), "header.jpg"@),
        join_path(cache, id + "_library_600x900.jpg"@),
        join_path(cache, id + "_header.jpg"@),
    ]
}

/// The listed apps as games, in order, each with its artwork candidates.
pub open spec fn listed_games(root: Seq<char>, apps: Seq<(u32, Option<Seq<char>>)>) -> Seq<
    (GameView, Seq<Seq<char>>),
>
    decreases apps.len(),
{
    if apps.len() == 0 {
        seq![]
    } else {
        let prev = listed_games(root, apps.drop_last());
        let (id, name) = apps.last();
        if is_listed(id, name) {
            prev.push((steam_view(id, name.unwrap()), artwork_candidates(root, id)))
        } else {
            prev
        }
    }
}

/// What a Steam scan reports: Big Picture first, then the listed apps.
pub open spec fn steam_scan(root: Seq<char>, apps: Seq<(u32, Option<Seq<char>>)>) -> Seq<
    (GameView, Seq<Seq<char>>),
> {
    seq![(big_picture(), seq![])] + listed_games(root, apps)
}

/// The artwork candidates of an app under a Steam root.
pub fn artwork_for(steam_root: &str, app_id: u32) -> (r: Vec<String>)
    ensures
        strings(r@) == artwork_candidates(steam_root@, app_id),
{
    let cache = join(steam_root, "appcache/librarycache");
    let id = decimal_string(app_id as u64);
    let per_app = join(cache.as_str(), id.as_str());
    let mut r: Vec<String> = Vec::new();
    r.push(join(per_app.as_str(), "library_600x900.jpg"));
    r.push(join(per_app.as_str(), "header.jpg"));
    let flat_cover = concat(id.as_str(), "_library_600x900.jpg");
    r.push(join(cache.as_str(), flat_cover.as_str()));
    let flat_header = concat(id.as_str(), "_header.jpg");
    r.push(join(cache.as_str(), flat_header.as_str()));
    assert(strings(r@) == artwork_candidates(steam_root@, app_id));
    r
}

/// The games of a Steam install whose root is `steam_root`, from its
/// installed apps, as [`steam_scan`].
pub fn steam_games(steam_root: &str, apps: &Vec<SteamApp>) -> (r: Vec<(Game, Vec<String>)>)
    ensures
        found_views(r@) == steam_scan(steam_root@, app_views(apps@)),
{
    let ghost av = app_views(apps@);
    let mut argv: Vec<String> = Vec::new();
    argv.push(owned("steam"));
    argv.push(owned("-gamepadui"));
    assert(argv@.map_values(|s: String| s@) =~= seq!["steam"@, "-gamepadui"@]);
    let bp = Game {
        id: owned("steam:bigpicture"),
        title: owned("Steam Big Picture"),
        source: SourceKind::Steam,
        artwork: None,
        launch: LaunchSpec::Command(argv),
    };
    assert(bp@ == big_picture());
    let no_art: Vec<String> = Vec::new();
    assert(strings(no_art@) =~= Seq::<Seq<char>>::empty());
    let mut out: Vec<(Game, Vec<String>)> = Vec::new();
    out.push((bp, no_art));
    assert(found_views(out@) == seq![(big_picture(), Seq::<Seq<char>>::empty())]);
    let mut i: usize = 0;
    while i < apps.len()
        invariant
            i <= apps@.len(),
            av == app_views(apps@),
            found_views(out@) == seq![(big_picture(), Seq::<Seq<char>>::empty())] + listed_games(
                steam_root@,
                av.take(i as int),
            ),
        decreases apps@.len() - i,
    {
        assert(av.take(i + 1).drop_last() == av.take(i as int));
        assert(av.take(i + 1).last() == (apps@[i as int].app_id, opt_str(apps@[i as int].name)));
        let app = &apps[i];
        if listed(app) {
            let name = match &app.name {
                Some(n) => n.as_str(),
                None => "",
            };
            let game = Game::steam(app.app_id, name);
            let art = artwork_for(steam_root, app.app_id);
            let ghost before = found_views(out@);
            let ghost item = found_view((game, art));
            out.push((game, art));
            assert(found_views(out@) == before.push(item));
        }
        i = i + 1;
    }
    assert(av.take(i as int) == av);
    out
}

/// The error a scan reports when no Steam install is found: at the given
/// root, or anywhere when none was given.
pub open spec fn missing_steam_message(root: Option<Seq<char>>) -> Seq<char> {
    match root {
        Some(r) => "not a Steam dir: "@ + r,
        None => "Steam installation not found"@,
    }
}

// --- The source ----------------------------------------------------------------------

/// Steam discovery: an explicit Steam root, or None to autodetect.
pub struct SteamSource {
    root: Option<String>,
}

impl SteamSource {
    pub closed spec fn root_spec(&self) -> Option<Seq<char>> {
        opt_str(self.root)
    }

    /// The source for this environment: `root_var` is the value of
    /// `SILVERDECK_STEAM_ROOT`.
    pub fn from_env(root_var: Option<&str>) -> (r: Self)
        ensures
            r.root_spec() == match root_var {
                Some(v) => Some(v@),
                None => None,
            },
    {
        match root_var {
            Some(v) => SteamSource { root: Some(owned(v)) },
            None => SteamSource { root: None },
        }
    }

    /// The source for an explicit Steam root.
    pub fn at(root: &str) -> (r: Self)
        ensures
            r.root_spec() == Some(root@),
    {
        SteamSource { root: Some(owned(root)) }
    }

    /// The explicit Steam root, if any.
    pub fn root(&self) -> (r: Option<&str>)
        ensures
            match r {
                Some(s) => self.root_spec() == Some(s@),
                None => self.root_spec() is None,
            },
    {
        match &self.root {
            Some(s) => Some(s.as_str()),
            None => None,
        }
    }

    /// The error reported when the Steam install cannot be opened.
    pub fn missing_message(&self) -> (r: String)
        ensures
            r@ == missing_steam_message(self.root_spec()),
    {
        match &self.root {
            Some(root) => concat("not a Steam dir: ", root.as_str()),
            None => owned("Steam installation not found"),
        }
    }

    /// The source's id.
    pub fn id(&self) -> (r: &'static str)
        ensures
            r@ == "steam"@,
    {
        "steam"
    }
}


/// Whether a launch is something other than one of Steam's runtime or
/// tool apps: Steamworks Common Redistributables (228980), Steam Linux
/// Runtime 1.0, 2.0 and 3.0 (1070560, 1391110, 1628350), Proton BattlEye
/// (961940) and Proton EasyAntiCheat (1826330).
pub open spec fn not_a_tool_launch(launch: LaunchView) -> bool {
    match launch {
        LaunchView::SteamAppId(id) => id != 228980 && id != 1070560 && id != 1391110 && id
            != 1628350 && id != 961940 && id != 1826330,
        _ => true,
    }
}

proof fn lemma_listed_games_not_tools(root: Seq<char>, apps: Seq<(u32, Option<Seq<char>>)>)
    ensures
        forall|k: int|
            0 <= k < listed_games(root, apps).len() ==> not_a_tool_launch(
                (#[trigger] listed_games(root, apps)[k]).0.launch,
            ),
    decreases apps.len(),
{
    if apps.len() > 0 {
        let d = apps.drop_last();
        lemma_listed_games_not_tools(root, d);
        let (id, name) = apps.last();
        let ids = non_game_ids();
        if is_listed(id, name) {
            assert(ids[0] == 228980u32 && ids[1] == 1070560u32 && ids[2] == 1391110u32);
            assert(ids[3] == 1628350u32 && ids[4] == 961940u32 && ids[5] == 1826330u32);
            assert(id != ids[0] && id != ids[1] && id != ids[2] && id != ids[3] && id != ids[4] && id
                != ids[5]);
        }
    }
}

/// A Steam scan offers Big Picture first, then only real games: no game it
/// launches by app id is one of Steam's runtime or tool apps (see
/// [`not_a_tool_launch`]).
pub proof fn steam_scan_skips_tools_law(root: Seq<char>, apps: Seq<(u32, Option<Seq<char>>)>)
    ensures
        steam_scan(root, apps)[0].0.launch == LaunchView::Command(seq!["steam"@, "-gamepadui"@]),
        forall|k: int|
            0 <= k < steam_scan(root, apps).len() ==> not_a_tool_launch(
                (#[trigger] steam_scan(root, apps)[k]).0.launch,
            ),
{
    lemma_listed_games_not_tools(root, apps);
    let s = steam_scan(root, apps);
    assert forall|k: int| 0 <= k < s.len() implies not_a_tool_launch((#[trigger] s[k]).0.launch) by {
        if k > 0 {
            assert(s[k] == listed_games(root, apps)[k - 1]);
        }
    }
}

} // verus!
