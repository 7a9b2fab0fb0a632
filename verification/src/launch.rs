//! Game session decisions: the argv a launch spec runs as (optionally
//! wrapped in gamescope), and how a finished session is judged.
use vstd::prelude::*;

use crate::games::{LaunchSpec, LaunchView};
use crate::system::strings;
use crate::text::{decimal, decimal_string, owned};

verus! {

broadcast use vstd::string::group_string_axioms;

pub const UI_APP_ID: &'static str = "silverdeck-ui";

#[derive(Debug, Clone, PartialEq, Eq)]
pub struct LaunchOptions {
    pub gamescope: Option<Gamescope>,
}

impl Default for LaunchOptions {
    fn default() -> (r: Self)
        ensures
            r.gamescope is None,
    {
        LaunchOptions { gamescope: None }
    }
}

#[derive(Debug, Clone, PartialEq, Eq, Structural)]
pub struct Gamescope {
    pub width: u32,
    pub height: u32,
    pub fps_limit: Option<u32>,
}

#[derive(Debug, Clone, Copy, PartialEq, Eq, Structural)]
pub enum SessionEvent {
    Started,
    Exited { success: bool },
}

/// The flatpak id of the Heroic launcher.
pub open spec fn heroic_flatpak() -> Seq<char> {
    "com.heroicgameslauncher.hgl"@
}

/// The argv a launch spec runs as, before any gamescope wrapping.
pub open spec fn base_command(spec: LaunchView, heroic_native: bool) -> Seq<Seq<char>> {
    match spec {
        LaunchView::Command(argv) => argv,
        LaunchView::SteamAppId(id) => seq!["steam"@, "steam://rungameid/"@ + decimal(id as nat)],
        LaunchView::FlatpakRef(app) => seq!["flatpak"@, "run"@, app],
        LaunchView::Heroic(runner, id) => {
            let url = "heroic://launch/"@ + runner + "/"@ + id;
            if heroic_native {
                seq!["heroic"@, "--no-gui"@, url]
            } else {
                seq!["flatpak"@, "run"@, heroic_flatpak(), "--no-gui"@, url]
            }
        },
    }
}

/// The gamescope prefix for a fullscreen session of the given size.
pub open spec fn gamescope_prefix(g: Gamescope) -> Seq<Seq<char>> {
    seq!["gamescope"@, "-W"@, decimal(g.width as nat), "-H"@, decimal(g.height as nat)] + match g.fps_limit {
        Some(fps) => seq!["-r"@, decimal(fps as nat)],
        None => seq![],
    } + seq!["--fullscreen"@, "--"@]
}

/// The argv of a launch: wrapped in gamescope when asked, except Steam URL
/// launches, which only signal the running Steam daemon (wrapping them would
/// wrap the messenger, not the game).
pub open spec fn command_spec(spec: LaunchView, opts: LaunchOptions, heroic_native: bool) -> Seq<Seq<char>> {
    let base = base_command(spec, heroic_native);
    match opts.gamescope {
        Some(g) => if spec is SteamAppId {
            base
        } else {
            gamescope_prefix(g) + base
        },
        None => base,
    }
}

fn push_str(v: &mut Vec<String>, s: &str)
    ensures
        strings(final(v)@) == strings(old(v)@).push(s@),
{
    v.push(owned(s));
    assert(strings(v@) == strings(old(v)@).push(s@));
}

fn push_string(v: &mut Vec<String>, s: String)
    ensures
        strings(final(v)@) == strings(old(v)@).push(s@),
{
    v.push(s);
    assert(strings(v@) == strings(old(v)@).push(s@));
}

/// Build the argv for a launch spec. `heroic_native` selects between a host
/// `heroic` binary and the flatpak-installed launcher.
pub fn build_command(spec: &LaunchSpec, opts: &LaunchOptions, heroic_native: bool) -> (r: Vec<String>)
    ensures
        strings(r@) == command_spec(spec@, *opts, heroic_native),
{
    let mut argv: Vec<String> = Vec::new();
    let wrap = match (&opts.gamescope, spec) {
        (Some(_), LaunchSpec::SteamAppId(_)) => None,
        (Some(g), _) => Some(g),
        (None, _) => None,
    };
    match wrap {
        Some(g) => {
            push_str(&mut argv, "gamescope");
            push_str(&mut argv, "-W");
            push_string(&mut argv, decimal_string(g.width as u64));
            push_str(&mut argv, "-H");
            push_string(&mut argv, decimal_string(g.height as u64));
            match g.fps_limit {
                Some(fps) => {
                    push_str(&mut argv, "-r");
                    push_string(&mut argv, decimal_string(fps as u64));
                },
                None => {},
            }
            push_str(&mut argv, "--fullscreen");
            push_str(&mut argv, "--");
            assert(strings(argv@) == gamescope_prefix(*g));
        },
        None => {},
    }
    let ghost prefix = strings(argv@);
    match spec {
        LaunchSpec::Command(cmd) => {
            let mut i: usize = 0;
            while i < cmd.len()
                invariant
                    i <= cmd@.len(),
                    strings(argv@) == prefix + strings(cmd@).take(i as int),
                decreases cmd@.len() - i,
            {
                push_string(&mut argv, cmd[i].clone());
                assert(strings(cmd@).take(i + 1) == strings(cmd@).take(i as int).push(cmd@[i as int]@));
                i = i + 1;
            }
            assert(strings(cmd@).take(i as int) == strings(cmd@));
        },
        LaunchSpec::SteamAppId(id) => {
            push_str(&mut argv, "steam");
            let mut url = owned("steam://rungameid/");
            let digits = decimal_string(*id as u64);
            url.append(digits.as_str());
            push_string(&mut argv, url);
        },
        LaunchSpec::FlatpakRef(app) => {
            push_str(&mut argv, "flatpak");
            push_str(&mut argv, "run");
            push_string(&mut argv, app.clone());
        },
        LaunchSpec::Heroic { runner, id } => {
            let mut url = owned("heroic://launch/");
            url.append(runner.as_str());
            url.append("/");
            url.append(id.as_str());
            if heroic_native {
                push_str(&mut argv, "heroic");
                push_str(&mut argv, "--no-gui");
            } else {
                push_str(&mut argv, "flatpak");
                push_str(&mut argv, "run");
                push_str(&mut argv, "com.heroicgameslauncher.hgl");
                push_str(&mut argv, "--no-gui");
            }
            push_string(&mut argv, url);
        },
    }
    argv
}

/// Only launches through a daemonizing launcher (Steam URLs) need window
/// tracking to tell when the game is gone; for direct children their exit
/// already proves it.
pub fn needs_window_tracking(spec: &LaunchSpec) -> (r: bool)
    ensures
        r == (spec@ is SteamAppId),
{
    match spec {
        LaunchSpec::SteamAppId(_) => true,
        _ => false,
    }
}

/// Whether a session counts as successful: the child's exit status, except
/// inside sway for Steam URL launches, whose child status is meaningless.
pub fn session_success(spec: &LaunchSpec, child_success: bool, in_sway: bool) -> (r: bool)
    ensures
        r == (child_success || (in_sway && spec@ is SteamAppId)),
{
    if in_sway && needs_window_tracking(spec) {
        true
    } else {
        child_success
    }
}

/// Whether a sway tree node is an application window other than the
/// console UI: it has a process and an app id or X11 class, and its app id
/// is not the UI's.
pub fn is_foreign_window(has_pid: bool, app_id: Option<&str>, has_class: bool) -> (r: bool)
    ensures
        r == (has_pid && (app_id is Some || has_class) && !(app_id matches Some(a) && a@
            == UI_APP_ID@)),
{
    let is_window = has_pid && (app_id.is_some() || has_class);
    let is_ui = match app_id {
        Some(a) => {
            let v = crate::text::chars_of(a);
            crate::text::is_str(&v, UI_APP_ID)
        },
        None => false,
    };
    is_window && !is_ui
}

/// A Steam launch is always the bare URL invocation of the running Steam
/// client, whatever the gamescope setting: wrapping it would wrap the
/// messenger, not the game.
pub proof fn steam_never_wrapped_law(app_id: u32, opts: LaunchOptions, heroic_native: bool)
    ensures
        command_spec(LaunchView::SteamAppId(app_id), opts, heroic_native) == seq![
            "steam"@,
            "steam://rungameid/"@ + decimal(app_id as nat),
        ],
{
}

/// Every other launch runs under gamescope exactly when gamescope is asked
/// for: the gamescope prefix, then the launch's own argv.
pub proof fn gamescope_wrap_law(spec: LaunchView, opts: LaunchOptions, heroic_native: bool)
    requires
        !(spec is SteamAppId),
    ensures
        command_spec(spec, opts, heroic_native) == match opts.gamescope {
            Some(g) => gamescope_prefix(g) + base_command(spec, heroic_native),
            None => base_command(spec, heroic_native),
        },
{
}

/// One look at the window tree while waiting for a daemonized game to
/// close: returns whether a foreign window was ever seen and whether the
/// wait is over. The wait ends once the windows seen are gone, or when no
/// window appeared within 120 seconds.
pub fn window_wait_step(saw_foreign: bool, foreign: u64, elapsed_secs: u64) -> (r: (bool, bool))
    ensures
        r == if foreign > 0 {
            (true, false)
        } else {
            (saw_foreign, saw_foreign || elapsed_secs > 120)
        },
{
    if foreign > 0 {
        (true, false)
    } else {
        (saw_foreign, saw_foreign || elapsed_secs > 120)
    }
}

/// The sway command that gives the console UI focus and fullscreen back.
pub fn focus_ui_command() -> (r: String)
    ensures
        r@ == "[app_id=\""@ + UI_APP_ID@ + "\"] focus; [app_id=\""@ + UI_APP_ID@
            + "\"] fullscreen enable"@,
{
    let mut s = owned("[app_id=\"");
    s.append(UI_APP_ID);
    s.append("\"] focus; [app_id=\"");
    s.append(UI_APP_ID);
    s.append("\"] fullscreen enable");
    s
}

// --- Foreign windows ------------------------------------------------------------------

/// A node of the window manager's tree, as far as window tracking reads
/// it: whether it has a process, its app id, whether it has an X11 class,
/// and its tiled and floating children.
pub struct WindowNode {
    pub has_pid: bool,
    pub app_id: Option<String>,
    pub has_class: bool,
    pub nodes: Vec<WindowNode>,
    pub floating_nodes: Vec<WindowNode>,
}

/// Whether this node is itself a window of another application than the
/// console UI (see [`is_foreign_window`]).
pub open spec fn foreign_here(n: WindowNode) -> bool {
    n.has_pid && (n.app_id is Some || n.has_class) && !(n.app_id matches Some(a) && a@ == UI_APP_ID@)
}

/// How many foreign windows the tree under `n` holds.
pub open spec fn foreign_count(n: WindowNode) -> nat
    decreases n,
{
    (if foreign_here(n) {
        1nat
    } else {
        0nat
    }) + foreign_count_all(n.nodes@) + foreign_count_all(n.floating_nodes@)
}

/// How many foreign windows the trees in `s` hold.
pub open spec fn foreign_count_all(s: Seq<WindowNode>) -> nat
    decreases s,
{
    if s.len() == 0 {
        0
    } else {
        foreign_count_all(s.drop_last()) + foreign_count(s.last())
    }
}

/// Count the foreign windows under a node.
pub fn count_foreign_windows(n: &WindowNode) -> (r: u64)
    requires
        foreign_count(*n) <= u64::MAX,
    ensures
        r == foreign_count(*n),
    decreases n,
{
    let app = match &n.app_id {
        Some(a) => Some(a.as_str()),
        None => None,
    };
    let here: u64 = if is_foreign_window(n.has_pid, app, n.has_class) {
        1
    } else {
        0
    };
    let a = count_all(&n.nodes);
    let b = count_all(&n.floating_nodes);
    here + a + b
}

/// Count the foreign windows under each node of `v`.
fn count_all(v: &Vec<WindowNode>) -> (r: u64)
    requires
        foreign_count_all(v@) <= u64::MAX,
    ensures
        r == foreign_count_all(v@),
    decreases v,
{
    let mut total: u64 = 0;
    let mut i: usize = 0;
    while i < v.len()
        invariant
            i <= v@.len(),
            foreign_count_all(v@) <= u64::MAX,
            total == foreign_count_all(v@.take(i as int)),
        decreases v@.len() - i,
    {
        assert(v@.take(i + 1).drop_last() == v@.take(i as int));
        proof {
            lemma_count_all_prefix(v@, i + 1);
        }
        let c = count_foreign_windows(&v[i]);
        total = total + c;
        i = i + 1;
    }
    assert(v@.take(i as int) == v@);
    total
}

proof fn lemma_count_all_prefix(s: Seq<WindowNode>, k: int)
    requires
        0 <= k <= s.len(),
    ensures
        foreign_count_all(s.take(k)) <= foreign_count_all(s),
    decreases s.len(),
{
    if k < s.len() {
        assert(s.take(k) == s.drop_last().take(k));
        lemma_count_all_prefix(s.drop_last(), k);
    } else {
        assert(s.take(k) == s);
    }
}


/// A Heroic game is launched through its launch URL, which names both the
/// runner and the game: whatever the options and the launcher install, the
/// last argument is `heroic://launch/<runner>/<id>`, and with the host's
/// `heroic` and no gamescope the argv is `heroic --no-gui <url>`.
pub proof fn heroic_url_law(runner: Seq<char>, id: Seq<char>, opts: LaunchOptions, heroic_native: bool)
    ensures
        ({
            let argv = command_spec(LaunchView::Heroic(runner, id), opts, heroic_native);
            argv.len() >= 3 && argv.last() == "heroic://launch/"@ + runner + "/"@ + id
        }),
        heroic_native && opts.gamescope is None ==> command_spec(
            LaunchView::Heroic(runner, id),
            opts,
            heroic_native,
        ) == seq!["heroic"@, "--no-gui"@, "heroic://launch/"@ + runner + "/"@ + id],
{
}

} // verus!
