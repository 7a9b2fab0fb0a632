//! Desktop-entry discovery: any `.desktop` file whose Categories contain
//! Game.
//!
//! This is also how installed flatpak games are found: flatpak exports a
//! desktop file per app under `<installation>/exports/share/applications`,
//! so one scanner covers both, and entries from exports dirs are reported as
//! `SourceKind::Flatpak` with a `flatpak run` launch spec.
//!
//! Reading directories and files is left to the caller: the functions here
//! take a file's path and text and say what game (if any) it describes,
//! together with the artwork paths to try, best first.
use vstd::prelude::*;

use crate::games::{Game, GameView, LaunchSpec, LaunchView, SourceKind};
use crate::paths::{extension, extension_of, file_stem, join, join_path, parent, parent_of, stem_of};
use crate::system::strings;
use crate::text::{
    chars_of, concat, contains, contains_str, first_index_of, has_piece, index_of_char, lines,
    lines_str, opt_str, owned, push_char, seq_has, slice_chars, split_on, string_of, trim,
    trim_chars,
};

verus! {

broadcast use vstd::string::group_string_axioms;

// --- The [Desktop Entry] group -----------------------------------------------------

/// The keys of the main group, in file order, with their values.
pub struct DesktopEntry {
    pub entry_type: Option<String>,
    pub pairs: Vec<(String, String)>,
}

/// A desktop entry as plain values.
pub struct EntryView {
    pub entry_type: Option<Seq<char>>,
    pub pairs: Seq<(Seq<char>, Seq<char>)>,
}

pub open spec fn pair_views(p: Seq<(String, String)>) -> Seq<(Seq<char>, Seq<char>)> {
    p.map_values(|x: (String, String)| (x.0@, x.1@))
}

impl View for DesktopEntry {
    type V = EntryView;

    open spec fn view(&self) -> EntryView {
        EntryView { entry_type: opt_str(self.entry_type), pairs: pair_views(self.pairs@) }
    }
}

/// The value of the first pair at or after `i` whose key is `key`.
pub open spec fn lookup_from(pairs: Seq<(Seq<char>, Seq<char>)>, key: Seq<char>, i: int) -> Option<
    Seq<char>,
>
    decreases pairs.len() - i,
{
    if i < 0 || i >= pairs.len() {
        None
    } else if pairs[i].0 == key {
        Some(pairs[i].1)
    } else {
        lookup_from(pairs, key, i + 1)
    }
}

/// The value of the first pair whose key is `key`.
pub open spec fn lookup(pairs: Seq<(Seq<char>, Seq<char>)>, key: Seq<char>) -> Option<Seq<char>> {
    lookup_from(pairs, key, 0)
}

/// Where reading a desktop file stands after some lines: inside the main
/// group or not, whether the main group was seen, and the pairs kept.
pub struct EntryScan {
    pub in_main: bool,
    pub seen_main: bool,
    pub pairs: Seq<(Seq<char>, Seq<char>)>,
}

/// A trimmed line of the form `[name]`.
pub open spec fn is_group_header(line: Seq<char>) -> bool {
    line.len() >= 2 && line[0] == '[' && line.last() == ']'
}

/// One line of a desktop file: blank lines and comments are skipped, a
/// group header switches the main group on or off, and inside the main
/// group `key=value` (split at the first `=`, both sides trimmed) is kept
/// unless the key is localized (`Name[de]`).
pub open spec fn entry_step(st: EntryScan, raw: Seq<char>) -> EntryScan {
    let line = trim(raw);
    if line.len() == 0 || line[0] == '#' {
        st
    } else if is_group_header(line) {
        let in_main = line.subrange(1, line.len() - 1) == "Desktop Entry"@;
        EntryScan { in_main, seen_main: st.seen_main || in_main, pairs: st.pairs }
    } else if !st.in_main {
        st
    } else {
        let eq = first_index_of(line, '=');
        if eq < 0 {
            st
        } else {
            let key = trim(line.take(eq));
            if first_index_of(key, '[') >= 0 {
                st
            } else {
                EntryScan {
                    in_main: st.in_main,
                    seen_main: st.seen_main,
                    pairs: st.pairs.push((key, trim(line.skip(eq + 1)))),
                }
            }
        }
    }
}

/// The state after reading `ls` in order.
pub open spec fn entry_scan(ls: Seq<Seq<char>>) -> EntryScan
    decreases ls.len(),
{
    if ls.len() == 0 {
        EntryScan { in_main: false, seen_main: false, pairs: seq![] }
    } else {
        entry_step(entry_scan(ls.drop_last()), ls.last())
    }
}

/// The main group of a desktop file; None when the file has no
/// `[Desktop Entry]` group.
pub open spec fn parse_entry(text: Seq<char>) -> Option<EntryView> {
    let st = entry_scan(lines(text));
    if st.seen_main {
        Some(EntryView { entry_type: lookup(st.pairs, "Type"@), pairs: st.pairs })
    } else {
        None
    }
}

/// Apply [`entry_step`] to the line `raw`.
fn entry_line(in_main: bool, seen_main: bool, pairs: &mut Vec<(String, String)>, raw: &Vec<char>) -> (r: (
    bool,
    bool,
))
    ensures
        ({
            let n = entry_step(
                EntryScan { in_main, seen_main, pairs: pair_views(old(pairs)@) },
                raw@,
            );
            r.0 == n.in_main && r.1 == n.seen_main && pair_views(final(pairs)@) == n.pairs
        }),
{
    let line = trim_chars(raw);
    let n = line.len();
    if n == 0 || line[0] == '#' {
        return (in_main, seen_main);
    }
    if n >= 2 && line[0] == '[' && line[n - 1] == ']' {
        let group = slice_chars(&line, 1, n - 1);
        let main = crate::text::is_str(&group, "Desktop Entry");
        return (main, seen_main || main);
    }
    if !in_main {
        return (in_main, seen_main);
    }
    match index_of_char(&line, '=') {
        None => (in_main, seen_main),
        Some(eq) => {
            let before = slice_chars(&line, 0, eq);
            let key = trim_chars(&before);
            let after = slice_chars(&line, eq + 1, n);
            let value = trim_chars(&after);
            match index_of_char(&key, '[') {
                Some(_) => (in_main, seen_main),
                None => {
                    let ghost old_pairs = pairs@;
                    pairs.push((string_of(&key), string_of(&value)));
                    assert(pair_views(pairs@) == pair_views(old_pairs).push((key@, value@)));
                    (in_main, seen_main)
                },
            }
        },
    }
}

impl DesktopEntry {
    /// Parse the main group of a desktop file (localized keys and other
    /// groups are ignored); None when there is no `[Desktop Entry]` group.
    pub fn parse(text: &str) -> (r: Option<DesktopEntry>)
        ensures
            match r {
                Some(e) => parse_entry(text@) == Some(e@),
                None => parse_entry(text@) is None,
            },
    {
        let ls = lines_str(text);
        let ghost all = lines(text@);
        let mut in_main = false;
        let mut seen_main = false;
        let mut pairs: Vec<(String, String)> = Vec::new();
        let mut i: usize = 0;
        while i < ls.len()
            invariant
                i <= ls@.len() == all.len(),
                all == lines(text@),
                forall|k: int| 0 <= k < ls@.len() ==> #[trigger] ls@[k]@ == all[k],
                ({
                    let st = entry_scan(all.take(i as int));
                    st.in_main == in_main && st.seen_main == seen_main && st.pairs == pair_views(
                        pairs@,
                    )
                }),
            decreases ls@.len() - i,
        {
            assert(all.take(i + 1).drop_last() == all.take(i as int));
            assert(ls@[i as int]@ == all[i as int]);
            let (m, s) = entry_line(in_main, seen_main, &mut pairs, &ls[i]);
            in_main = m;
            seen_main = s;
            i = i + 1;
        }
        assert(all.take(i as int) == all);
        if !seen_main {
            return None;
        }
        let entry_type = get_value(&pairs, "Type");
        Some(DesktopEntry { entry_type, pairs })
    }

    /// The value of the first pair with this key.
    pub fn get(&self, key: &str) -> (r: Option<String>)
        ensures
            opt_str(r) == lookup(pair_views(self.pairs@), key@),
    {
        get_value(&self.pairs, key)
    }

    /// Whether the key's value is exactly `true`.
    pub fn bool_true(&self, key: &str) -> (r: bool)
        ensures
            r == (lookup(pair_views(self.pairs@), key@) == Some("true"@)),
    {
        match self.get(key) {
            Some(v) => {
                let c = chars_of(v.as_str());
                crate::text::is_str(&c, "true")
            },
            None => false,
        }
    }
}

/// The value of the first pair with this key.
fn get_value(pairs: &Vec<(String, String)>, key: &str) -> (r: Option<String>)
    ensures
        opt_str(r) == lookup(pair_views(pairs@), key@),
{
    let ghost ps = pair_views(pairs@);
    let mut i: usize = 0;
    while i < pairs.len()
        invariant
            i <= pairs@.len(),
            ps == pair_views(pairs@),
            lookup(ps, key@) == lookup_from(ps, key@, i as int),
        decreases pairs@.len() - i,
    {
        let k = chars_of(pairs[i].0.as_str());
        if crate::text::is_str(&k, key) {
            return Some(pairs[i].1.clone());
        }
        i = i + 1;
    }
    None
}

// --- Exec= lines ------------------------------------------------------------------

/// What the character after a backslash (inside quotes) or a `%` (outside)
/// will be taken as.
#[derive(Clone, Copy, PartialEq, Eq, Structural)]
pub enum Pending {
    Nothing,
    Escape,
    Percent,
}

/// Where splitting an Exec= value stands: the arguments done, the one being
/// built, quoting, whether a quote opened the current argument, and what the
/// next character means.
pub struct ExecScan {
    pub argv: Seq<Seq<char>>,
    pub cur: Seq<char>,
    pub in_quotes: bool,
    pub has_token: bool,
    pub pending: Pending,
}

/// One character of an Exec= value, per the desktop-entry spec: double
/// quotes group, a backslash inside quotes takes the next character
/// literally, unquoted blanks end an argument, and a `%` field code
/// swallows the next character, `%%` standing for a literal `%`.
pub open spec fn exec_step(st: ExecScan, c: char) -> ExecScan {
    match st.pending {
        Pending::Escape => ExecScan {
            argv: st.argv,
            cur: st.cur.push(c),
            in_quotes: st.in_quotes,
            has_token: st.has_token,
            pending: Pending::Nothing,
        },
        Pending::Percent => ExecScan {
            argv: st.argv,
            cur: if c == '%' {
                st.cur.push('%')
            } else {
                st.cur
            },
            in_quotes: st.in_quotes,
            has_token: st.has_token,
            pending: Pending::Nothing,
        },
        Pending::Nothing => if c == '"' {
            ExecScan {
                argv: st.argv,
                cur: st.cur,
                in_quotes: !st.in_quotes,
                has_token: true,
                pending: Pending::Nothing,
            }
        } else if c == '\\' && st.in_quotes {
            ExecScan {
                argv: st.argv,
                cur: st.cur,
                in_quotes: st.in_quotes,
                has_token: st.has_token,
                pending: Pending::Escape,
            }
        } else if (c == ' ' || c == '\t') && !st.in_quotes {
            if st.has_token || st.cur.len() > 0 {
                ExecScan {
                    argv: st.argv.push(st.cur),
                    cur: seq![],
                    in_quotes: st.in_quotes,
                    has_token: false,
                    pending: Pending::Nothing,
                }
            } else {
                st
            }
        } else if c == '%' && !st.in_quotes {
            ExecScan {
                argv: st.argv,
                cur: st.cur,
                in_quotes: st.in_quotes,
                has_token: st.has_token,
                pending: Pending::Percent,
            }
        } else {
            ExecScan {
                argv: st.argv,
                cur: st.cur.push(c),
                in_quotes: st.in_quotes,
                has_token: st.has_token,
                pending: Pending::Nothing,
            }
        },
    }
}

/// The state after reading all of `s`.
pub open spec fn exec_scan(s: Seq<char>) -> ExecScan
    decreases s.len(),
{
    if s.len() == 0 {
        ExecScan {
            argv: seq![],
            cur: seq![],
            in_quotes: false,
            has_token: false,
            pending: Pending::Nothing,
        }
    } else {
        exec_step(exec_scan(s.drop_last()), s.last())
    }
}

/// The argv of an Exec= value: the arguments, plus the last one if a quote
/// opened it or it has characters.
pub open spec fn exec_argv(s: Seq<char>) -> Seq<Seq<char>> {
    let st = exec_scan(s);
    if st.has_token || st.cur.len() > 0 {
        st.argv.push(st.cur)
    } else {
        st.argv
    }
}

/// A blank: a space or a tab.
pub open spec fn is_blank(c: char) -> bool {
    c == ' ' || c == '\t'
}

/// `s` has no double quotes and no `%` field codes (a backslash outside
/// quotes is an ordinary character).
pub open spec fn is_plain(s: Seq<char>) -> bool {
    forall|i: int| 0 <= i < s.len() ==> s[i] != '"' && s[i] != '%'
}

/// The blank-separated words of `s`, in order: runs of blanks separate
/// words, and no word is empty.
pub open spec fn words(s: Seq<char>) -> Seq<Seq<char>>
    decreases s.len(),
{
    if s.len() == 0 {
        seq![]
    } else if is_blank(s.last()) {
        words(s.drop_last())
    } else if s.len() == 1 || is_blank(s[s.len() - 2]) {
        words(s.drop_last()).push(seq![s.last()])
    } else {
        let w = words(s.drop_last());
        w.update(w.len() - 1, w.last().push(s.last()))
    }
}

proof fn lemma_plain_scan(s: Seq<char>)
    requires
        is_plain(s),
    ensures
        !exec_scan(s).in_quotes,
        !exec_scan(s).has_token,
        exec_scan(s).pending == Pending::Nothing,
        exec_scan(s).cur.len() > 0 <==> (s.len() > 0 && !is_blank(s.last())),
        words(s) == if exec_scan(s).cur.len() > 0 {
            exec_scan(s).argv.push(exec_scan(s).cur)
        } else {
            exec_scan(s).argv
        },
    decreases s.len(),
{
    if s.len() > 0 {
        let t = s.drop_last();
        assert forall|i: int| 0 <= i < t.len() implies t[i] != '"' && t[i] != '%' by {
            assert(t[i] == s[i]);
        }
        lemma_plain_scan(t);
        let c = s.last();
        assert(c == s[s.len() - 1]);
        let st = exec_scan(t);
        assert(c != '"' && c != '%');
        assert(exec_scan(s) == exec_step(st, c));
        if is_blank(c) {
            assert(words(s) == words(t));
        } else if st.cur.len() > 0 {
            assert(t.len() > 0 && t.last() == s[s.len() - 2]);
            let w = words(t);
            assert(w == st.argv.push(st.cur));
            assert(w.update(w.len() - 1, w.last().push(c)) =~= st.argv.push(st.cur.push(c)));
        } else if !is_blank(c) {
            assert(t.len() == 0 || t.last() == s[s.len() - 2]);
            assert(st.cur.push(c) =~= seq![c]);
            assert(words(s) == words(t).push(seq![c]));
        }
    }
}

/// An Exec= value without quotes or `%` field codes is split into its
/// blank-separated words.
pub proof fn plain_exec_law(s: Seq<char>)
    requires
        is_plain(s),
    ensures
        exec_argv(s) == words(s),
{
    lemma_plain_scan(s);
}

/// Split an Exec= line per the desktop-entry spec (double-quote quoting,
/// backslash escapes) and drop %-field codes.
pub fn parse_exec(exec: &str) -> (r: Vec<String>)
    ensures
        strings(r@) == exec_argv(exec@),
{
    let v = chars_of(exec);
    let mut argv: Vec<String> = Vec::new();
    let mut cur: Vec<char> = Vec::new();
    let mut in_quotes = false;
    let mut has_token = false;
    let mut pending = Pending::Nothing;
    let mut i: usize = 0;
    while i < v.len()
        invariant
            i <= v@.len(),
            v@ == exec@,
            ({
                let st = exec_scan(v@.take(i as int));
                &&& strings(argv@) == st.argv
                &&& cur@ == st.cur
                &&& in_quotes == st.in_quotes
                &&& has_token == st.has_token
                &&& pending == st.pending
            }),
        decreases v@.len() - i,
    {
        assert(v@.take(i + 1).drop_last() == v@.take(i as int));
        let c = v[i];
        match pending {
            Pending::Escape => {
                cur.push(c);
                pending = Pending::Nothing;
            },
            Pending::Percent => {
                if c == '%' {
                    cur.push('%');
                }
                pending = Pending::Nothing;
            },
            Pending::Nothing => {
                if c == '"' {
                    in_quotes = !in_quotes;
                    has_token = true;
                } else if c == '\\' && in_quotes {
                    pending = Pending::Escape;
                } else if (c == ' ' || c == '\t') && !in_quotes {
                    if has_token || cur.len() > 0 {
                        let ghost before = strings(argv@);
                        let done = string_of(&cur);
                        argv.push(done);
                        assert(strings(argv@) == before.push(cur@));
                        cur = Vec::new();
                        has_token = false;
                    }
                } else if c == '%' && !in_quotes {
                    pending = Pending::Percent;
                } else {
                    cur.push(c);
                }
            },
        }
        i = i + 1;
    }
    assert(v@.take(i as int) == v@);
    if has_token || cur.len() > 0 {
        let ghost before = strings(argv@);
        let last = string_of(&cur);
        argv.push(last);
        assert(strings(argv@) == before.push(cur@));
    }
    argv
}

// --- Games from desktop files ----------------------------------------------------------

/// Whether `Game` is one of the `;`-separated categories.
pub open spec fn is_game_category(categories: Seq<char>) -> bool {
    seq_has(split_on(categories, ';'), "Game"@)
}

/// An exported flatpak: the path has a `flatpak` component and the entry
/// runs `flatpak run`.
pub open spec fn is_flatpak_export(path: Seq<char>, exec: Seq<char>) -> bool {
    seq_has(split_on(path, '/'), "flatpak"@) && contains(exec, "flatpak run"@)
}

/// Icons of exported flatpaks live next to the applications dir:
/// `<exports>/share/icons/hicolor/<size>/apps/<appid>.<ext>`, tried from
/// the largest PNG down, then the scalable SVG.
pub open spec fn flatpak_icon_candidates(path: Seq<char>, app_id: Seq<char>) -> Seq<Seq<char>> {
    match parent(path) {
        None => seq![],
        Some(dir) => match parent(dir) {
            None => seq![],
            Some(share) => seq![
                join_path(share, "icons/hicolor/512x512/apps/"@ + app_id + ".png"@),
                join_path(share, "icons/hicolor/256x256/apps/"@ + app_id + ".png"@),
                join_path(share, "icons/hicolor/128x128/apps/"@ + app_id + ".png"@),
                join_path(share, "icons/hicolor/64x64/apps/"@ + app_id + ".png"@),
                join_path(share, "icons/hicolor/scalable/apps/"@ + app_id + ".svg"@),
            ],
        },
    }
}

/// An `Icon=` value is used as artwork only when it is an absolute path.
pub open spec fn icon_candidates(icon: Option<Seq<char>>) -> Seq<Seq<char>> {
    match icon {
        Some(i) => if i.len() > 0 && i[0] == '/' {
            seq![i]
        } else {
            seq![]
        },
        None => seq![],
    }
}

/// The game a desktop file describes, with its artwork candidates: an
/// `Application` entry, shown (neither `NoDisplay` nor `Hidden` is `true`),
/// in the Game category, with a Name and an Exec that is not a Steam
/// shortcut (the Steam source reports those). Flatpak exports become
/// flatpak games named by the file stem; other entries run their split
/// Exec line, which must not be empty.
pub open spec fn desktop_game(path: Seq<char>, text: Seq<char>) -> Option<
    (GameView, Seq<Seq<char>>),
> {
    match parse_entry(text) {
        None => None,
        Some(e) => {
            let categories = match lookup(e.pairs, "Categories"@) {
                Some(c) => c,
                None => seq![],
            };
            if e.entry_type != Some("Application"@) || lookup(e.pairs, "NoDisplay"@) == Some(
                "true"@,
            ) || lookup(e.pairs, "Hidden"@) == Some("true"@) {
                None
            } else if !is_game_category(categories) {
                None
            } else {
                match (lookup(e.pairs, "Name"@), lookup(e.pairs, "Exec"@)) {
                    (Some(name), Some(exec)) => if contains(exec, "steam://rungameid"@) {
                        None
                    } else {
                        match file_stem(path) {
                            None => None,
                            Some(stem) => if is_flatpak_export(path, exec) {
                                Some(
                                    (
                                        GameView {
                                            id: "flatpak:"@ + stem,
                                            title: name,
                                            source: SourceKind::Flatpak,
                                            artwork: None,
                                            launch: LaunchView::FlatpakRef(stem),
                                        },
                                        flatpak_icon_candidates(path, stem),
                                    ),
                                )
                            } else {
                                let argv = exec_argv(exec);
                                if argv.len() == 0 {
                                    None
                                } else {
                                    Some(
                                        (
                                            GameView {
                                                id: "desktop:"@ + stem,
                                                title: name,
                                                source: SourceKind::Desktop,
                                                artwork: None,
                                                launch: LaunchView::Command(argv),
                                            },
                                            icon_candidates(lookup(e.pairs, "Icon"@)),
                                        ),
                                    )
                                }
                            },
                        }
                    },
                    _ => None,
                }
            }
        },
    }
}

/// A discovered game with its artwork candidates, as plain values.
pub open spec fn found_view(f: (Game, Vec<String>)) -> (GameView, Seq<Seq<char>>) {
    (f.0@, strings(f.1@))
}

pub open spec fn opt_found_view(f: Option<(Game, Vec<String>)>) -> Option<(GameView, Seq<Seq<char>>)> {
    match f {
        Some(x) => Some(found_view(x)),
        None => None,
    }
}

fn push_icon(v: &mut Vec<String>, share: &str, dir: &str, app_id: &str, ext: &str)
    ensures
        strings(final(v)@) == strings(old(v)@).push(
            join_path(share@, "icons/hicolor/"@ + dir@ + "/apps/"@ + app_id@ + ext@),
        ),
{
    let mut rel = concat("icons/hicolor/", dir);
    rel.append("/apps/");
    rel.append(app_id);
    rel.append(ext);
    let p = join(share, rel.as_str());
    let ghost before = strings(v@);
    v.push(p);
    assert(strings(v@) == before.push(p@));
}

/// Artwork candidates of an exported flatpak, as [`flatpak_icon_candidates`].
pub fn flatpak_icons(path: &str, app_id: &str) -> (r: Vec<String>)
    ensures
        strings(r@) == flatpak_icon_candidates(path@, app_id@),
{
    let mut r: Vec<String> = Vec::new();
    let dir = match parent_of(path) {
        Some(d) => d,
        None => return r,
    };
    let share = match parent_of(dir.as_str()) {
        Some(s) => s,
        None => return r,
    };
    proof {
        reveal_strlit("icons/hicolor/");
        reveal_strlit("/apps/");
        reveal_strlit("512x512");
        reveal_strlit("256x256");
        reveal_strlit("128x128");
        reveal_strlit("64x64");
        reveal_strlit("scalable");
        reveal_strlit("icons/hicolor/512x512/apps/");
        reveal_strlit("icons/hicolor/256x256/apps/");
        reveal_strlit("icons/hicolor/128x128/apps/");
        reveal_strlit("icons/hicolor/64x64/apps/");
        reveal_strlit("icons/hicolor/scalable/apps/");
        assert("icons/hicolor/"@ + "512x512"@ + "/apps/"@ == "icons/hicolor/512x512/apps/"@);
        assert("icons/hicolor/"@ + "256x256"@ + "/apps/"@ == "icons/hicolor/256x256/apps/"@);
        assert("icons/hicolor/"@ + "128x128"@ + "/apps/"@ == "icons/hicolor/128x128/apps/"@);
        assert("icons/hicolor/"@ + "64x64"@ + "/apps/"@ == "icons/hicolor/64x64/apps/"@);
        assert("icons/hicolor/"@ + "scalable"@ + "/apps/"@ == "icons/hicolor/scalable/apps/"@);
    }
    push_icon(&mut r, share.as_str(), "512x512", app_id, ".png");
    push_icon(&mut r, share.as_str(), "256x256", app_id, ".png");
    push_icon(&mut r, share.as_str(), "128x128", app_id, ".png");
    push_icon(&mut r, share.as_str(), "64x64", app_id, ".png");
    push_icon(&mut r, share.as_str(), "scalable", app_id, ".svg");
    r
}

/// Whether a desktop file at `path` with this Exec line is an exported
/// flatpak (see [`is_flatpak_export`]).
pub fn flatpak_export(path: &str, exec: &str) -> (r: bool)
    ensures
        r == is_flatpak_export(path@, exec@),
{
    let p = chars_of(path);
    let e = chars_of(exec);
    has_piece(&p, '/', "flatpak") && contains_str(&e, "flatpak run")
}

/// Parse one desktop file; None when it is not a launchable game entry.
/// The game comes without artwork; the second part lists the files to try
/// for it, best first (see [`crate::paths::pick_present`]).
pub fn parse_game_entry(path: &str, text: &str) -> (r: Option<(Game, Vec<String>)>)
    ensures
        opt_found_view(r) == desktop_game(path@, text@),
{
    let entry = match DesktopEntry::parse(text) {
        Some(e) => e,
        None => return None,
    };
    let ghost e = entry@;
    let is_app = match &entry.entry_type {
        Some(t) => {
            let c = chars_of(t.as_str());
            crate::text::is_str(&c, "Application")
        },
        None => false,
    };
    if !is_app || entry.bool_true("NoDisplay") || entry.bool_true("Hidden") {
        return None;
    }
    let categories = match entry.get("Categories") {
        Some(c) => chars_of(c.as_str()),
        None => Vec::new(),
    };
    if !has_piece(&categories, ';', "Game") {
        return None;
    }
    let name = match entry.get("Name") {
        Some(n) => n,
        None => return None,
    };
    let exec = match entry.get("Exec") {
        Some(x) => x,
        None => return None,
    };
    let exec_chars = chars_of(exec.as_str());
    if contains_str(&exec_chars, "steam://rungameid") {
        return None;
    }
    let stem = match stem_of(path) {
        Some(s) => s,
        None => return None,
    };
    if flatpak_export(path, exec.as_str()) {
        let game = Game::flatpak(stem.as_str(), name.as_str());
        let icons = flatpak_icons(path, stem.as_str());
        return Some((game, icons));
    }
    let argv = parse_exec(exec.as_str());
    if argv.len() == 0 {
        return None;
    }
    let mut icons: Vec<String> = Vec::new();
    match entry.get("Icon") {
        Some(icon) => {
            let ic = chars_of(icon.as_str());
            if ic.len() > 0 && ic[0] == '/' {
                icons.push(icon);
                assert(strings(icons@) == seq![ic@]);
            }
        },
        None => {},
    }
    let game = Game {
        id: concat("desktop:", stem.as_str()),
        title: name,
        source: SourceKind::Desktop,
        artwork: None,
        launch: LaunchSpec::Command(argv),
    };
    Some((game, icons))
}

/// The games found in a set of files, in order: only `.desktop` files are
/// read, and those that are game entries kept.
pub open spec fn desktop_scan(files: Seq<(Seq<char>, Seq<char>)>) -> Seq<(GameView, Seq<Seq<char>>)>
    decreases files.len(),
{
    if files.len() == 0 {
        seq![]
    } else {
        let prev = desktop_scan(files.drop_last());
        let (path, text) = files.last();
        if extension(path) == Some("desktop"@) {
            match desktop_game(path, text) {
                Some(x) => prev.push(x),
                None => prev,
            }
        } else {
            prev
        }
    }
}

pub open spec fn file_views(files: Seq<(String, String)>) -> Seq<(Seq<char>, Seq<char>)> {
    files.map_values(|f: (String, String)| (f.0@, f.1@))
}

pub open spec fn found_views(found: Seq<(Game, Vec<String>)>) -> Seq<(GameView, Seq<Seq<char>>)> {
    found.map_values(|f: (Game, Vec<String>)| found_view(f))
}

/// The games in a list of `(path, text)` files, as [`desktop_scan`].
pub fn scan_entries(files: &Vec<(String, String)>) -> (r: Vec<(Game, Vec<String>)>)
    ensures
        found_views(r@) == desktop_scan(file_views(files@)),
{
    let ghost fv = file_views(files@);
    let mut out: Vec<(Game, Vec<String>)> = Vec::new();
    let mut i: usize = 0;
    while i < files.len()
        invariant
            i <= files@.len(),
            fv == file_views(files@),
            found_views(out@) == desktop_scan(fv.take(i as int)),
        decreases files@.len() - i,
    {
        assert(fv.take(i + 1).drop_last() == fv.take(i as int));
        assert(fv.take(i + 1).last() == (files@[i as int].0@, files@[i as int].1@));
        let path = files[i].0.as_str();
        let is_desktop = match extension_of(path) {
            Some(ext) => {
                let e = chars_of(ext.as_str());
                crate::text::is_str(&e, "desktop")
            },
            None => false,
        };
        if is_desktop {
            match parse_game_entry(path, files[i].1.as_str()) {
                Some(found) => {
                    let ghost before = found_views(out@);
                    let ghost fview = found_view(found);
                    out.push(found);
                    assert(found_views(out@) == before.push(fview));
                },
                None => {},
            }
        }
        i = i + 1;
    }
    assert(fv.take(i as int) == fv);
    out
}

// --- The source ---------------------------------------------------------------------------

/// Desktop-entry discovery over a list of application directories.
pub struct DesktopSource {
    dirs: Vec<String>,
}

/// The directories scanned when no override is set: the system and user
/// applications dirs and the system and user flatpak exports.
pub open spec fn default_desktop_dirs(home: Seq<char>) -> Seq<Seq<char>> {
    seq![
        "/usr/share/applications"@,
        join_path(home, ".local/share/applications"@),
        "/var/lib/flatpak/exports/share/applications"@,
        join_path(home, ".local/share/flatpak/exports/share/applications"@),
    ]
}

impl DesktopSource {
    pub closed spec fn dir_list(&self) -> Seq<Seq<char>> {
        strings(self.dirs@)
    }

    /// The source for this environment: `dirs_var` is the value of
    /// `SILVERDECK_APPLICATIONS_DIRS` (colon-separated), `home` that of
    /// `HOME`.
    pub fn from_env(dirs_var: Option<&str>, home: Option<&str>) -> (r: Self)
        ensures
            r.dir_list() == match dirs_var {
                Some(v) => split_on(v@, ':'),
                None => default_desktop_dirs(
                    crate::paths::home_spec(
                        match home {
                            Some(h) => Some(h@),
                            None => None,
                        },
                    ),
                ),
            },
    {
        match crate::paths::env_paths(dirs_var) {
            Some(dirs) => DesktopSource { dirs },
            None => {
                let h = crate::paths::home_dir(home);
                let mut dirs: Vec<String> = Vec::new();
                dirs.push(owned("/usr/share/applications"));
                dirs.push(join(h.as_str(), ".local/share/applications"));
                dirs.push(owned("/var/lib/flatpak/exports/share/applications"));
                dirs.push(join(h.as_str(), ".local/share/flatpak/exports/share/applications"));
                let r = DesktopSource { dirs };
                assert(r.dir_list() == default_desktop_dirs(h@));
                r
            },
        }
    }

    /// The source for an explicit list of directories.
    pub fn at(dirs: Vec<String>) -> (r: Self)
        ensures
            r.dir_list() == strings(dirs@),
    {
        DesktopSource { dirs }
    }

    /// The directories to scan, in order.
    pub fn dirs(&self) -> (r: &Vec<String>)
        ensures
            strings(r@) == self.dir_list(),
    {
        &self.dirs
    }

    /// The source's id.
    pub fn id(&self) -> (r: &'static str)
        ensures
            r@ == "desktop"@,
    {
        "desktop"
    }
}


/// A hidden or NoDisplay entry is never a game: whatever else it says,
/// when its main group has `Hidden=true` or `NoDisplay=true` no game comes
/// of it.
pub proof fn hidden_entry_law(path: Seq<char>, text: Seq<char>)
    requires
        parse_entry(text) matches Some(e) && (lookup(e.pairs, "Hidden"@) == Some("true"@) || lookup(
            e.pairs,
            "NoDisplay"@,
        ) == Some("true"@)),
    ensures
        desktop_game(path, text) is None,
{
}

} // verus!
