//! The SilverDeck store: a curated allowlist of Flathub apps baked into the
//! image, enriched with Flathub metadata, installed via flatpak.
//!
//! flatpak only renders progress on a TTY, so installs run under a PTY and
//! percentages are scraped from the raw output. The caller runs the PTY and
//! feeds its output to an [`InstallWatch`], which decides what to report.
use vstd::prelude::*;

use crate::json::{str_field, JsonValue};
use crate::paths::{join, join_path};
use crate::system::{answer_view, effect_of, strings, strs, CommandRunner};
use crate::text::{
    chars_of, concat, lines, lines_str, lowercase, opt_str, owned, parse_u8, parse_u8_spec,
    starts_with, string_of, to_lowercase, trim, trim_chars,
};

verus! {

broadcast use vstd::string::group_string_axioms;

pub const DEFAULT_STORE_FILE: &'static str = "/usr/share/silverdeck/store.json";

pub const FLATHUB_REMOTE: &'static str = "flathub";

// --- Curated allowlist ------------------------------------------------------

#[derive(Debug, Clone, PartialEq, Eq)]
pub struct StoreCategory {
    pub name: String,
    pub apps: Vec<String>,
}

#[derive(Debug, Clone, PartialEq, Eq)]
pub struct StoreCatalog {
    pub categories: Vec<StoreCategory>,
}

/// Every app of every category, category by category.
pub open spec fn catalog_apps(categories: Seq<StoreCategory>) -> Seq<Seq<char>>
    decreases categories.len(),
{
    if categories.len() == 0 {
        seq![]
    } else {
        catalog_apps(categories.drop_last()) + strings(categories.last().apps@)
    }
}

impl StoreCatalog {
    /// The app ids of all categories, in catalog order.
    pub fn all_apps(&self) -> (r: Vec<String>)
        ensures
            strings(r@) == catalog_apps(self.categories@),
    {
        let mut out: Vec<String> = Vec::new();
        let mut i: usize = 0;
        while i < self.categories.len()
            invariant
                i <= self.categories@.len(),
                strings(out@) == catalog_apps(self.categories@.take(i as int)),
            decreases self.categories@.len() - i,
        {
            let ghost cats = self.categories@;
            assert(cats.take(i + 1).drop_last() == cats.take(i as int));
            let apps = &self.categories[i].apps;
            let ghost start = strings(out@);
            let mut k: usize = 0;
            while k < apps.len()
                invariant
                    k <= apps@.len(),
                    strings(out@) == start + strings(apps@).take(k as int),
                decreases apps@.len() - k,
            {
                let ghost before = strings(out@);
                let c = apps[k].clone();
                out.push(c);
                assert(strings(out@) == before.push(c@));
                assert(strings(apps@).take(k + 1) == strings(apps@).take(k as int).push(apps@[k as int]@));
                assert(strings(out@) == start + strings(apps@).take(k + 1));
                k = k + 1;
            }
            assert(strings(apps@).take(k as int) == strings(apps@));
            i = i + 1;
        }
        assert(self.categories@.take(i as int) == self.categories@);
        out
    }
}

// --- Flathub metadata -------------------------------------------------------

#[derive(Debug, Clone, PartialEq, Eq)]
pub struct AppMeta {
    pub app_id: String,
    pub name: String,
    pub summary: String,
    pub icon: Option<String>,
}

/// The directory metadata is cached in: `$XDG_CACHE_HOME/silverdeck`, else
/// `$HOME/.cache/silverdeck`, else `/tmp/silverdeck`.
pub open spec fn cache_dir_spec(xdg_cache: Option<Seq<char>>, home: Option<Seq<char>>) -> Seq<char> {
    let base = match xdg_cache {
        Some(x) => x,
        None => match home {
            Some(h) => join_path(h, ".cache"@),
            None => "/tmp"@,
        },
    };
    join_path(base, "silverdeck"@)
}

/// The metadata cache directory from the values of `XDG_CACHE_HOME` and
/// `HOME`.
pub fn cache_dir(xdg_cache: Option<&str>, home: Option<&str>) -> (r: String)
    ensures
        r@ == cache_dir_spec(
            match xdg_cache {
                Some(x) => Some(x@),
                None => None,
            },
            match home {
                Some(h) => Some(h@),
                None => None,
            },
        ),
{
    let base = match xdg_cache {
        Some(x) => owned(x),
        None => match home {
            Some(h) => join(h, ".cache"),
            None => owned("/tmp"),
        },
    };
    join(base.as_str(), "silverdeck")
}

/// The Flathub appstream endpoint of an app.
pub fn appstream_url(app_id: &str) -> (r: String)
    ensures
        r@ == "https://flathub.org/api/v2/appstream/"@ + app_id@,
{
    concat("https://flathub.org/api/v2/appstream/", app_id)
}

/// Where an app's appstream document is cached.
pub fn meta_cache_file(cache_dir: &str, app_id: &str) -> (r: String)
    ensures
        r@ == join_path(cache_dir@, app_id@ + ".meta.json"@),
{
    let name = concat(app_id, ".meta.json");
    join(cache_dir, name.as_str())
}

/// Where an app's icon is cached.
pub fn icon_cache_file(cache_dir: &str, app_id: &str) -> (r: String)
    ensures
        r@ == join_path(cache_dir@, app_id@ + ".icon.png"@),
{
    let name = concat(app_id, ".icon.png");
    join(cache_dir, name.as_str())
}

/// The metadata an appstream document gives an app: its `name` (else the
/// app id) and `summary` (else empty), without icon; and the icon URL when
/// the document has one.
pub open spec fn meta_spec(app_id: Seq<char>, doc: JsonValue) -> (Seq<char>, Seq<char>, Option<
    Seq<char>,
>) {
    (
        match str_field(doc, "name"@) {
            Some(n) => n,
            None => app_id,
        },
        match str_field(doc, "summary"@) {
            Some(s) => s,
            None => seq![],
        },
        str_field(doc, "icon"@),
    )
}

/// Read an app's metadata from its appstream document. The icon is left
/// unset; the URL to fetch it from comes second.
pub fn meta_from_json(app_id: &str, doc: &JsonValue) -> (r: (AppMeta, Option<String>))
    ensures
        r.0.app_id@ == app_id@,
        r.0.icon is None,
        (r.0.name@, r.0.summary@, opt_str(r.1)) == meta_spec(app_id@, *doc),
{
    let name = match doc.str_field("name") {
        Some(n) => owned(n),
        None => owned(app_id),
    };
    let summary = match doc.str_field("summary") {
        Some(s) => owned(s),
        None => String::new(),
    };
    let icon_url = match doc.str_field("icon") {
        Some(u) => Some(owned(u)),
        None => None,
    };
    (AppMeta { app_id: owned(app_id), name, summary, icon: None }, icon_url)
}

// --- Installed state / uninstall ---------------------------------------------

/// `s` with repeats of earlier items dropped.
pub open spec fn distinct(s: Seq<Seq<char>>) -> Seq<Seq<char>>
    decreases s.len(),
{
    if s.len() == 0 {
        seq![]
    } else {
        let prev = distinct(s.drop_last());
        if prev.contains(s.last()) {
            prev
        } else {
            prev.push(s.last())
        }
    }
}

/// The installed app ids in `flatpak list` output: each line trimmed, each
/// id once.
pub open spec fn installed_spec(out: Seq<char>) -> Seq<Seq<char>> {
    distinct(lines(out).map_values(|l: Seq<char>| trim(l)))
}

/// The installed app ids listed in `flatpak list --app --columns=application`
/// output (see [`installed_spec`]).
pub fn parse_installed(out: &str) -> (r: Vec<String>)
    ensures
        strings(r@) == installed_spec(out@),
{
    let ls = lines_str(out);
    let ghost items = lines(out@).map_values(|l: Seq<char>| trim(l));
    let mut ids: Vec<String> = Vec::new();
    let mut seen: Vec<Vec<char>> = Vec::new();
    let mut i: usize = 0;
    while i < ls.len()
        invariant
            i <= ls@.len() == items.len(),
            items == lines(out@).map_values(|l: Seq<char>| trim(l)),
            forall|k: int| 0 <= k < ls@.len() ==> #[trigger] ls@[k]@ == lines(out@)[k],
            strings(ids@) == distinct(items.take(i as int)),
            seen@.len() == ids@.len(),
            forall|k: int| 0 <= k < seen@.len() ==> #[trigger] seen@[k]@ == ids@[k]@,
        decreases ls@.len() - i,
    {
        assert(items.take(i + 1).drop_last() == items.take(i as int));
        let id = trim_chars(&ls[i]);
        assert(id@ == items[i as int]);
        let ghost prev = distinct(items.take(i as int));
        let mut found = false;
        let mut k: usize = 0;
        while k < seen.len()
            invariant
                k <= seen@.len() == ids@.len() == prev.len(),
                strings(ids@) == prev,
                forall|m: int| 0 <= m < seen@.len() ==> #[trigger] seen@[m]@ == ids@[m]@,
                found <==> exists|m: int| 0 <= m < k && prev[m] == id@,
            decreases seen@.len() - k,
        {
            if crate::text::chars_eq(&seen[k], &id) {
                assert(prev[k as int] == ids@[k as int]@);
                found = true;
            }
            k = k + 1;
        }
        assert(found == prev.contains(id@));
        if !found {
            ids.push(string_of(&id));
            seen.push(id);
            assert(strings(ids@) == prev.push(items[i as int]));
        }
        i = i + 1;
    }
    assert(items.take(i as int) == items);
    ids
}

/// `flatpak list --app --columns=application`.
pub open spec fn list_argv() -> Seq<Seq<char>> {
    seq!["flatpak"@, "list"@, "--app"@, "--columns=application"@]
}

/// `flatpak uninstall --system --noninteractive -y <app id>`.
pub open spec fn uninstall_argv(app_id: Seq<char>) -> Seq<Seq<char>> {
    seq!["flatpak"@, "uninstall"@, "--system"@, "--noninteractive"@, "-y"@, app_id]
}

/// `flatpak remote-add --if-not-exists --system flathub <repo file URL>`.
pub open spec fn remote_add_argv() -> Seq<Seq<char>> {
    seq![
        "flatpak"@,
        "remote-add"@,
        "--if-not-exists"@,
        "--system"@,
        FLATHUB_REMOTE@,
        "https://dl.flathub.org/repo/flathub.flatpakrepo"@,
    ]
}

/// The installed flatpak apps, as [`parse_installed`] reads the output of
/// `flatpak list --app --columns=application`; the command's error
/// otherwise.
pub fn installed_apps(runner: &mut dyn CommandRunner) -> (r: Result<Vec<String>, String>)
    ensures
        exists|res: Result<Seq<char>, Seq<char>>|
            #[trigger] old(runner).may_answer(seq![], list_argv(), res) && match res {
                Ok(out) => r matches Ok(v) && strings(v@) == installed_spec(out),
                Err(e) => r matches Err(m) && m@ == e,
            },
        forall|h: Seq<Seq<Seq<char>>>, a: Seq<Seq<char>>, x: Result<Seq<char>, Seq<char>>|
            #[trigger] final(runner).may_answer(h, a, x) == old(runner).may_answer(seq![list_argv()] + h, a, x),
{
    let argv: [&str; 4] = ["flatpak", "list", "--app", "--columns=application"];
    assert(strs(argv@) =~= list_argv());
    let res = runner.run(&argv);
    assert(old(runner).may_answer(seq![], list_argv(), answer_view(res)));
    match res {
        Ok(out) => Ok(parse_installed(out.as_str())),
        Err(e) => Err(e),
    }
}

/// Uninstall an app system-wide without prompting.
pub fn uninstall(runner: &mut dyn CommandRunner, app_id: &str) -> (r: Result<(), String>)
    ensures
        exists|res: Result<Seq<char>, Seq<char>>|
            #[trigger] old(runner).may_answer(seq![], uninstall_argv(app_id@), res) && effect_of(res, r),
        forall|h: Seq<Seq<Seq<char>>>, a: Seq<Seq<char>>, x: Result<Seq<char>, Seq<char>>|
            #[trigger] final(runner).may_answer(h, a, x) == old(runner).may_answer(seq![uninstall_argv(app_id@)] + h, a, x),
{
    let argv: [&str; 6] = ["flatpak", "uninstall", "--system", "--noninteractive", "-y", app_id];
    assert(strs(argv@) =~= uninstall_argv(app_id@));
    let res = runner.run(&argv);
    assert(old(runner).may_answer(seq![], uninstall_argv(app_id@), answer_view(res)));
    match res {
        Ok(_) => Ok(()),
        Err(e) => Err(e),
    }
}

/// Best-effort fallback if the firstboot unit hasn't added flathub yet.
pub fn ensure_flathub_remote(runner: &mut dyn CommandRunner) -> (r: Result<(), String>)
    ensures
        exists|res: Result<Seq<char>, Seq<char>>|
            #[trigger] old(runner).may_answer(seq![], remote_add_argv(), res) && effect_of(res, r),
        forall|h: Seq<Seq<Seq<char>>>, a: Seq<Seq<char>>, x: Result<Seq<char>, Seq<char>>|
            #[trigger] final(runner).may_answer(h, a, x) == old(runner).may_answer(seq![remote_add_argv()] + h, a, x),
{
    let argv: [&str; 6] = [
        "flatpak",
        "remote-add",
        "--if-not-exists",
        "--system",
        FLATHUB_REMOTE,
        "https://dl.flathub.org/repo/flathub.flatpakrepo",
    ];
    assert(strs(argv@) =~= remote_add_argv());
    let res = runner.run(&argv);
    assert(old(runner).may_answer(seq![], remote_add_argv(), answer_view(res)));
    match res {
        Ok(_) => Ok(()),
        Err(e) => Err(e),
    }
}

/// The flatpak arguments that install an app from flathub system-wide
/// without prompting.
pub open spec fn install_args_spec(app_id: Seq<char>) -> Seq<Seq<char>> {
    seq!["install"@, "--system"@, "--noninteractive"@, "-y"@, FLATHUB_REMOTE@, app_id]
}

/// The arguments of the `flatpak` install command (see [`install_args_spec`]).
pub fn install_args(app_id: &str) -> (r: Vec<String>)
    ensures
        strings(r@) == install_args_spec(app_id@),
{
    let r = vec![
        owned("install"),
        owned("--system"),
        owned("--noninteractive"),
        owned("-y"),
        owned(FLATHUB_REMOTE),
        owned(app_id),
    ];
    assert(strings(r@) =~= install_args_spec(app_id@));
    r
}

proof fn lemma_distinct(s: Seq<Seq<char>>)
    ensures
        distinct(s).no_duplicates(),
        forall|x: Seq<char>| distinct(s).contains(x) <==> s.contains(x),
    decreases s.len(),
{
    if s.len() > 0 {
        let d = s.drop_last();
        lemma_distinct(d);
        let prev = distinct(d);
        let x = s.last();
        assert forall|y: Seq<char>| distinct(s).contains(y) <==> s.contains(y) by {
            if s.contains(y) {
                let j = choose|j: int| 0 <= j < s.len() && s[j] == y;
                if j < s.len() - 1 {
                    assert(d[j] == s[j]);
                    assert(d.contains(y));
                    assert(prev.contains(y));
                    let k = choose|k: int| 0 <= k < prev.len() && prev[k] == y;
                    if !prev.contains(x) {
                        assert(distinct(s)[k] == prev[k]);
                    }
                } else if !prev.contains(x) {
                    assert(distinct(s)[prev.len() as int] == x);
                }
            }
            if distinct(s).contains(y) {
                let k = choose|k: int| 0 <= k < distinct(s).len() && distinct(s)[k] == y;
                if k < prev.len() {
                    assert(distinct(s)[k] == prev[k]);
                    assert(prev.contains(y));
                    assert(d.contains(y));
                    let j = choose|j: int| 0 <= j < d.len() && d[j] == y;
                    assert(s[j] == d[j]);
                } else {
                    assert(s[s.len() - 1] == x);
                }
            }
        }
        if !prev.contains(x) {
            let out = prev.push(x);
            assert forall|i: int, j: int| 0 <= i < out.len() && 0 <= j < out.len() && i != j implies out[i]
                != out[j] by {
                if i == out.len() - 1 {
                    assert(out[j] == prev[j]);
                } else if j == out.len() - 1 {
                    assert(out[i] == prev[i]);
                } else {
                    assert(out[i] == prev[i]);
                    assert(out[j] == prev[j]);
                }
            }
        }
    }
}

/// The installed list names each app once, and names exactly the (trimmed)
/// lines of the `flatpak list` output.
pub proof fn installed_apps_law(out: Seq<char>)
    ensures
        installed_spec(out).no_duplicates(),
        forall|id: Seq<char>| installed_spec(out).contains(id) <==> lines(out).map_values(
            |l: Seq<char>| trim(l),
        ).contains(id),
{
    lemma_distinct(lines(out).map_values(|l: Seq<char>| trim(l)));
}

// --- Progress scraping ----------------------------------------------------------

/// The pattern of a flatpak progress figure: one to three digits and `%`.
pub const PERCENT_PATTERN: &'static str = r"(\d{1,3})%";

/// What `regex::Regex::new(pattern)` followed by `captures_iter(text)`
/// yields: for each successive match, the text of capture group 1 (if it
/// took part); None when the pattern does not compile.
pub uninterp spec fn regex_group1(pattern: Seq<char>, text: Seq<char>) -> Option<Seq<Option<Seq<char>>>>;

pub open spec fn caps_view(c: Seq<Option<String>>) -> Seq<Option<Seq<char>>> {
    c.map_values(|o: Option<String>| opt_str(o))
}

/// `regex::Regex::new(pattern)`, then group 1 of each match of
/// `captures_iter(text)`; its result is named by [`regex_group1`].
#[verifier::external_body]
fn regex_group1_of(pattern: &str, text: &str) -> (r: Option<Vec<Option<String>>>)
    ensures
        match r {
            Some(c) => regex_group1(pattern@, text@) == Some(caps_view(c@)),
            None => regex_group1(pattern@, text@) is None,
        },
{
    match regex::Regex::new(pattern) {
        Ok(re) => Some(
            re.captures_iter(text).map(|c| c.get(1).map(|m| m.as_str().to_owned())).collect(),
        ),
        Err(_) => None,
    }
}

/// The last capture that reads as a `u8` of at most 100.
pub open spec fn last_percent_spec(caps: Seq<Option<Seq<char>>>) -> Option<u8>
    decreases caps.len(),
{
    if caps.len() == 0 {
        None
    } else {
        match caps.last() {
            Some(t) => match parse_u8_spec(t) {
                Some(p) => if p <= 100 {
                    Some(p)
                } else {
                    last_percent_spec(caps.drop_last())
                },
                None => last_percent_spec(caps.drop_last()),
            },
            None => last_percent_spec(caps.drop_last()),
        }
    }
}

/// The last percentage (0..=100) among the captures of a progress scan.
pub fn last_percent(caps: &Vec<Option<String>>) -> (r: Option<u8>)
    ensures
        r == last_percent_spec(caps_view(caps@)),
{
    let ghost cv = caps_view(caps@);
    let mut k = caps.len();
    assert(cv.take(k as int) == cv);
    while k > 0
        invariant
            k <= caps@.len() == cv.len(),
            cv == caps_view(caps@),
            last_percent_spec(cv) == last_percent_spec(cv.take(k as int)),
        decreases k,
    {
        assert(cv.take(k as int).drop_last() == cv.take(k - 1));
        assert(cv.take(k as int).last() == opt_str(caps@[k - 1]));
        match &caps[k - 1] {
            Some(t) => {
                let c = chars_of(t.as_str());
                match parse_u8(&c) {
                    Some(p) => {
                        if p <= 100 {
                            return Some(p);
                        }
                    },
                    None => {},
                }
            },
            None => {},
        }
        k = k - 1;
    }
    None
}

/// Last "NN%" (at most 100) in a chunk of flatpak progress output.
pub fn latest_percent(text: &str) -> (r: Option<u8>)
    ensures
        r == match regex_group1(PERCENT_PATTERN@, text@) {
            Some(c) => last_percent_spec(c),
            None => None,
        },
{
    match regex_group1_of(PERCENT_PATTERN, text) {
        Some(caps) => last_percent(&caps),
        None => None,
    }
}

/// The last line (trimmed) of `ls` whose lowercase form starts with
/// `error`, searching from the end.
pub open spec fn error_line_in(ls: Seq<Seq<char>>) -> Option<Seq<char>>
    decreases ls.len(),
{
    if ls.len() == 0 {
        None
    } else if starts_with(lowercase(trim(ls.last())), "error"@) {
        Some(trim(ls.last()))
    } else {
        error_line_in(ls.drop_last())
    }
}

/// The last error line of flatpak's output (see [`error_line_in`]).
pub fn last_error_line(tail: &str) -> (r: Option<String>)
    ensures
        opt_str(r) == error_line_in(lines(tail@)),
{
    let ls = lines_str(tail);
    let ghost all = lines(tail@);
    let mut k = ls.len();
    assert(all.take(k as int) == all);
    while k > 0
        invariant
            k <= ls@.len() == all.len(),
            all == lines(tail@),
            forall|i: int| 0 <= i < ls@.len() ==> #[trigger] ls@[i]@ == all[i],
            error_line_in(all) == error_line_in(all.take(k as int)),
        decreases k,
    {
        assert(all.take(k as int).drop_last() == all.take(k - 1));
        assert(all.take(k as int).last() == ls@[k - 1]@);
        let line = trim_chars(&ls[k - 1]);
        let text = string_of(&line);
        let lower = to_lowercase(text.as_str());
        let lc = chars_of(lower.as_str());
        if crate::text::starts_with_str(&lc, "error") {
            return Some(text);
        }
        k = k - 1;
    }
    None
}

// --- Install progress ---------------------------------------------------------------

#[derive(Debug, Clone, PartialEq, Eq)]
pub enum InstallEvent {
    /// 0..=100, monotone per install.
    Progress(u8),
    Done { success: bool, message: String },
}

/// UTF-8 length of a character.
pub open spec fn utf8_len(c: char) -> nat {
    if (c as nat) < 0x80 {
        1
    } else if (c as nat) < 0x800 {
        2
    } else if (c as nat) < 0x10000 {
        3
    } else {
        4
    }
}

/// UTF-8 length of a string.
pub open spec fn byte_len(s: Seq<char>) -> nat
    decreases s.len(),
{
    if s.len() == 0 {
        0
    } else {
        byte_len(s.drop_last()) + utf8_len(s.last())
    }
}

/// How many leading characters of `s` take exactly `bytes` bytes; None when
/// `bytes` falls inside a character.
pub open spec fn chars_in_bytes(s: Seq<char>, bytes: int) -> Option<nat>
    decreases s.len(),
{
    if bytes == 0 {
        Some(0)
    } else if bytes < 0 || s.len() == 0 {
        None
    } else {
        match chars_in_bytes(s.skip(1), bytes - utf8_len(s[0])) {
            Some(n) => Some(n + 1),
            None => None,
        }
    }
}

/// Bytes the output tail may reach before it is cut.
pub open spec fn tail_limit() -> nat {
    8192
}

/// Bytes the output tail keeps when it is cut.
pub open spec fn tail_keep() -> nat {
    4096
}

/// Whether appending `text` to the tail leaves a cut (if one is due) on a
/// character boundary. Cutting inside a character is what `String::drain`
/// refuses by panicking.
pub open spec fn cut_ok(tail: Seq<char>, text: Seq<char>) -> bool {
    let s = tail + text;
    byte_len(s) > tail_limit() ==> chars_in_bytes(s, byte_len(s) - tail_keep()) is Some
}

/// The tail after appending `text`: when it exceeds 8192 bytes, only its
/// last 4096 bytes are kept.
pub open spec fn next_tail(tail: Seq<char>, text: Seq<char>) -> Seq<char> {
    let s = tail + text;
    if byte_len(s) > tail_limit() {
        s.skip(chars_in_bytes(s, byte_len(s) - tail_keep()).unwrap() as int)
    } else {
        s
    }
}

/// Decides what an install reports while its output streams in: progress
/// only when the percentage goes up, and at the end a message built from
/// the last few KiB of output.
pub struct InstallWatch {
    tail: Vec<char>,
    tail_bytes: usize,
    last_progress: u8,
}

fn utf8_width(c: char) -> (r: usize)
    ensures
        r == utf8_len(c),
{
    let v = c as u32;
    if v < 0x80 {
        1
    } else if v < 0x800 {
        2
    } else if v < 0x10000 {
        3
    } else {
        4
    }
}

proof fn lemma_byte_len_append(a: Seq<char>, b: Seq<char>)
    ensures
        byte_len(a + b) == byte_len(a) + byte_len(b),
    decreases b.len(),
{
    if b.len() > 0 {
        assert((a + b).drop_last() == a + b.drop_last());
        lemma_byte_len_append(a, b.drop_last());
    } else {
        assert(a + b == a);
    }
}

proof fn lemma_chars_in_bytes_sound(s: Seq<char>, bytes: int, n: nat)
    requires
        chars_in_bytes(s, bytes) == Some(n),
    ensures
        n <= s.len(),
        byte_len(s.take(n as int)) == bytes,
    decreases s.len(),
{
    if bytes == 0 {
        assert(s.take(0).len() == 0);
    } else {
        lemma_chars_in_bytes_sound(s.skip(1), bytes - utf8_len(s[0]), (n - 1) as nat);
        lemma_byte_len_first(s.take(n as int));
        assert(s.take(n as int).skip(1) == s.skip(1).take(n - 1));
    }
}

proof fn lemma_byte_len_first(s: Seq<char>)
    requires
        s.len() > 0,
    ensures
        byte_len(s) == utf8_len(s[0]) + byte_len(s.skip(1)),
    decreases s.len(),
{
    assert(byte_len(s) == byte_len(s.drop_last()) + utf8_len(s.last()));
    if s.len() > 1 {
        let d = s.drop_last();
        lemma_byte_len_first(d);
        assert(d[0] == s[0]);
        let t = s.skip(1);
        assert(t.drop_last() == d.skip(1));
        assert(t.last() == s.last());
        assert(byte_len(t) == byte_len(t.drop_last()) + utf8_len(t.last()));
    } else {
        assert(s.drop_last().len() == 0);
        assert(byte_len(s.drop_last()) == 0);
        assert(s.skip(1).len() == 0);
        assert(byte_len(s.skip(1)) == 0);
        assert(s.last() == s[0]);
    }
}

/// Bytes of the characters of `v` from `from` on.
fn bytes_from(v: &Vec<char>, from: usize) -> (r: Option<usize>)
    requires
        from <= v@.len(),
    ensures
        match r {
            Some(b) => b == byte_len(v@.skip(from as int)),
            None => byte_len(v@.skip(from as int)) > usize::MAX,
        },
{
    let mut total: usize = 0;
    let mut k = v.len();
    assert(v@.skip(k as int).len() == 0);
    while k > from
        invariant
            from <= k <= v@.len(),
            total == byte_len(v@.skip(k as int)),
        decreases k - from,
    {
        proof {
            lemma_byte_len_first(v@.skip(k - 1));
            assert(v@.skip(k - 1).skip(1) == v@.skip(k as int));
        }
        let w = utf8_width(v[k - 1]);
        if total > usize::MAX - w {
            proof {
                lemma_byte_len_split(v@.skip(from as int), (k - 1 - from) as nat);
                assert(v@.skip(from as int).skip(k - 1 - from) == v@.skip(k - 1));
            }
            return None;
        }
        total = total + w;
        k = k - 1;
    }
    Some(total)
}

proof fn lemma_byte_len_split(s: Seq<char>, n: nat)
    requires
        n <= s.len(),
    ensures
        byte_len(s) == byte_len(s.take(n as int)) + byte_len(s.skip(n as int)),
{
    assert(s == s.take(n as int) + s.skip(n as int));
    lemma_byte_len_append(s.take(n as int), s.skip(n as int));
}

impl InstallWatch {
    pub closed spec fn tail_spec(&self) -> Seq<char> {
        self.tail@
    }

    pub closed spec fn last_spec(&self) -> u8 {
        self.last_progress
    }

    /// The tail is at most 8192 bytes, and its byte count is tracked.
    pub closed spec fn wf(&self) -> bool {
        self.tail_bytes == byte_len(self.tail@) && byte_len(self.tail@) <= tail_limit()
    }

    /// A watch for a new install: no output, no progress.
    pub fn new() -> (r: Self)
        ensures
            r.wf(),
            r.tail_spec() == Seq::<char>::empty(),
            r.last_spec() == 0,
    {
        InstallWatch { tail: Vec::new(), tail_bytes: 0, last_progress: 0 }
    }

    /// The output kept for the final message.
    pub fn tail(&self) -> (r: String)
        ensures
            r@ == self.tail_spec(),
    {
        string_of(&self.tail)
    }

    /// The highest progress reported so far.
    pub fn last_progress(&self) -> (r: u8)
        ensures
            r == self.last_spec(),
    {
        self.last_progress
    }

    /// Whether [`InstallWatch::take_chunk`] accepts `text`: appending it
    /// leaves any cut of the tail on a character boundary (the install
    /// panics otherwise).
    pub fn can_take(&self, text: &str) -> (r: bool)
        requires
            self.wf(),
            byte_len(text@) < usize::MAX - 8192,
        ensures
            r == cut_ok(self.tail_spec(), text@),
    {
        let t = chars_of(text);
        let mut all: Vec<char> = self.tail.clone();
        let mut tc = t;
        all.append(&mut tc);
        proof {
            lemma_byte_len_split(all@, self.tail@.len());
            assert(all@.take(self.tail@.len() as int) == self.tail@);
            assert(all@.skip(self.tail@.len() as int) == text@);
            assert(all@.skip(0) == all@);
        }
        proof {
            lemma_byte_len_append(self.tail@, text@);
        }
        match bytes_from(&all, 0) {
            None => false,
            Some(total) => {
                if total <= 8192 {
                    return true;
                }
                let want = total - 4096;
                chars_for(&all, want).is_some()
            },
        }
    }

    /// Take a chunk of install output: keep it in the tail (cut to its last
    /// 4096 bytes once it passes 8192), and return the chunk's last
    /// percentage when it is higher than any reported before.
    pub fn take_chunk(&mut self, text: &str) -> (r: Option<u8>)
        requires
            old(self).wf(),
            cut_ok(old(self).tail_spec(), text@),
            byte_len(text@) < usize::MAX - 8192,
        ensures
            final(self).wf(),
            final(self).tail_spec() == next_tail(old(self).tail_spec(), text@),
            ({
                let p = match regex_group1(PERCENT_PATTERN@, text@) {
                    Some(c) => last_percent_spec(c),
                    None => None,
                };
                &&& r == match p {
                    Some(x) => if x > old(self).last_spec() {
                        Some(x)
                    } else {
                        None
                    },
                    None => None,
                }
                &&& final(self).last_spec() == match r {
                    Some(x) => x,
                    None => old(self).last_spec(),
                }
            }),
    {
        let ghost old_tail = self.tail@;
        let t = chars_of(text);
        let added = match bytes_from(&t, 0) {
            Some(b) => b,
            None => {
                assert(t@.skip(0) == t@);
                0
            },
        };
        assert(t@.skip(0) == t@);
        let mut tc = t;
        self.tail.append(&mut tc);
        proof {
            lemma_byte_len_append(old_tail, text@);
        }
        let total = self.tail_bytes + added;
        if total > 8192 {
            let want = total - 4096;
            let cut = chars_for(&self.tail, want).unwrap();
            let kept = slice_tail(&self.tail, cut);
            proof {
                lemma_byte_len_split(self.tail@, cut as nat);
                lemma_chars_in_bytes_sound(self.tail@, want as int, cut as nat);
            }
            self.tail = kept;
            self.tail_bytes = 4096;
        } else {
            self.tail_bytes = total;
        }
        let pct = latest_percent(text);
        match pct {
            Some(p) => {
                if p > self.last_progress {
                    self.last_progress = p;
                    Some(p)
                } else {
                    None
                }
            },
            None => None,
        }
    }

    /// The final event of an install: success says `<app> installed`; a
    /// failure reports the last error line of the output, or else
    /// `<app>: install failed`.
    pub fn finish(&self, app_id: &str, success: bool) -> (r: InstallEvent)
        ensures
            r matches InstallEvent::Done { success: s, message } && s == success && message@ == if success {
                app_id@ + " installed"@
            } else {
                match error_line_in(lines(self.tail_spec())) {
                    Some(l) => l,
                    None => app_id@ + ": install failed"@,
                }
            },
    {
        let message = if success {
            concat(app_id, " installed")
        } else {
            let t = string_of(&self.tail);
            match last_error_line(t.as_str()) {
                Some(l) => l,
                None => concat(app_id, ": install failed"),
            }
        };
        InstallEvent::Done { success, message }
    }
}

/// The number of leading characters of `v` that take exactly `bytes` bytes.
fn chars_for(v: &Vec<char>, bytes: usize) -> (r: Option<usize>)
    ensures
        match r {
            Some(n) => n <= v@.len() && chars_in_bytes(v@, bytes as int) == Some(n as nat),
            None => chars_in_bytes(v@, bytes as int) is None,
        },
{
    let mut used: usize = 0;
    let mut k: usize = 0;
    assert(v@.skip(0) == v@);
    while k < v.len() && used < bytes
        invariant
            k <= v@.len(),
            used <= bytes,
            chars_in_bytes(v@, bytes as int) == match chars_in_bytes(v@.skip(k as int), bytes - used) {
                Some(n) => Some((n + k) as nat),
                None => None,
            },
        decreases v@.len() - k,
    {
        let w = utf8_width(v[k]);
        proof {
            assert(v@.skip(k as int)[0] == v@[k as int]);
            assert(v@.skip(k as int).skip(1) == v@.skip(k + 1));
        }
        if w > bytes - used {
            proof {
                lemma_chars_in_bytes_none(v@.skip(k + 1), bytes - used - w);
            }
            return None;
        }
        used = used + w;
        k = k + 1;
    }
    if used == bytes {
        Some(k)
    } else {
        assert(v@.skip(k as int).len() == 0);
        None
    }
}

proof fn lemma_chars_in_bytes_none(s: Seq<char>, bytes: int)
    requires
        bytes < 0,
    ensures
        chars_in_bytes(s, bytes) is None,
{
}

/// Characters `v[from..]`.
fn slice_tail(v: &Vec<char>, from: usize) -> (r: Vec<char>)
    requires
        from <= v@.len(),
    ensures
        r@ == v@.skip(from as int),
{
    crate::text::slice_chars(v, from, v.len())
}

} // verus!
