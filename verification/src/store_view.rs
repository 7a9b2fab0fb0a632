//! The console's Store tab: the curated catalog with install/uninstall and
//! install progress.
use vstd::prelude::*;

use crate::input::NavEvent;
use crate::library::clamp;
use crate::paths::last_index_of;
use crate::shell::PendingAction;
use crate::store::{catalog_apps, AppMeta, InstallEvent, StoreCatalog, StoreCategory};
use crate::system::strings;
use crate::text::{chars_of, concat, decimal, decimal_string, opt_str, owned, slice_chars, string_of};

verus! {

broadcast use vstd::string::group_string_axioms;

/// Catalog rows on screen at once.
pub const VISIBLE: usize = 8;

pub struct StoreApp {
    pub app_id: String,
    pub category: String,
    pub name: String,
    pub summary: String,
    pub icon: Option<String>,
}

/// A catalog row as plain values: (app id, category, name, summary).
pub open spec fn app_view(a: StoreApp) -> (Seq<char>, Seq<char>, Seq<char>, Seq<char>) {
    (a.app_id@, a.category@, a.name@, a.summary@)
}

pub open spec fn app_views(s: Seq<StoreApp>) -> Seq<(Seq<char>, Seq<char>, Seq<char>, Seq<char>)> {
    s.map_values(|a: StoreApp| app_view(a))
}

/// Whether `id` occurs in `list`.
pub open spec fn listed(list: Seq<String>, id: Seq<char>) -> bool {
    exists|i: int| 0 <= i < list.len() && list[i]@ == id
}

/// Index of the first row at or after `i` for `id`, or -1.
pub open spec fn app_index_from(apps: Seq<StoreApp>, id: Seq<char>, i: int) -> int
    decreases apps.len() - i,
{
    if i < 0 || i >= apps.len() {
        -1
    } else if apps[i].app_id@ == id {
        i
    } else {
        app_index_from(apps, id, i + 1)
    }
}

/// The progress recorded for `id`, if it is installing.
pub open spec fn progress_of(list: Seq<(String, u8)>, id: Seq<char>) -> Option<u8>
    decreases list.len(),
{
    if list.len() == 0 {
        None
    } else if list.last().0@ == id {
        Some(list.last().1)
    } else {
        progress_of(list.drop_last(), id)
    }
}

pub struct StoreState {
    pub apps: Vec<StoreApp>,
    pub selected: usize,
    /// The installed app ids.
    pub installed: Vec<String>,
    /// app id and last seen progress percent of each install under way.
    pub installing: Vec<(String, u8)>,
    pub load_error: Option<String>,
}

impl Default for StoreState {
    fn default() -> (r: Self)
        ensures
            r.apps@.len() == 0,
            r.selected == 0,
            r.installed@.len() == 0,
            r.installing@.len() == 0,
            r.load_error is None,
    {
        StoreState {
            apps: Vec::new(),
            selected: 0,
            installed: Vec::new(),
            installing: Vec::new(),
            load_error: None,
        }
    }
}

/// The name shown until Flathub metadata arrives: the last dot-separated
/// part of the app id.
pub open spec fn placeholder_name(app_id: Seq<char>) -> Seq<char> {
    app_id.skip(last_index_of(app_id, '.') + 1)
}

/// The catalog rows of one category, each with its placeholder name.
pub open spec fn category_rows(c: StoreCategory) -> Seq<(Seq<char>, Seq<char>, Seq<char>, Seq<char>)> {
    Seq::new(
        c.apps@.len(),
        |i: int| (c.apps@[i]@, c.name@, placeholder_name(c.apps@[i]@), Seq::<char>::empty()),
    )
}

/// The catalog rows, category by category.
pub open spec fn catalog_rows(cats: Seq<StoreCategory>) -> Seq<(Seq<char>, Seq<char>, Seq<char>, Seq<char>)>
    decreases cats.len(),
{
    if cats.len() == 0 {
        seq![]
    } else {
        catalog_rows(cats.drop_last()) + category_rows(cats.last())
    }
}

/// The placeholder name of an app id (see [`placeholder_name`]).
pub fn placeholder(app_id: &str) -> (r: String)
    ensures
        r@ == placeholder_name(app_id@),
{
    let v = chars_of(app_id);
    let n = v.len();
    let found = crate::paths::last_index_of_char(&v, '.');
    match found {
        Some(k) => {
            assert(k < n);
            let s = slice_chars(&v, k + 1, n);
            string_of(&s)
        },
        None => {
            assert(v@.skip(0) == v@);
            owned(app_id)
        },
    }
}

/// The catalog rows: every app of every category, with placeholder names,
/// no summary and no icon.
pub fn apps_from_catalog(catalog: &StoreCatalog) -> (r: Vec<StoreApp>)
    ensures
        app_views(r@) == catalog_rows(catalog.categories@),
        forall|i: int| 0 <= i < r@.len() ==> (#[trigger] r@[i]).icon is None,
{
    let cats = &catalog.categories;
    let mut out: Vec<StoreApp> = Vec::new();
    let mut i: usize = 0;
    while i < cats.len()
        invariant
            i <= cats@.len(),
            app_views(out@) == catalog_rows(cats@.take(i as int)),
            forall|k: int| 0 <= k < out@.len() ==> (#[trigger] out@[k]).icon is None,
        decreases cats@.len() - i,
    {
        assert(cats@.take(i + 1).drop_last() == cats@.take(i as int));
        let c = &cats[i];
        let ghost start = app_views(out@);
        let ghost rows = category_rows(*c);
        let mut k: usize = 0;
        while k < c.apps.len()
            invariant
                k <= c.apps@.len(),
                rows == category_rows(*c),
                app_views(out@) == start + rows.take(k as int),
                forall|m: int| 0 <= m < out@.len() ==> (#[trigger] out@[m]).icon is None,
            decreases c.apps@.len() - k,
        {
            let id = c.apps[k].as_str();
            let app = StoreApp {
                app_id: owned(id),
                category: c.name.clone(),
                name: placeholder(id),
                summary: String::new(),
                icon: None,
            };
            let ghost before = app_views(out@);
            let ghost av = app_view(app);
            out.push(app);
            assert(app_views(out@) == before.push(av));
            assert(rows.take(k + 1) == rows.take(k as int).push(rows[k as int]));
            k = k + 1;
        }
        assert(rows.take(k as int) == rows);
        i = i + 1;
    }
    assert(cats@.take(i as int) == cats@);
    out
}

/// What a Store event asks the shell to do.
pub enum StoreAction {
    Nothing,
    Toast(String),
    /// Ask before running this action.
    Confirm(String, PendingAction),
}

/// `id` is in the installed list.
fn is_installed(list: &Vec<String>, id: &str) -> (r: bool)
    ensures
        r == listed(list@, id@),
{
    let mut i: usize = 0;
    while i < list.len()
        invariant
            i <= list@.len(),
            forall|k: int| 0 <= k < i ==> list@[k]@ != id@,
        decreases list@.len() - i,
    {
        let c = chars_of(list[i].as_str());
        if crate::text::is_str(&c, id) {
            return true;
        }
        i = i + 1;
    }
    false
}

/// The progress recorded for `id`.
fn progress(list: &Vec<(String, u8)>, id: &str) -> (r: Option<u8>)
    ensures
        r == progress_of(list@, id@),
{
    let mut k = list.len();
    assert(list@.take(k as int) == list@);
    while k > 0
        invariant
            k <= list@.len(),
            progress_of(list@, id@) == progress_of(list@.take(k as int), id@),
        decreases k,
    {
        assert(list@.take(k as int).drop_last() == list@.take(k - 1));
        let c = chars_of(list[k - 1].0.as_str());
        if crate::text::is_str(&c, id) {
            return Some(list[k - 1].1);
        }
        k = k - 1;
    }
    None
}

impl StoreState {
    /// `post` is `self` with the progress of `id` set to `p` (`None`:
    /// forgotten), everything else unchanged.
    pub open spec fn with_progress(&self, post: StoreState, id: Seq<char>, p: Option<u8>) -> bool {
        &&& forall|x: Seq<char>| #[trigger] progress_of(post.installing@, x) == if x == id {
            p
        } else {
            progress_of(self.installing@, x)
        }
        &&& post.apps == self.apps
        &&& post.selected == self.selected
        &&& post.installed == self.installed
        &&& post.load_error == self.load_error
    }

    /// Move the selection by `delta` rows, clamped to the catalog.
    pub fn move_selection(&mut self, delta: isize)
        ensures
            final(self).selected == if old(self).apps@.len() == 0 {
                old(self).selected as int
            } else {
                clamp(old(self).selected + delta, 0, old(self).apps@.len() - 1)
            },
            final(self).apps == old(self).apps,
            final(self).installed == old(self).installed,
            final(self).installing == old(self).installing,
            final(self).load_error == old(self).load_error,
    {
        let count = self.apps.len();
        if count == 0 {
            return;
        }
        let next: i128 = self.selected as i128 + delta as i128;
        let hi: i128 = (count - 1) as i128;
        self.selected = if next < 0 {
            0
        } else if next > hi {
            count - 1
        } else {
            next as usize
        };
    }

    /// What a navigation event does on the Store tab: `post` and `r` are
    /// the state and action after `event` on `self`. Up/Down move the
    /// cursor, Confirm asks to install the app under it (or says it is
    /// installed already), Menu asks to uninstall an installed app; only the
    /// cursor ever changes.
    pub open spec fn nav_step(&self, event: NavEvent, post: StoreState, r: StoreAction) -> bool {
        &&& post.apps == self.apps
        &&& post.installed == self.installed
        &&& post.installing == self.installing
        &&& post.load_error == self.load_error
        &&& {
            let apps = self.apps@;
            let sel = self.selected as int;
            match event {
                NavEvent::Up | NavEvent::Down => r is Nothing && post.selected == if apps.len()
                    == 0 {
                    sel
                } else {
                    clamp(
                        sel + if event == NavEvent::Up {
                            -1int
                        } else {
                            1int
                        },
                        0,
                        apps.len() - 1,
                    )
                },
                NavEvent::Confirm => post.selected == sel && if sel >= apps.len() {
                    r is Nothing
                } else {
                    let id = apps[sel].app_id@;
                    let name = apps[sel].name@;
                    if progress_of(self.installing@, id) is Some {
                        r is Nothing
                    } else if listed(self.installed@, id) {
                        r matches StoreAction::Toast(m) && m@ == name + " is already installed"@
                    } else {
                        r matches StoreAction::Confirm(t, a) && t@ == "Install "@ + name + "?"@
                            && (a matches PendingAction::Install(x) && x@ == id)
                    }
                },
                NavEvent::Menu => post.selected == sel && if sel < apps.len() && listed(
                    self.installed@,
                    apps[sel].app_id@,
                ) && progress_of(self.installing@, apps[sel].app_id@) is None {
                    r matches StoreAction::Confirm(t, a) && t@ == "Uninstall "@ + apps[sel].name@
                        + "?"@ && (a matches PendingAction::Uninstall(x) && x@ == apps[sel].app_id@)
                } else {
                    r is Nothing
                },
                _ => r is Nothing && post.selected == sel,
            }
        }
    }

    /// Handle a navigation event on the Store tab (see `nav_step`).
    pub fn handle_nav(&mut self, event: NavEvent) -> (r: StoreAction)
        ensures
            old(self).nav_step(event, *final(self), r),
    {
        match event {
            NavEvent::Up => {
                self.move_selection(-1);
                StoreAction::Nothing
            },
            NavEvent::Down => {
                self.move_selection(1);
                StoreAction::Nothing
            },
            NavEvent::Confirm => {
                if self.selected >= self.apps.len() {
                    return StoreAction::Nothing;
                }
                let app = &self.apps[self.selected];
                let id = app.app_id.as_str();
                if progress(&self.installing, id).is_some() {
                    return StoreAction::Nothing;
                }
                if is_installed(&self.installed, id) {
                    return StoreAction::Toast(concat(app.name.as_str(), " is already installed"));
                }
                let mut title = concat("Install ", app.name.as_str());
                title.append("?");
                StoreAction::Confirm(title, PendingAction::Install(owned(id)))
            },
            NavEvent::Menu => {
                if self.selected >= self.apps.len() {
                    return StoreAction::Nothing;
                }
                let app = &self.apps[self.selected];
                let id = app.app_id.as_str();
                if is_installed(&self.installed, id) && progress(&self.installing, id).is_none() {
                    let mut title = concat("Uninstall ", app.name.as_str());
                    title.append("?");
                    StoreAction::Confirm(title, PendingAction::Uninstall(owned(id)))
                } else {
                    StoreAction::Nothing
                }
            },
            _ => StoreAction::Nothing,
        }
    }

    /// Record an install's progress (an install starts at 0).
    pub fn set_progress(&mut self, app_id: &str, percent: u8)
        ensures
            old(self).with_progress(*final(self), app_id@, Some(percent)),
    {
        self.installing.push((owned(app_id), percent));
        assert(self.installing@.drop_last() == old(self).installing@);
    }

    /// Forget an install's progress.
    pub fn clear_progress(&mut self, app_id: &str)
        ensures
            old(self).with_progress(*final(self), app_id@, None),
    {
        let ghost old_list = self.installing@;
        let mut kept: Vec<(String, u8)> = Vec::new();
        let mut i: usize = 0;
        while i < self.installing.len()
            invariant
                i <= self.installing@.len(),
                self.installing@ == old_list,
                forall|id: Seq<char>| #[trigger] progress_of(kept@, id) == if id == app_id@ {
                    None
                } else {
                    progress_of(old_list.take(i as int), id)
                },
            decreases self.installing@.len() - i,
        {
            let ghost e = old_list[i as int];
            let ghost pre = kept@;
            assert(old_list.take(i + 1).drop_last() == old_list.take(i as int));
            assert(old_list.take(i + 1).last() == e);
            let c = chars_of(self.installing[i].0.as_str());
            if !crate::text::is_str(&c, app_id) {
                let entry = (self.installing[i].0.clone(), self.installing[i].1);
                kept.push(entry);
                assert(kept@.drop_last() == pre);
                assert forall|id: Seq<char>| #[trigger] progress_of(kept@, id) == if id == app_id@ {
                    None
                } else {
                    progress_of(old_list.take(i + 1), id)
                } by {
                    assert(progress_of(pre, id) == if id == app_id@ {
                        None
                    } else {
                        progress_of(old_list.take(i as int), id)
                    });
                }
            } else {
                assert forall|id: Seq<char>| #[trigger] progress_of(kept@, id) == if id == app_id@ {
                    None
                } else {
                    progress_of(old_list.take(i + 1), id)
                } by {
                    assert(progress_of(pre, id) == if id == app_id@ {
                        None
                    } else {
                        progress_of(old_list.take(i as int), id)
                    });
                }
            }
            i = i + 1;
        }
        assert(old_list.take(i as int) == old_list);
        self.installing = kept;
    }

    /// Mark an app installed (once).
    pub fn mark_installed(&mut self, app_id: &str)
        ensures
            forall|id: Seq<char>| #[trigger] listed(final(self).installed@, id) == (id == app_id@
                || listed(old(self).installed@, id)),
            final(self).apps == old(self).apps,
            final(self).selected == old(self).selected,
            final(self).installing == old(self).installing,
            final(self).load_error == old(self).load_error,
    {
        if !is_installed(&self.installed, app_id) {
            self.installed.push(owned(app_id));
            assert forall|id: Seq<char>| #[trigger] listed(self.installed@, id) == (id == app_id@
                || listed(old(self).installed@, id)) by {
                if listed(old(self).installed@, id) {
                    let k = choose|k: int| 0 <= k < old(self).installed@.len() && old(self).installed@[k]@ == id;
                    assert(self.installed@[k] == old(self).installed@[k]);
                }
                if id == app_id@ {
                    assert(self.installed@[self.installed@.len() - 1]@ == id);
                }
            }
        }
    }

    /// Mark an app no longer installed.
    pub fn mark_removed(&mut self, app_id: &str)
        ensures
            forall|id: Seq<char>| #[trigger] listed(final(self).installed@, id) == (id != app_id@
                && listed(old(self).installed@, id)),
            final(self).apps == old(self).apps,
            final(self).selected == old(self).selected,
            final(self).installing == old(self).installing,
            final(self).load_error == old(self).load_error,
    {
        let ghost old_list = self.installed@;
        let mut kept: Vec<String> = Vec::new();
        let mut i: usize = 0;
        while i < self.installed.len()
            invariant
                i <= self.installed@.len(),
                self.installed@ == old_list,
                forall|id: Seq<char>| #[trigger] listed(kept@, id) == (id != app_id@ && exists|k: int|
                    0 <= k < i && old_list[k]@ == id),
            decreases self.installed@.len() - i,
        {
            let c = chars_of(self.installed[i].as_str());
            if !crate::text::is_str(&c, app_id) {
                let s = self.installed[i].clone();
                let ghost before = kept@;
                kept.push(s);
                assert forall|id: Seq<char>| #[trigger] listed(kept@, id) == (id != app_id@ && exists|k: int|
                    0 <= k < i + 1 && old_list[k]@ == id) by {
                    if listed(kept@, id) {
                        let m = choose|m: int| 0 <= m < kept@.len() && kept@[m]@ == id;
                        if m < before.len() {
                            assert(before[m] == kept@[m]);
                            assert(listed(before, id));
                        }
                    }
                    if id != app_id@ && exists|k: int| 0 <= k < i + 1 && old_list[k]@ == id {
                        let k = choose|k: int| 0 <= k < i + 1 && old_list[k]@ == id;
                        if k < i {
                            assert(listed(before, id));
                            let m = choose|m: int| 0 <= m < before.len() && before[m]@ == id;
                            assert(kept@[m] == before[m]);
                        } else {
                            assert(kept@[kept@.len() - 1]@ == id);
                        }
                    }
                }
            } else {
                assert forall|id: Seq<char>| #[trigger] listed(kept@, id) == (id != app_id@ && exists|k: int|
                    0 <= k < i + 1 && old_list[k]@ == id) by {
                    if id != app_id@ && exists|k: int| 0 <= k < i + 1 && old_list[k]@ == id {
                        let k = choose|k: int| 0 <= k < i + 1 && old_list[k]@ == id;
                        assert(k < i);
                    }
                }
            }
            i = i + 1;
        }
        self.installed = kept;
    }

    /// A progress or final event of an install. On completion the app is
    /// marked installed when it succeeded, and the returned message (an
    /// error unless it succeeded) is shown; true asks for a library rescan.
    pub fn on_install_event(&mut self, app_id: &str, event: InstallEvent) -> (r: Option<(String, bool, bool)>)
        ensures
            final(self).apps == old(self).apps,
            final(self).selected == old(self).selected,
            final(self).load_error == old(self).load_error,
            event is Progress ==> final(self).installed == old(self).installed,
            match event {
                InstallEvent::Progress(p) => r is None && forall|id: Seq<char>| #[trigger] progress_of(
                    final(self).installing@,
                    id,
                ) == if id == app_id@ {
                    Some(p)
                } else {
                    progress_of(old(self).installing@, id)
                },
                InstallEvent::Done { success, message } => {
                    &&& r matches Some((m, is_error, rescan)) && m@ == message@ && is_error == !success
                        && rescan == success
                    &&& forall|id: Seq<char>| #[trigger] progress_of(final(self).installing@, id)
                        == if id == app_id@ {
                        None
                    } else {
                        progress_of(old(self).installing@, id)
                    }
                    &&& forall|id: Seq<char>| #[trigger] listed(final(self).installed@, id) == ((
                    success && id == app_id@) || listed(old(self).installed@, id))
                },
            },
    {
        match event {
            InstallEvent::Progress(p) => {
                self.set_progress(app_id, p);
                None
            },
            InstallEvent::Done { success, message } => {
                self.clear_progress(app_id);
                if success {
                    self.mark_installed(app_id);
                }
                Some((message, !success, success))
            },
        }
    }

    /// The status text of a row.
    pub fn status_text(&self, app_id: &str) -> (r: String)
        ensures
            r@ == match progress_of(self.installing@, app_id@) {
                Some(p) => "installing "@ + decimal(p as nat) + "%"@,
                None => if listed(self.installed@, app_id@) {
                    "installed ✓"@
                } else {
                    "A to install"@
                },
            },
    {
        match progress(&self.installing, app_id) {
            Some(p) => {
                let mut s = owned("installing ");
                let digits = decimal_string(p as u64);
                s.append(digits.as_str());
                s.append("%");
                s
            },
            None => if is_installed(&self.installed, app_id) {
                owned("installed ✓")
            } else {
                owned("A to install")
            },
        }
    }

    /// Fill in an app's row from its Flathub metadata: the first row with
    /// this id takes the name, summary and icon; nothing changes when there
    /// is no such row.
    pub fn apply_meta(&mut self, meta: AppMeta)
        ensures
            ({
                let i = app_index_from(old(self).apps@, meta.app_id@, 0);
                if i < 0 {
                    final(self).apps == old(self).apps
                } else {
                    &&& app_views(final(self).apps@) == app_views(old(self).apps@).update(
                        i,
                        (old(self).apps@[i].app_id@, old(self).apps@[i].category@, meta.name@, meta.summary@),
                    )
                    &&& opt_str(final(self).apps@[i].icon) == opt_str(meta.icon)
                    &&& forall|k: int|
                        0 <= k < old(self).apps@.len() && k != i ==> #[trigger] final(self).apps@[k]
                            == old(self).apps@[k]
                }
            }),
            final(self).apps@.len() == old(self).apps@.len(),
            final(self).selected == old(self).selected,
            final(self).installed == old(self).installed,
            final(self).installing == old(self).installing,
            final(self).load_error == old(self).load_error,
    {
        let ghost old_apps = self.apps@;
        let mut i: usize = 0;
        while i < self.apps.len()
            invariant
                i <= self.apps@.len() == old(self).apps@.len(),
                self.apps@ == old_apps,
                self.apps == old(self).apps,
                old_apps == old(self).apps@,
                app_index_from(old_apps, meta.app_id@, 0) == app_index_from(old_apps, meta.app_id@, i as int),
                self.selected == old(self).selected,
                self.installed == old(self).installed,
                self.installing == old(self).installing,
                self.load_error == old(self).load_error,
            decreases self.apps@.len() - i,
        {
            let c = chars_of(self.apps[i].app_id.as_str());
            if crate::text::is_str(&c, meta.app_id.as_str()) {
                let old_app = self.apps.remove(i);
                let app = StoreApp {
                    app_id: old_app.app_id,
                    category: old_app.category,
                    name: meta.name,
                    summary: meta.summary,
                    icon: meta.icon,
                };
                let ghost av = app_view(app);
                self.apps.insert(i, app);
                assert(self.apps@ == old_apps.update(i as int, self.apps@[i as int]));
                assert(app_views(self.apps@) == app_views(old_apps).update(i as int, av));
                return;
            }
            i = i + 1;
        }
    }
}

/// The first catalog row on screen: the selection sits mid-screen where
/// the catalog allows.
pub open spec fn first_visible_spec(selected: nat, count: nat) -> nat {
    let a = if selected > 4 {
        (selected - 4) as nat
    } else {
        0
    };
    let b = if count > 8 {
        (count - 8) as nat
    } else {
        0
    };
    if a < b {
        a
    } else {
        b
    }
}

/// The rows on screen as a half-open range.
pub fn visible_range(selected: usize, count: usize) -> (r: (usize, usize))
    ensures
        r.0 == first_visible_spec(selected as nat, count as nat),
        r.1 == if r.0 + 8 < count {
            r.0 + 8
        } else {
            count as int
        },
{
    let a = if selected > VISIBLE / 2 {
        selected - VISIBLE / 2
    } else {
        0
    };
    let b = if count > VISIBLE {
        count - VISIBLE
    } else {
        0
    };
    let first = if a < b {
        a
    } else {
        b
    };
    let end = if first + VISIBLE < count {
        first + VISIBLE
    } else {
        count
    };
    (first, end)
}

/// Whether row `index` starts a category on screen: it is the first row
/// shown, the first row, or its category differs from the row above.
pub fn shows_category(apps: &Vec<StoreApp>, index: usize, first: usize) -> (r: bool)
    requires
        index < apps@.len(),
    ensures
        r == (index == first || index == 0 || apps@[index - 1].category@ != apps@[index as int].category@),
{
    if index == first || index == 0 {
        return true;
    }
    let a = chars_of(apps[index - 1].category.as_str());
    let b = chars_of(apps[index].category.as_str());
    !crate::text::chars_eq(&a, &b)
}

} // verus!
