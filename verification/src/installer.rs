//! The installer's side of the `silverdeck-install` engine protocol: the
//! `--list-disks` format, the `SILVERBLUE-INSTALL-*` output markers, and the
//! friendly names the drive picker shows.
use vstd::prelude::*;

use crate::text::{
    chars_of, concat, decimal, decimal_string, is_str, lines, lines_str, owned, slice_chars, split3, split3_exec, starts_with,
    starts_with_str, string_of, trim, trim_chars,
};

verus! {

broadcast use vstd::string::group_string_axioms;

/// A drive the installer may erase, as reported by
/// `silverdeck-install --list-disks` (the live USB is already excluded).
#[derive(Debug, Clone, PartialEq, Eq)]
pub struct Disk {
    pub path: String,
    pub size: String,
    pub model: String,
}

/// A size unit letter lsblk prints.
pub open spec fn is_size_unit(c: char) -> bool {
    c == 'K' || c == 'M' || c == 'G' || c == 'T' || c == 'P'
}

/// lsblk's `"931.5G"` as `"931.5 GB"`; other sizes trimmed but unchanged.
pub open spec fn friendly_size_spec(size: Seq<char>) -> Seq<char> {
    let t = trim(size);
    if t.len() > 0 && is_size_unit(t.last()) {
        t.drop_last() + " "@ + seq![t.last()] + "B"@
    } else {
        t
    }
}

/// `"931.5 GB — Samsung SSD 980"`, or `"931.5 GB drive"` without a model.
pub open spec fn disk_title_spec(size: Seq<char>, model: Seq<char>) -> Seq<char> {
    let m = trim(model);
    if m.len() == 0 {
        friendly_size_spec(size) + " drive"@
    } else {
        friendly_size_spec(size) + " — "@ + m
    }
}

/// One `--list-disks` line, `path|size|model`, as (path, size, model) with
/// each part trimmed; lines with an empty path describe no drive.
pub open spec fn disk_record(line: Seq<char>) -> Option<(Seq<char>, Seq<char>, Seq<char>)> {
    let (p, s, m) = split3(line, '|');
    if trim(p).len() == 0 {
        None
    } else {
        Some((trim(p), trim(s), trim(m)))
    }
}

/// The drives of the first `lines` of `--list-disks` output, in order.
pub open spec fn disk_records(ls: Seq<Seq<char>>) -> Seq<(Seq<char>, Seq<char>, Seq<char>)>
    decreases ls.len(),
{
    if ls.len() == 0 {
        seq![]
    } else {
        let prev = disk_records(ls.drop_last());
        match disk_record(ls.last()) {
            Some(d) => prev.push(d),
            None => prev,
        }
    }
}

impl Disk {
    pub open spec fn record(&self) -> (Seq<char>, Seq<char>, Seq<char>) {
        (self.path@, self.size@, self.model@)
    }

    /// lsblk's `"931.5G"` as the friendlier `"931.5 GB"`.
    pub fn friendly_size(&self) -> (r: String)
        ensures
            r@ == friendly_size_spec(self.size@),
    {
        let v = chars_of(self.size.as_str());
        let t = trim_chars(&v);
        let n = t.len();
        if n > 0 {
            let unit = t[n - 1];
            if unit == 'K' || unit == 'M' || unit == 'G' || unit == 'T' || unit == 'P' {
                let mut s = string_of(&slice_chars(&t, 0, n - 1));
                s.append(" ");
                crate::text::push_char(&mut s, unit);
                s.append("B");
                proof {
                    assert(t@.subrange(0, n - 1) == t@.drop_last());
                    reveal_strlit(" ");
                    reveal_strlit("B");
                    assert(s@ == t@.drop_last() + " "@ + seq![t@.last()] + "B"@);
                }
                return s;
            }
        }
        string_of(&t)
    }

    /// `"931.5 GB — Samsung SSD 980"` (the model may be missing on VMs).
    pub fn title(&self) -> (r: String)
        ensures
            r@ == disk_title_spec(self.size@, self.model@),
    {
        let v = chars_of(self.model.as_str());
        let m = trim_chars(&v);
        let mut s = self.friendly_size();
        if m.len() == 0 {
            s.append(" drive");
        } else {
            s.append(" — ");
            let ms = string_of(&m);
            s.append(ms.as_str());
        }
        s
    }
}

/// Parse `--list-disks` output, one `path|size|model` line per drive.
pub fn parse_disk_list(out: &str) -> (r: Vec<Disk>)
    ensures
        r@.map_values(|d: Disk| d.record()) == disk_records(lines(out@)),
{
    let ls = lines_str(out);
    let ghost all = lines(out@);
    let mut disks: Vec<Disk> = Vec::new();
    let mut i: usize = 0;
    while i < ls.len()
        invariant
            i <= ls@.len() == all.len(),
            all == lines(out@),
            forall|k: int| 0 <= k < ls@.len() ==> #[trigger] ls@[k]@ == all[k],
            disks@.map_values(|d: Disk| d.record()) == disk_records(all.take(i as int)),
        decreases ls@.len() - i,
    {
        assert(all.take(i + 1).drop_last() == all.take(i as int));
        assert(all.take(i + 1).last() == ls@[i as int]@);
        let (p, s, m) = split3_exec(&ls[i], '|');
        let path = trim_chars(&p);
        if path.len() > 0 {
            let disk = Disk {
                path: string_of(&path),
                size: string_of(&trim_chars(&s)),
                model: string_of(&trim_chars(&m)),
            };
            disks.push(disk);
        }
        assert(disks@.map_values(|d: Disk| d.record()) == disk_records(all.take(i + 1)));
        i = i + 1;
    }
    assert(all.take(i as int) == all);
    disks
}

/// Install stages in order, as reported by the engine's STEP markers.
#[derive(Debug, Clone, Copy, PartialEq, Eq, Structural)]
pub enum Stage {
    Partition,
    Filesystems,
    Pacstrap,
    Configure,
    Bootloader,
}

/// The stage a STEP marker names.
pub open spec fn stage_of_marker(name: Seq<char>) -> Option<Stage> {
    if name == "partition"@ {
        Some(Stage::Partition)
    } else if name == "filesystems"@ {
        Some(Stage::Filesystems)
    } else if name == "pacstrap"@ {
        Some(Stage::Pacstrap)
    } else if name == "configure"@ {
        Some(Stage::Configure)
    } else if name == "bootloader"@ {
        Some(Stage::Bootloader)
    } else {
        None
    }
}

pub open spec fn stage_label(s: Stage) -> Seq<char> {
    match s {
        Stage::Partition => "Preparing your drive"@,
        Stage::Filesystems => "Setting up storage"@,
        Stage::Pacstrap => "Installing SilverDeck"@,
        Stage::Configure => "Getting things ready"@,
        Stage::Bootloader => "Almost done"@,
    }
}

impl Stage {
    /// The stage a STEP marker's `name=` value denotes.
    pub fn from_marker(name: &str) -> (r: Option<Stage>)
        ensures
            r == stage_of_marker(name@),
    {
        let v = chars_of(name);
        if is_str(&v, "partition") {
            Some(Stage::Partition)
        } else if is_str(&v, "filesystems") {
            Some(Stage::Filesystems)
        } else if is_str(&v, "pacstrap") {
            Some(Stage::Pacstrap)
        } else if is_str(&v, "configure") {
            Some(Stage::Configure)
        } else if is_str(&v, "bootloader") {
            Some(Stage::Bootloader)
        } else {
            None
        }
    }

    /// Jargon-free stage headline.
    pub fn label(&self) -> (r: &'static str)
        ensures
            r@ == stage_label(*self),
    {
        match self {
            Stage::Partition => "Preparing your drive",
            Stage::Filesystems => "Setting up storage",
            Stage::Pacstrap => "Installing SilverDeck",
            Stage::Configure => "Getting things ready",
            Stage::Bootloader => "Almost done",
        }
    }
}

pub enum InstallEvent {
    /// One non-marker output line (already logged to the install log).
    Line(String),
    Stage(Stage),
    Finished(Result<(), String>),
}

/// What one line of engine output means.
#[derive(Debug, Clone, PartialEq, Eq)]
pub enum EngineLine {
    /// A STEP marker naming a known stage.
    Stage(Stage),
    /// The OK marker: the engine finished its work.
    Done,
    /// Any other marker (including STEP markers for unknown stages).
    Marker,
    /// Ordinary output to show.
    Output,
}

pub open spec fn step_prefix() -> Seq<char> {
    "SILVERBLUE-INSTALL-STEP name="@
}

/// The meaning of an engine output line: STEP markers name a stage (by the
/// trimmed text after `name=`), the OK marker ends the run, other
/// `SILVERBLUE-INSTALL-` markers are hidden, everything else is output.
pub open spec fn engine_line_spec(line: Seq<char>) -> EngineLine {
    if starts_with(line, step_prefix()) {
        match stage_of_marker(trim(line.subrange(step_prefix().len() as int, line.len() as int))) {
            Some(s) => EngineLine::Stage(s),
            None => EngineLine::Marker,
        }
    } else if starts_with(line, "SILVERBLUE-INSTALL-OK"@) {
        EngineLine::Done
    } else if starts_with(line, "SILVERBLUE-INSTALL-"@) {
        EngineLine::Marker
    } else {
        EngineLine::Output
    }
}

/// Classify one line of engine output (see [`engine_line_spec`]).
pub fn classify_engine_line(line: &str) -> (r: EngineLine)
    ensures
        r == engine_line_spec(line@),
{
    let v = chars_of(line);
    if starts_with_str(&v, "SILVERBLUE-INSTALL-STEP name=") {
        let p = chars_of("SILVERBLUE-INSTALL-STEP name=");
        let rest = slice_chars(&v, p.len(), v.len());
        let name = string_of(&trim_chars(&rest));
        match Stage::from_marker(name.as_str()) {
            Some(s) => EngineLine::Stage(s),
            None => EngineLine::Marker,
        }
    } else if starts_with_str(&v, "SILVERBLUE-INSTALL-OK") {
        EngineLine::Done
    } else if starts_with_str(&v, "SILVERBLUE-INSTALL-") {
        EngineLine::Marker
    } else {
        EngineLine::Output
    }
}

pub open spec fn stopped_early_message() -> Seq<char> {
    "The install script stopped before finishing. No changes may be complete."@
}

/// The event a line of engine output becomes, if any.
pub fn line_event(line: String) -> (r: Option<InstallEvent>)
    ensures
        match engine_line_spec(line@) {
            EngineLine::Stage(s) => r matches Some(InstallEvent::Stage(t)) && t == s,
            EngineLine::Output => r matches Some(InstallEvent::Line(l)) && l@ == line@,
            _ => r is None,
        },
{
    match classify_engine_line(line.as_str()) {
        EngineLine::Stage(s) => Some(InstallEvent::Stage(s)),
        EngineLine::Output => Some(InstallEvent::Line(line)),
        _ => None,
    }
}

/// How a finished run ends, from whether the engine exited cleanly and
/// whether it printed its OK marker: success only when both hold; an error
/// while running it is reported as is.
pub fn install_outcome(run: Result<(bool, bool), String>) -> (r: Result<(), String>)
    ensures
        match run {
            Ok((exited_ok, saw_ok)) => if exited_ok && saw_ok {
                r is Ok
            } else {
                r matches Err(m) && m@ == stopped_early_message()
            },
            Err(e) => r matches Err(m) && m@ == e@,
        },
{
    match run {
        Ok((exited_ok, saw_ok)) => {
            if exited_ok && saw_ok {
                Ok(())
            } else {
                Err(owned("The install script stopped before finishing. No changes may be complete."))
            }
        },
        Err(e) => Err(e),
    }
}

// --- Host contract --------------------------------------------------------------

/// The install engine command: `SILVERDECK_INSTALL_CMD` when set.
pub fn install_cmd(var: Option<&str>) -> (r: String)
    ensures
        r@ == match var {
            Some(v) => v@,
            None => "silverdeck-install"@,
        },
{
    match var {
        Some(v) => owned(v),
        None => owned("silverdeck-install"),
    }
}

/// Where the install log goes: the temp dir for a fake run, else
/// `/var/log`.
pub fn log_path(fake: bool, temp_dir: &str) -> (r: String)
    ensures
        r@ == if fake {
            crate::paths::join_path(temp_dir@, "silverdeck-install.log"@)
        } else {
            "/var/log/silverdeck-install.log"@
        },
{
    if fake {
        crate::paths::join(temp_dir, "silverdeck-install.log")
    } else {
        owned("/var/log/silverdeck-install.log")
    }
}

/// The environment of an unattended install onto `disk`: markers on,
/// unattended, the target drive, and the erase confirmation.
pub open spec fn install_env_spec(disk: Seq<char>) -> Seq<(Seq<char>, Seq<char>)> {
    seq![
        ("SB_INSTALL_MARKERS"@, "1"@),
        ("SB_INST_UNATTENDED"@, "1"@),
        ("SB_INST_DISK"@, disk),
        ("SB_INST_CONFIRM"@, "ERASE"@),
    ]
}

/// The engine's environment (see [`install_env_spec`]).
pub fn install_env(disk: &str) -> (r: Vec<(String, String)>)
    ensures
        r@.map_values(|p: (String, String)| (p.0@, p.1@)) == install_env_spec(disk@),
{
    let r = vec![
        (owned("SB_INSTALL_MARKERS"), owned("1")),
        (owned("SB_INST_UNATTENDED"), owned("1")),
        (owned("SB_INST_DISK"), owned(disk)),
        (owned("SB_INST_CONFIRM"), owned("ERASE")),
    ];
    assert(r@.map_values(|p: (String, String)| (p.0@, p.1@)) =~= install_env_spec(disk@));
    r
}

/// Whether `id -u` printed the root user id.
pub fn is_root_uid(out: &str) -> (r: bool)
    ensures
        r == (trim(out@) == "0"@),
{
    let v = chars_of(out);
    let t = trim_chars(&v);
    is_str(&t, "0")
}

/// The error of a failed `--list-disks` run.
pub fn list_disks_error(stderr: &str) -> (r: String)
    ensures
        r@ == "--list-disks failed: "@ + trim(stderr@),
{
    let v = chars_of(stderr);
    let t = string_of(&trim_chars(&v));
    concat("--list-disks failed: ", t.as_str())
}

/// The drives a fake run offers.
pub fn fake_disks() -> (r: Vec<Disk>)
    ensures
        r@.map_values(|d: Disk| d.record()) == seq![
            ("/dev/nvme0n1"@, "931.5G"@, "Samsung SSD 980"@),
            ("/dev/sda"@, "232.9G"@, "KINGSTON SA400S37"@),
        ],
{
    let r = vec![
        Disk {
            path: owned("/dev/nvme0n1"),
            size: owned("931.5G"),
            model: owned("Samsung SSD 980"),
        },
        Disk { path: owned("/dev/sda"), size: owned("232.9G"), model: owned("KINGSTON SA400S37") },
    ];
    assert(r@.map_values(|d: Disk| d.record()) =~= seq![
        ("/dev/nvme0n1"@, "931.5G"@, "Samsung SSD 980"@),
        ("/dev/sda"@, "232.9G"@, "KINGSTON SA400S37"@),
    ]);
    r
}

/// An install event as plain values; a finish is `None` for success or the
/// failure's reason.
pub enum EventView {
    Line(Seq<char>),
    Stage(Stage),
    Finished(Option<Seq<char>>),
}

pub open spec fn event_view(e: InstallEvent) -> EventView {
    match e {
        InstallEvent::Line(l) => EventView::Line(l@),
        InstallEvent::Stage(s) => EventView::Stage(s),
        InstallEvent::Finished(Ok(())) => EventView::Finished(None),
        InstallEvent::Finished(Err(m)) => EventView::Finished(Some(m@)),
    }
}

pub open spec fn script_view(s: Seq<(u64, InstallEvent)>) -> Seq<(u64, EventView)> {
    s.map_values(|x: (u64, InstallEvent)| (x.0, event_view(x.1)))
}

/// `n` right-aligned in two columns.
pub open spec fn pad2(n: nat) -> Seq<char> {
    if n < 10 {
        seq![' '] + decimal(n)
    } else {
        decimal(n)
    }
}

/// The fake run's package lines: `( i/40) installing package-i...`.
pub open spec fn package_line(i: nat) -> Seq<char> {
    "( "@ + pad2(i) + "/40) installing package-"@ + decimal(i) + "..."@
}

/// The fake run's partitioning and filesystem steps, then pacstrap's start.
pub open spec fn fake_prelude() -> Seq<(u64, EventView)> {
    seq![
        (0u64, EventView::Stage(Stage::Partition)),
        (350u64, EventView::Line("==> wiping /dev/nvme0n1"@)),
        (350u64, EventView::Line("==> creating ESP + Btrfs"@)),
        (0u64, EventView::Stage(Stage::Filesystems)),
        (350u64, EventView::Line("==> mkfs.btrfs"@)),
        (350u64, EventView::Line("==> mounting subvolumes"@)),
        (0u64, EventView::Stage(Stage::Pacstrap)),
    ]
}

/// The first `n` package lines, 200 ms apart.
pub open spec fn fake_packages(n: nat) -> Seq<(u64, EventView)> {
    Seq::new(n, |k: int| (200u64, EventView::Line(package_line((k + 1) as nat))))
}

/// The canned run for host development: each event with the pause before
/// it in milliseconds. A failing run stops at the 25th package with a
/// mirror error.
pub open spec fn fake_script_spec(fail: bool) -> Seq<(u64, EventView)> {
    if fail {
        fake_prelude() + fake_packages(24) + seq![
            (200u64, EventView::Line("error: failed retrieving file 'mesa' from mirror"@)),
            (0u64, EventView::Finished(Some(stopped_early_message()))),
        ]
    } else {
        fake_prelude() + fake_packages(40) + seq![
            (0u64, EventView::Stage(Stage::Configure)),
            (900u64, EventView::Stage(Stage::Bootloader)),
            (900u64, EventView::Finished(None)),
        ]
    }
}

fn push_event(s: &mut Vec<(u64, InstallEvent)>, delay: u64, e: InstallEvent)
    ensures
        script_view(final(s)@) == script_view(old(s)@).push((delay, event_view(e))),
{
    let ghost before = script_view(s@);
    let ghost ev = event_view(e);
    s.push((delay, e));
    assert(script_view(s@) == before.push((delay, ev)));
}

/// The package line of step `i` (see [`package_line`]).
fn package_text(i: u32) -> (r: String)
    requires
        1 <= i <= 40,
    ensures
        r@ == package_line(i as nat),
{
    let digits = decimal_string(i as u64);
    let mut s = owned("( ");
    if i < 10 {
        s.append(" ");
    }
    s.append(digits.as_str());
    s.append("/40) installing package-");
    s.append(digits.as_str());
    s.append("...");
    proof {
        reveal_strlit(" ");
        reveal_strlit("( ");
        if i < 10 {
            assert("( "@ + " "@ + decimal(i as nat) == "( "@ + pad2(i as nat));
        }
    }
    s
}

/// The canned run (see [`fake_script_spec`]).
pub fn fake_script(fail: bool) -> (r: Vec<(u64, InstallEvent)>)
    ensures
        script_view(r@) == fake_script_spec(fail),
{
    let mut s: Vec<(u64, InstallEvent)> = Vec::new();
    push_event(&mut s, 0, InstallEvent::Stage(Stage::Partition));
    push_event(&mut s, 350, InstallEvent::Line(owned("==> wiping /dev/nvme0n1")));
    push_event(&mut s, 350, InstallEvent::Line(owned("==> creating ESP + Btrfs")));
    push_event(&mut s, 0, InstallEvent::Stage(Stage::Filesystems));
    push_event(&mut s, 350, InstallEvent::Line(owned("==> mkfs.btrfs")));
    push_event(&mut s, 350, InstallEvent::Line(owned("==> mounting subvolumes")));
    push_event(&mut s, 0, InstallEvent::Stage(Stage::Pacstrap));
    assert(script_view(s@) == fake_prelude());
    let mut i: u32 = 1;
    while i <= 40
        invariant
            1 <= i <= 41,
            script_view(s@) == fake_prelude() + fake_packages((i - 1) as nat),
            fail ==> i <= 25,
        decreases 41 - i,
    {
        if fail && i == 25 {
            push_event(
                &mut s,
                200,
                InstallEvent::Line(owned("error: failed retrieving file 'mesa' from mirror")),
            );
            push_event(
                &mut s,
                0,
                InstallEvent::Finished(Err(owned(
                    "The install script stopped before finishing. No changes may be complete.",
                ))),
            );
            return s;
        }
        let line = package_text(i);
        push_event(&mut s, 200, InstallEvent::Line(line));
        assert(fake_packages(i as nat) == fake_packages((i - 1) as nat).push(
            (200u64, EventView::Line(package_line(i as nat))),
        ));
        i = i + 1;
    }
    push_event(&mut s, 0, InstallEvent::Stage(Stage::Configure));
    push_event(&mut s, 900, InstallEvent::Stage(Stage::Bootloader));
    push_event(&mut s, 900, InstallEvent::Finished(Ok(())));
    s
}

} // verus!
