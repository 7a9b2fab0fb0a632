//! System control for the Settings tab: Wi-Fi (NetworkManager's `nmcli`),
//! volume (`wpctl`), power and OS updates (systemd).
//!
//! Every command goes through the [`CommandRunner`] trait, so tests (and
//! development hosts) can substitute canned output with [`FakeRunner`].
//! What a command prints is decided outside this library; the functions
//! that interpret that output are specified exactly.
use vstd::prelude::*;

use crate::order::{is_sorted_perm, is_strict_total, lemma_sorted_perm_injective, permute, sorted_indices};
use crate::text::{split3, split3_exec, concat, index_of_char, all_digits, contains, contains_str, digit_char, digit_value, digits_value, decimal, decimal_string, is_digit, is_ws, is_ws_char, starts_with, starts_with_str, chars_of, find_char, first_index_of, lemma_first_index_of, is_str, lines, lines_str, owned, parse_u8, parse_u8_spec, slice_chars, string_of, trim, trim_chars};

verus! {

broadcast use vstd::string::group_string_axioms;

/// The strings of a slice of string slices.
pub open spec fn strs(v: Seq<&str>) -> Seq<Seq<char>> {
    v.map_values(|s: &str| s@)
}

/// The strings of a list of owned strings.
pub open spec fn strings(v: Seq<String>) -> Seq<Seq<char>> {
    v.map_values(|s: String| s@)
}

/// The error of a command that exited unsuccessfully: `<program> failed:
/// <stderr, trimmed>`.
pub fn command_failed_message(program: &str, stderr: &str) -> (r: String)
    ensures
        r@ == program@ + " failed: "@ + trim(stderr@),
{
    let v = chars_of(stderr);
    let t = string_of(&trim_chars(&v));
    let mut s = concat(program, " failed: ");
    s.append(t.as_str());
    s
}

/// A command's answer as plain values: its standard output, or the error.
pub open spec fn answer_view(r: Result<String, String>) -> Result<Seq<char>, Seq<char>> {
    match r {
        Ok(out) => Ok(out@),
        Err(e) => Err(e@),
    }
}

/// Runs external commands.
pub trait CommandRunner: Send + Sync {
    /// Whether, once the commands `history` have run (oldest first), running
    /// `argv` on this runner may answer `r`. What a command answers is
    /// decided outside this library; this relation ties each answer to the
    /// command it came from and to the commands run before it. A runner
    /// that says nothing more may answer anything.
    open spec fn may_answer(
        &self,
        history: Seq<Seq<Seq<char>>>,
        argv: Seq<Seq<char>>,
        r: Result<Seq<char>, Seq<char>>,
    ) -> bool {
        true
    }

    /// Run `argv` to completion and capture its standard output. A non-zero
    /// exit is an `Err` carrying the standard error. The answer is one the
    /// runner may give for `argv` now, and afterwards the runner answers as
    /// it would have once `argv` had run.
    fn run(&mut self, argv: &[&str]) -> (r: Result<String, String>)
        ensures
            old(self).may_answer(seq![], strs(argv@), answer_view(r)),
            forall|h: Seq<Seq<Seq<char>>>, a: Seq<Seq<char>>, x: Result<Seq<char>, Seq<char>>|
                #[trigger] final(self).may_answer(h, a, x) == old(self).may_answer(
                    seq![strs(argv@)] + h,
                    a,
                    x,
                ),
    ;
}

// --- Wi-Fi (NetworkManager via nmcli) -------------------------------------

#[derive(Debug, Clone, PartialEq, Eq)]
pub struct WifiNetwork {
    pub ssid: String,
    /// 0..=100
    pub signal: u8,
    pub secured: bool,
    pub connected: bool,
}

/// A Wi-Fi network as plain values: (ssid, signal, secured, connected).
pub type WifiView = (Seq<char>, u8, bool, bool);

impl View for WifiNetwork {
    type V = WifiView;

    open spec fn view(&self) -> WifiView {
        (self.ssid@, self.signal, self.secured, self.connected)
    }
}

pub open spec fn wifi_views(v: Seq<WifiNetwork>) -> Seq<WifiView> {
    v.map_values(|w: WifiNetwork| w@)
}

/// Reading a terse line left to right: the fields already closed, the field
/// still open, and whether a backslash escape is pending.
pub open spec fn terse_scan(s: Seq<char>, n: nat) -> (Seq<Seq<char>>, Seq<char>, bool)
    decreases s.len(),
{
    if s.len() == 0 {
        (seq![], seq![], false)
    } else {
        let (fields, cur, esc) = terse_scan(s.drop_last(), n);
        let c = s.last();
        if esc {
            (fields, cur.push(c), false)
        } else if c == '\\' {
            (fields, cur, true)
        } else if c == ':' && fields.len() + 1 < n {
            (fields.push(cur), seq![], false)
        } else {
            (fields, cur.push(c), false)
        }
    }
}

/// One `nmcli` terse line split into at most `n` fields at unescaped colons;
/// `"\x"` stands for `x` (a trailing lone backslash is dropped).
pub open spec fn split_terse_spec(s: Seq<char>, n: nat) -> Seq<Seq<char>> {
    let (fields, cur, esc) = terse_scan(s, n);
    fields.push(cur)
}

proof fn lemma_terse_scan_step(s: Seq<char>, n: nat, i: int)
    requires
        0 <= i < s.len(),
    ensures
        terse_scan(s.take(i + 1), n) == ({
            let (fields, cur, esc) = terse_scan(s.take(i), n);
            let c = s[i];
            if esc {
                (fields, cur.push(c), false)
            } else if c == '\\' {
                (fields, cur, true)
            } else if c == ':' && fields.len() + 1 < n {
                (fields.push(cur), seq![], false)
            } else {
                (fields, cur.push(c), false)
            }
        }),
{
    assert(s.take(i + 1).drop_last() == s.take(i));
}

/// Split one nmcli terse line into at most `n` fields, honoring `"\:"` escapes.
pub fn split_terse_chars(line: &Vec<char>, n: usize) -> (r: Vec<Vec<char>>)
    requires
        n >= 1,
    ensures
        r@.len() == split_terse_spec(line@, n as nat).len(),
        forall|i: int| 0 <= i < r@.len() ==> #[trigger] r@[i]@ == split_terse_spec(line@, n as nat)[i],
{
    let mut fields: Vec<Vec<char>> = Vec::new();
    let mut cur: Vec<char> = Vec::new();
    let mut esc = false;
    let mut i: usize = 0;
    while i < line.len()
        invariant
            n >= 1,
            i <= line@.len(),
            fields@.len() == terse_scan(line@.take(i as int), n as nat).0.len(),
            forall|k: int| 0 <= k < fields@.len() ==> #[trigger] fields@[k]@ == terse_scan(line@.take(i as int), n as nat).0[k],
            cur@ == terse_scan(line@.take(i as int), n as nat).1,
            esc == terse_scan(line@.take(i as int), n as nat).2,
        decreases line@.len() - i,
    {
        proof {
            lemma_terse_scan_step(line@, n as nat, i as int);
        }
        let c = line[i];
        if esc {
            cur.push(c);
            esc = false;
        } else if c == '\\' {
            esc = true;
        } else if c == ':' && fields.len() < n - 1 {
            fields.push(cur);
            cur = Vec::new();
        } else {
            cur.push(c);
        }
        i = i + 1;
    }
    assert(line@.take(line@.len() as int) == line@);
    fields.push(cur);
    fields
}

/// Split one nmcli terse line into at most `n` fields, honoring `"\:"` escapes.
pub fn split_terse(line: &str, n: usize) -> (r: Vec<String>)
    requires
        n >= 1,
    ensures
        strings(r@) == split_terse_spec(line@, n as nat),
{
    let v = chars_of(line);
    let fields = split_terse_chars(&v, n);
    let mut r: Vec<String> = Vec::new();
    let mut i: usize = 0;
    while i < fields.len()
        invariant
            i <= fields@.len(),
            fields@.len() == split_terse_spec(line@, n as nat).len(),
            forall|k: int| 0 <= k < fields@.len() ==> #[trigger] fields@[k]@ == split_terse_spec(line@, n as nat)[k],
            strings(r@) == split_terse_spec(line@, n as nat).take(i as int),
        decreases fields@.len() - i,
    {
        r.push(string_of(&fields[i]));
        proof {
            assert(split_terse_spec(line@, n as nat).take(i + 1) == split_terse_spec(line@, n as nat).take(i as int).push(fields@[i as int]@));
        }
        i = i + 1;
    }
    assert(split_terse_spec(line@, n as nat).take(i as int) == split_terse_spec(line@, n as nat));
    r
}

/// The network one list line describes: `ACTIVE:SIGNAL:SECURITY:SSID`.
/// Lines without exactly four fields, or with an empty (hidden) SSID, give
/// nothing. An unparseable signal counts as 0.
pub open spec fn wifi_record(line: Seq<char>) -> Option<WifiView> {
    let f = split_terse_spec(line, 4);
    if f.len() == 4 && f[3].len() > 0 {
        Some(
            (
                f[3],
                match parse_u8_spec(f[1]) {
                    Some(v) => v,
                    None => 0,
                },
                f[2].len() > 0 && f[2] != "--"@,
                f[0] == "yes"@,
            ),
        )
    } else {
        None
    }
}

/// Index of the entry for `ssid` in `nets`, or -1.
pub open spec fn ssid_index(nets: Seq<WifiView>, ssid: Seq<char>) -> int
    decreases nets.len(),
{
    if nets.len() == 0 {
        -1
    } else {
        let k = ssid_index(nets.drop_last(), ssid);
        if k >= 0 {
            k
        } else if nets.last().0 == ssid {
            nets.len() - 1
        } else {
            -1
        }
    }
}

/// Add one access point to the list: a new SSID is appended; for a known
/// SSID the strongest signal (and its security) is kept and the connected
/// flag is never lost.
pub open spec fn merge_network(nets: Seq<WifiView>, w: WifiView) -> Seq<WifiView> {
    let k = ssid_index(nets, w.0);
    if k < 0 {
        nets.push(w)
    } else {
        let e = nets[k];
        let stronger = w.1 > e.1;
        nets.update(
            k,
            (w.0, if stronger { w.1 } else { e.1 }, if stronger { w.2 } else { e.2 }, e.3 || w.3),
        )
    }
}

/// The merged networks of the first lines of an output, in first-seen order.
pub open spec fn merged_networks(ls: Seq<Seq<char>>) -> Seq<WifiView>
    decreases ls.len(),
{
    if ls.len() == 0 {
        seq![]
    } else {
        let prev = merged_networks(ls.drop_last());
        match wifi_record(ls.last()) {
            Some(w) => merge_network(prev, w),
            None => prev,
        }
    }
}

/// The list line `line` describes a network named `ssid`.
pub open spec fn line_names(line: Seq<char>, ssid: Seq<char>) -> bool {
    match wifi_record(line) {
        Some(w) => w.0 == ssid,
        None => false,
    }
}

/// The list line `line` describes a network named `ssid` and has `yes` in
/// its ACTIVE field.
pub open spec fn line_active_for(line: Seq<char>, ssid: Seq<char>) -> bool {
    line_names(line, ssid) && split_terse_spec(line, 4)[0] == "yes"@
}

/// Some line of `ls` describes a network named `ssid`.
pub open spec fn names_ssid(ls: Seq<Seq<char>>, ssid: Seq<char>) -> bool {
    exists|i: int| 0 <= i < ls.len() && #[trigger] line_names(ls[i], ssid)
}

/// Some line of `ls` describes a network named `ssid` and has `yes` in its
/// ACTIVE field.
pub open spec fn active_line_for(ls: Seq<Seq<char>>, ssid: Seq<char>) -> bool {
    exists|i: int| 0 <= i < ls.len() && #[trigger] line_active_for(ls[i], ssid)
}

/// Some network of `nets` is named `ssid`.
pub open spec fn has_ssid(nets: Seq<WifiView>, ssid: Seq<char>) -> bool {
    exists|j: int| 0 <= j < nets.len() && nets[j].0 == ssid
}

proof fn lemma_ssid_index_absent(nets: Seq<WifiView>, ssid: Seq<char>)
    ensures
        ssid_index(nets, ssid) < 0 ==> !has_ssid(nets, ssid),
        ssid_index(nets, ssid) >= 0 ==> 0 <= ssid_index(nets, ssid) < nets.len() && nets[ssid_index(
            nets,
            ssid,
        )].0 == ssid,
    decreases nets.len(),
{
    if nets.len() > 0 {
        let d = nets.drop_last();
        lemma_ssid_index_absent(d, ssid);
        if ssid_index(nets, ssid) < 0 {
            assert forall|j: int| 0 <= j < nets.len() implies nets[j].0 != ssid by {
                if j < d.len() {
                    assert(nets[j] == d[j]);
                }
            }
        }
    }
}

/// The merged networks of `ls` have distinct SSIDs, one for every SSID a
/// line names, each connected exactly when an active line names it.
proof fn lemma_merged_networks(ls: Seq<Seq<char>>)
    ensures
        forall|j: int, k: int|
            0 <= j < k < merged_networks(ls).len() ==> merged_networks(ls)[j].0 != merged_networks(ls)[k].0,
        forall|x: Seq<char>| names_ssid(ls, x) ==> has_ssid(merged_networks(ls), x),
        forall|k: int|
            0 <= k < merged_networks(ls).len() ==> ((#[trigger] merged_networks(ls)[k]).3
                <==> active_line_for(ls, merged_networks(ls)[k].0)),
    decreases ls.len(),
{
    if ls.len() > 0 {
        let d = ls.drop_last();
        lemma_merged_networks(d);
        let m0 = merged_networks(d);
        let m = merged_networks(ls);
        let last = ls.last();
        assert forall|x: Seq<char>| #[trigger] names_ssid(ls, x) == (names_ssid(d, x) || line_names(last, x)) by {
            if names_ssid(ls, x) {
                let i = choose|i: int| 0 <= i < ls.len() && #[trigger] line_names(ls[i], x);
                if i < d.len() {
                    assert(ls[i] == d[i]);
                }
            }
            if names_ssid(d, x) {
                let i = choose|i: int| 0 <= i < d.len() && #[trigger] line_names(d[i], x);
                assert(ls[i] == d[i]);
            }
            if line_names(last, x) {
                assert(ls[ls.len() - 1] == last);
            }
        }
        assert forall|x: Seq<char>| #[trigger] active_line_for(ls, x) == (active_line_for(d, x) || line_active_for(last, x)) by {
            if active_line_for(ls, x) {
                let i = choose|i: int| 0 <= i < ls.len() && #[trigger] line_active_for(ls[i], x);
                if i < d.len() {
                    assert(ls[i] == d[i]);
                }
            }
            if active_line_for(d, x) {
                let i = choose|i: int| 0 <= i < d.len() && #[trigger] line_active_for(d[i], x);
                assert(ls[i] == d[i]);
            }
            if line_active_for(last, x) {
                assert(ls[ls.len() - 1] == last);
            }
        }
        match wifi_record(last) {
            None => {
                assert(m == m0);
            },
            Some(w) => {
                assert(w.3 == (split_terse_spec(last, 4)[0] == "yes"@));
                lemma_ssid_index_absent(m0, w.0);
                let k = ssid_index(m0, w.0);
                if k < 0 {
                    assert(m == m0.push(w));
                    assert forall|x: Seq<char>| names_ssid(ls, x) implies has_ssid(m, x) by {
                        if names_ssid(d, x) {
                            let j = choose|j: int| 0 <= j < m0.len() && m0[j].0 == x;
                            assert(m[j] == m0[j]);
                        } else {
                            assert(m[m.len() - 1] == w);
                        }
                    }
                    assert forall|j: int| 0 <= j < m.len() implies ((#[trigger] m[j]).3 <==> active_line_for(
                        ls,
                        m[j].0,
                    )) by {
                        if j < m0.len() {
                            assert(m[j] == m0[j]);
                            assert(m0[j].0 != w.0);
                        } else {
                            assert(m[j] == w);
                            if active_line_for(d, w.0) {
                                let i = choose|i: int| 0 <= i < d.len() && #[trigger] line_active_for(d[i], w.0);
                                assert(names_ssid(d, w.0));
                            }
                        }
                    }
                    assert forall|j: int, l: int| 0 <= j < l < m.len() implies m[j].0 != m[l].0 by {
                        if l < m0.len() {
                            assert(m[j] == m0[j] && m[l] == m0[l]);
                        } else {
                            assert(m[j] == m0[j]);
                        }
                    }
                } else {
                    let e = m0[k];
                    assert(e.0 == w.0);
                    assert(m[k].0 == w.0 && m[k].3 == (e.3 || w.3));
                    assert forall|x: Seq<char>| names_ssid(ls, x) implies has_ssid(m, x) by {
                        if names_ssid(d, x) {
                            let j = choose|j: int| 0 <= j < m0.len() && m0[j].0 == x;
                            if j != k {
                                assert(m[j] == m0[j]);
                            }
                        } else {
                            assert(m[k].0 == x);
                        }
                    }
                    assert forall|j: int| 0 <= j < m.len() implies ((#[trigger] m[j]).3 <==> active_line_for(
                        ls,
                        m[j].0,
                    )) by {
                        if j != k {
                            assert(m[j] == m0[j]);
                            assert(m0[j].0 != m0[k].0);
                        }
                    }
                    assert forall|j: int, l: int| 0 <= j < l < m.len() implies m[j].0 != m[l].0 by {
                        assert(m[j].0 == m0[j].0 && m[l].0 == m0[l].0);
                    }
                }
            },
        }
    }
}

/// In the Wi-Fi list each network is connected exactly when some line of
/// the `nmcli` output for its SSID is active: an SSID seen through several
/// access points keeps the connected flag of any of them.
pub proof fn wifi_connected_law(text: Seq<char>, out: Seq<WifiView>)
    requires
        is_wifi_list_of(text, out),
    ensures
        forall|k: int| 0 <= k < out.len() ==> ((#[trigger] out[k]).3 <==> active_line_for(lines(text), out[k].0)),
{
    let nets = merged_networks(lines(text));
    let order = choose|order: Seq<int>|
        is_sorted_perm(wifi_order_table(nets), nets.len(), order) && out == Seq::new(
            nets.len(),
            |a: int| nets[order[a]],
        );
    lemma_merged_networks(lines(text));
    assert forall|k: int| 0 <= k < out.len() implies ((#[trigger] out[k]).3 <==> active_line_for(
        lines(text),
        out[k].0,
    )) by {
        assert(0 <= order[k] < nets.len());
        assert(out[k] == nets[order[k]]);
    }
}

/// Network `i` is listed before network `j`: connected first, then by
/// decreasing signal, keeping first-seen order for ties.
pub open spec fn wifi_before(nets: Seq<WifiView>, i: int, j: int) -> bool {
    ||| nets[i].3 && !nets[j].3
    ||| nets[i].3 == nets[j].3 && nets[i].1 > nets[j].1
    ||| nets[i].3 == nets[j].3 && nets[i].1 == nets[j].1 && i < j
}

pub open spec fn wifi_order_table(nets: Seq<WifiView>) -> Seq<Seq<bool>> {
    Seq::new(nets.len(), |i: int| Seq::new(nets.len(), |j: int| wifi_before(nets, i, j)))
}

/// `out` is the Wi-Fi list shown for the `nmcli` output `text`: one entry per
/// SSID (see [`merge_network`]), connected first, then strongest first.
pub open spec fn is_wifi_list_of(text: Seq<char>, out: Seq<WifiView>) -> bool {
    let nets = merged_networks(lines(text));
    exists|order: Seq<int>|
        is_sorted_perm(wifi_order_table(nets), nets.len(), order) && out == Seq::new(
            nets.len(),
            |a: int| nets[order[a]],
        )
}

/// The network a list line describes, if any.
fn parse_wifi_line(line: &Vec<char>) -> (r: Option<WifiNetwork>)
    ensures
        match r {
            Some(w) => wifi_record(line@) == Some(w@),
            None => wifi_record(line@) is None,
        },
{
    let fields = split_terse_chars(line, 4);
    if fields.len() != 4 || fields[3].len() == 0 {
        return None;
    }
    let signal = match parse_u8(&fields[1]) {
        Some(v) => v,
        None => 0,
    };
    let secured = fields[2].len() > 0 && !is_str(&fields[2], "--");
    let connected = is_str(&fields[0], "yes");
    Some(WifiNetwork { ssid: string_of(&fields[3]), signal, secured, connected })
}

proof fn lemma_ssid_index(nets: Seq<WifiView>, ssid: Seq<char>)
    ensures
        -1 <= ssid_index(nets, ssid) < nets.len(),
        ssid_index(nets, ssid) >= 0 ==> nets[ssid_index(nets, ssid)].0 == ssid,
        ssid_index(nets, ssid) < 0 ==> forall|i: int| 0 <= i < nets.len() ==> nets[i].0 != ssid,
        ssid_index(nets, ssid) >= 0 ==> forall|i: int| 0 <= i < ssid_index(nets, ssid) ==> nets[i].0 != ssid,
    decreases nets.len(),
{
    if nets.len() > 0 {
        let p = nets.drop_last();
        lemma_ssid_index(p, ssid);
        assert forall|i: int| 0 <= i < p.len() implies p[i] == nets[i] by {}
    }
}

proof fn lemma_wifi_order_total(nets: Seq<WifiView>)
    ensures
        is_strict_total(wifi_order_table(nets), nets.len()),
{
}

/// Parse `nmcli -t -f ACTIVE,SIGNAL,SECURITY,SSID device wifi list` output:
/// one entry per SSID, connected first, then strongest first.
pub fn parse_wifi_list(out: &str) -> (r: Vec<WifiNetwork>)
    ensures
        is_wifi_list_of(out@, wifi_views(r@)),
{
    let ls = lines_str(out);
    let ghost text_lines = lines(out@);
    let mut nets: Vec<WifiNetwork> = Vec::new();
    let mut i: usize = 0;
    while i < ls.len()
        invariant
            i <= ls@.len() == text_lines.len(),
            text_lines == lines(out@),
            forall|k: int| 0 <= k < ls@.len() ==> #[trigger] ls@[k]@ == text_lines[k],
            wifi_views(nets@) == merged_networks(text_lines.take(i as int)),
        decreases ls@.len() - i,
    {
        assert(text_lines.take(i + 1).drop_last() == text_lines.take(i as int));
        assert(text_lines.take(i + 1).last() == ls@[i as int]@);
        match parse_wifi_line(&ls[i]) {
            Some(w) => {
                let ghost before = wifi_views(nets@);
                proof {
                    lemma_ssid_index(before, w.ssid@);
                }
                let mut k: usize = 0;
                while k < nets.len() && nets[k].ssid != w.ssid
                    invariant
                        k <= nets@.len(),
                        before == wifi_views(nets@),
                        forall|j: int| 0 <= j < k ==> before[j].0 != w.ssid@,
                    decreases nets@.len() - k,
                {
                    k = k + 1;
                }
                if k < nets.len() {
                    assert(before[k as int].0 == w.ssid@);
                    assert(ssid_index(before, w.ssid@) == k);
                    let e_signal = nets[k].signal;
                    let e_secured = nets[k].secured;
                    let e_connected = nets[k].connected;
                    let stronger = w.signal > e_signal;
                    let updated = WifiNetwork {
                        ssid: w.ssid,
                        signal: if stronger { w.signal } else { e_signal },
                        secured: if stronger { w.secured } else { e_secured },
                        connected: e_connected || w.connected,
                    };
                    nets.set(k, updated);
                    assert(wifi_views(nets@) == merge_network(before, w@));
                } else {
                    assert(ssid_index(before, w.ssid@) < 0);
                    nets.push(w);
                    assert(wifi_views(nets@) == merge_network(before, w@));
                }
            },
            None => {},
        }
        i = i + 1;
    }
    assert(text_lines.take(i as int) == text_lines);
    let ghost merged = wifi_views(nets@);
    let n = nets.len();
    let mut table: Vec<Vec<bool>> = Vec::new();
    let mut a: usize = 0;
    while a < n
        invariant
            a <= n == nets@.len(),
            merged == wifi_views(nets@),
            table@.len() == a,
            forall|x: int| 0 <= x < a ==> #[trigger] table@[x]@ == wifi_order_table(merged)[x],
        decreases n - a,
    {
        let mut row: Vec<bool> = Vec::new();
        let mut b: usize = 0;
        while b < n
            invariant
                a < n,
                b <= n == nets@.len(),
                merged == wifi_views(nets@),
                row@.len() == b,
                forall|y: int| 0 <= y < b ==> #[trigger] row@[y] == wifi_before(merged, a as int, y),
            decreases n - b,
        {
            let x = &nets[a];
            let y = &nets[b];
            let before = (x.connected && !y.connected) || (x.connected == y.connected && (x.signal
                > y.signal || (x.signal == y.signal && a < b)));
            row.push(before);
            b = b + 1;
        }
        assert(row@ == wifi_order_table(merged)[a as int]);
        table.push(row);
        a = a + 1;
    }
    assert(table@.map_values(|r: Vec<bool>| r@) == wifi_order_table(merged));
    proof {
        lemma_wifi_order_total(merged);
    }
    let order = sorted_indices(&table, n);
    proof {
        lemma_sorted_perm_injective(
            wifi_order_table(merged),
            n as nat,
            order@.map_values(|x: usize| x as int),
        );
    }
    let r = permute(nets, &order);
    proof {
        let ord = order@.map_values(|x: usize| x as int);
        assert(wifi_views(r@) == Seq::new(merged.len(), |a: int| merged[ord[a]]));
    }
    r
}

/// `nmcli radio wifi` output says the radio is on.
pub open spec fn radio_enabled_spec(out: Seq<char>) -> bool {
    trim(out) == "enabled"@
}

/// Whether `nmcli radio wifi` output says the radio is on.
pub fn radio_enabled(out: &str) -> (r: bool)
    ensures
        r == radio_enabled_spec(out@),
{
    let v = chars_of(out);
    let t = trim_chars(&v);
    is_str(&t, "enabled")
}

/// The status line of `nmcli -t -f TYPE,STATE,CONNECTION device` output for
/// its lines: the first connected ethernet or Wi-Fi device as
/// `"<type>: <connection> (connected)"`, else `"disconnected"`.
pub open spec fn status_from(ls: Seq<Seq<char>>) -> Seq<char>
    decreases ls.len(),
{
    if ls.len() == 0 {
        "disconnected"@
    } else {
        let (ty, state, conn) = split3(ls[0], ':');
        if state == "connected"@ && (ty == "ethernet"@ || ty == "wifi"@) {
            ty + ": "@ + conn + " (connected)"@
        } else {
            status_from(ls.subrange(1, ls.len() as int))
        }
    }
}

/// The one-line status for the settings header, from
/// `nmcli -t -f TYPE,STATE,CONNECTION device` output, e.g.
/// `"wifi: MyNet (connected)"`.
pub fn network_status(out: &str) -> (r: String)
    ensures
        r@ == status_from(lines(out@)),
{
    let ls = lines_str(out);
    let ghost all = lines(out@);
    let mut i: usize = 0;
    assert(all.subrange(0, all.len() as int) == all);
    while i < ls.len()
        invariant
            i <= ls@.len() == all.len(),
            all == lines(out@),
            forall|k: int| 0 <= k < ls@.len() ==> #[trigger] ls@[k]@ == all[k],
            status_from(all) == status_from(all.subrange(i as int, all.len() as int)),
        decreases ls@.len() - i,
    {
        let (ty, state, conn) = split3_exec(&ls[i], ':');
        let ghost rest = all.subrange(i as int, all.len() as int);
        assert(rest[0] == ls@[i as int]@);
        if is_str(&state, "connected") && (is_str(&ty, "ethernet") || is_str(&ty, "wifi")) {
            let mut s = string_of(&ty);
            s.append(": ");
            let c = string_of(&conn);
            s.append(c.as_str());
            s.append(" (connected)");
            return s;
        }
        assert(rest.subrange(1, rest.len() as int) == all.subrange(i + 1, all.len() as int));
        i = i + 1;
    }
    assert(all.subrange(i as int, all.len() as int).len() == 0);
    owned("disconnected")
}

/// Access to NetworkManager.
pub struct Network<'a>(pub &'a mut dyn CommandRunner);

/// `r` is what running a command for its effect gives when it answers
/// `res`: `Ok` when it succeeded, its error otherwise.
pub open spec fn effect_of(res: Result<Seq<char>, Seq<char>>, r: Result<(), String>) -> bool {
    match res {
        Ok(_) => r is Ok,
        Err(e) => r matches Err(m) && m@ == e,
    }
}

/// `nmcli radio wifi`.
pub open spec fn radio_argv() -> Seq<Seq<char>> {
    seq!["nmcli"@, "radio"@, "wifi"@]
}

/// `nmcli radio wifi on|off`.
pub open spec fn set_radio_argv(on: bool) -> Seq<Seq<char>> {
    radio_argv().push(if on { "on"@ } else { "off"@ })
}

/// The Wi-Fi scan command.
pub open spec fn scan_argv() -> Seq<Seq<char>> {
    seq![
        "nmcli"@,
        "-t"@,
        "-f"@,
        "ACTIVE,SIGNAL,SECURITY,SSID"@,
        "device"@,
        "wifi"@,
        "list"@,
        "--rescan"@,
        "auto"@,
    ]
}

/// `nmcli device wifi connect <ssid> [password <password>]`.
pub open spec fn connect_argv(ssid: Seq<char>, password: Option<&str>) -> Seq<Seq<char>> {
    let base = seq!["nmcli"@, "device"@, "wifi"@, "connect"@, ssid];
    match password {
        Some(pw) => base + seq!["password"@, pw@],
        None => base,
    }
}

/// The device status command.
pub open spec fn status_argv() -> Seq<Seq<char>> {
    seq!["nmcli"@, "-t"@, "-f"@, "TYPE,STATE,CONNECTION"@, "device"@]
}

impl<'a> Network<'a> {
    /// Whether the Wi-Fi radio is on (`nmcli radio wifi`, see
    /// [`radio_enabled`]); the command's error otherwise.
    pub fn wifi_enabled(&mut self) -> (r: Result<bool, String>)
        ensures
            exists|res: Result<Seq<char>, Seq<char>>|
                #[trigger] old(self).0.may_answer(seq![], radio_argv(), res) && match res {
                    Ok(out) => r == Ok::<bool, String>(radio_enabled_spec(out)),
                    Err(e) => r matches Err(m) && m@ == e,
                },
            forall|h: Seq<Seq<Seq<char>>>, a: Seq<Seq<char>>, x: Result<Seq<char>, Seq<char>>|
                #[trigger] final(self).0.may_answer(h, a, x) == old(self).0.may_answer(seq![radio_argv()] + h, a, x),
    {
        let argv: [&str; 3] = ["nmcli", "radio", "wifi"];
        assert(strs(argv@) =~= radio_argv());
        let res = self.0.run(&argv);
        assert(old(self).0.may_answer(seq![], radio_argv(), answer_view(res)));
        match res {
            Ok(out) => Ok(radio_enabled(out.as_str())),
            Err(e) => Err(e),
        }
    }

    /// Switch the Wi-Fi radio on or off (`nmcli radio wifi on|off`).
    pub fn set_wifi_enabled(&mut self, on: bool) -> (r: Result<(), String>)
        ensures
            exists|res: Result<Seq<char>, Seq<char>>|
                #[trigger] old(self).0.may_answer(seq![], set_radio_argv(on), res) && effect_of(res, r),
            forall|h: Seq<Seq<Seq<char>>>, a: Seq<Seq<char>>, x: Result<Seq<char>, Seq<char>>|
                #[trigger] final(self).0.may_answer(h, a, x) == old(self).0.may_answer(seq![set_radio_argv(on)] + h, a, x),
    {
        let argv: [&str; 4] = ["nmcli", "radio", "wifi", if on { "on" } else { "off" }];
        assert(strs(argv@) =~= set_radio_argv(on));
        let res = self.0.run(&argv);
        assert(old(self).0.may_answer(seq![], set_radio_argv(on), answer_view(res)));
        match res {
            Ok(_) => Ok(()),
            Err(e) => Err(e),
        }
    }

    /// Scan and list visible networks, connected first, then strongest
    /// first, one entry per SSID: [`parse_wifi_list`] of what `nmcli`
    /// printed; the command's error otherwise.
    pub fn scan(&mut self) -> (r: Result<Vec<WifiNetwork>, String>)
        ensures
            exists|res: Result<Seq<char>, Seq<char>>|
                #[trigger] old(self).0.may_answer(seq![], scan_argv(), res) && match res {
                    Ok(out) => r matches Ok(v) && is_wifi_list_of(out, wifi_views(v@)),
                    Err(e) => r matches Err(m) && m@ == e,
                },
            forall|h: Seq<Seq<Seq<char>>>, a: Seq<Seq<char>>, x: Result<Seq<char>, Seq<char>>|
                #[trigger] final(self).0.may_answer(h, a, x) == old(self).0.may_answer(seq![scan_argv()] + h, a, x),
    {
        let argv: [&str; 9] = [
            "nmcli",
            "-t",
            "-f",
            "ACTIVE,SIGNAL,SECURITY,SSID",
            "device",
            "wifi",
            "list",
            "--rescan",
            "auto",
        ];
        assert(strs(argv@) =~= scan_argv());
        let res = self.0.run(&argv);
        assert(old(self).0.may_answer(seq![], scan_argv(), answer_view(res)));
        match res {
            Ok(out) => Ok(parse_wifi_list(out.as_str())),
            Err(e) => Err(e),
        }
    }

    /// Join a network; `password: None` for open or known networks.
    pub fn connect(&mut self, ssid: &str, password: Option<&str>) -> (r: Result<(), String>)
        ensures
            exists|res: Result<Seq<char>, Seq<char>>|
                #[trigger] old(self).0.may_answer(seq![], connect_argv(ssid@, password), res) && effect_of(res, r),
            forall|h: Seq<Seq<Seq<char>>>, a: Seq<Seq<char>>, x: Result<Seq<char>, Seq<char>>|
                #[trigger] final(self).0.may_answer(h, a, x) == old(self).0.may_answer(seq![connect_argv(ssid@, password)] + h, a, x),
    {
        let res = match password {
            Some(pw) => {
                let argv: [&str; 7] = ["nmcli", "device", "wifi", "connect", ssid, "password", pw];
                assert(strs(argv@) =~= connect_argv(ssid@, password));
                self.0.run(&argv)
            },
            None => {
                let argv: [&str; 5] = ["nmcli", "device", "wifi", "connect", ssid];
                assert(strs(argv@) =~= connect_argv(ssid@, password));
                self.0.run(&argv)
            },
        };
        assert(old(self).0.may_answer(seq![], connect_argv(ssid@, password), answer_view(res)));
        match res {
            Ok(_) => Ok(()),
            Err(e) => Err(e),
        }
    }

    /// One-line status for the settings header, e.g. `"wifi: MyNet
    /// (connected)"` (see
    /// [`network_status`]); the command's error otherwise.
    pub fn status(&mut self) -> (r: Result<String, String>)
        ensures
            exists|res: Result<Seq<char>, Seq<char>>|
                #[trigger] old(self).0.may_answer(seq![], status_argv(), res) && match res {
                    Ok(out) => r matches Ok(t) && t@ == status_from(lines(out)),
                    Err(e) => r matches Err(m) && m@ == e,
                },
            forall|h: Seq<Seq<Seq<char>>>, a: Seq<Seq<char>>, x: Result<Seq<char>, Seq<char>>|
                #[trigger] final(self).0.may_answer(h, a, x) == old(self).0.may_answer(seq![status_argv()] + h, a, x),
    {
        let argv: [&str; 5] = ["nmcli", "-t", "-f", "TYPE,STATE,CONNECTION", "device"];
        assert(strs(argv@) =~= status_argv());
        let res = self.0.run(&argv);
        assert(old(self).0.may_answer(seq![], status_argv(), answer_view(res)));
        match res {
            Ok(out) => Ok(network_status(out.as_str())),
            Err(e) => Err(e),
        }
    }
}

// --- Volume (wpctl) --------------------------------------------------------

/// Length of the leading run of non-whitespace characters of `s`.
pub open spec fn word_len(s: Seq<char>) -> nat
    decreases s.len(),
{
    if s.len() == 0 || is_ws(s[0]) {
        0
    } else {
        1 + word_len(s.subrange(1, s.len() as int))
    }
}

/// `wpctl get-volume` output, `"Volume: 0.55"` or `"Volume: 0.55 [MUTED]"`,
/// as its reading: the number as written (the first word after
/// `Volume:`) and whether the sink is muted.
pub open spec fn wpctl_reading(out: Seq<char>) -> Option<(Seq<char>, bool)> {
    let t = trim(out);
    if !starts_with(t, "Volume:"@) {
        None
    } else {
        let rest = trim(t.subrange(7, t.len() as int));
        if rest.len() == 0 {
            None
        } else {
            Some((rest.take(word_len(rest) as int), contains(rest, "[MUTED]"@)))
        }
    }
}

/// Read `"Volume: 0.55"` / `"Volume: 0.55 [MUTED]"` (`wpctl get-volume`):
/// the number as written and whether the sink is muted (see
/// [`wpctl_reading`]). The number is a float; turning it into a percentage
/// is left to the host.
pub fn parse_wpctl_volume(out: &str) -> (r: Option<(String, bool)>)
    ensures
        match r {
            Some((tok, muted)) => wpctl_reading(out@) == Some((tok@, muted)),
            None => wpctl_reading(out@) is None,
        },
{
    let v = chars_of(out);
    let t = trim_chars(&v);
    if !starts_with_str(&t, "Volume:") {
        return None;
    }
    proof {
        reveal_strlit("Volume:");
    }
    let after = slice_chars(&t, 7, t.len());
    let rest = trim_chars(&after);
    if rest.len() == 0 {
        return None;
    }
    let mut w: usize = 0;
    assert(rest@.subrange(0, rest@.len() as int) == rest@);
    while w < rest.len() && !is_ws_char(rest[w])
        invariant
            w <= rest@.len(),
            word_len(rest@) == w + word_len(rest@.subrange(w as int, rest@.len() as int)),
        decreases rest@.len() - w,
    {
        proof {
            let x = rest@.subrange(w as int, rest@.len() as int);
            assert(x.subrange(1, x.len() as int) == rest@.subrange(w + 1, rest@.len() as int));
        }
        w = w + 1;
    }
    proof {
        assert(rest@.subrange(0, rest@.len() as int) == rest@);
        assert(word_len(rest@.subrange(w as int, rest@.len() as int)) == 0);
    }
    let tok = slice_chars(&rest, 0, w);
    assert(tok@ == rest@.take(word_len(rest@) as int));
    let muted = contains_str(&rest, "[MUTED]");
    Some((string_of(&tok), muted))
}

/// The `wpctl set-volume` argument for a percentage: the clamped percentage
/// as a fraction with two decimals, e.g. `"0.55"` or `"1.00"`.
pub open spec fn volume_arg_spec(percent: u8) -> Seq<char> {
    let p: nat = if percent > 100 { 100 } else { percent as nat };
    decimal(p / 100).push('.').push(digit_char((p % 100) / 10)).push(digit_char(p % 10))
}

/// The `wpctl set-volume` argument for a percentage (clamped to 100).
pub fn volume_arg(percent: u8) -> (r: String)
    ensures
        r@ == volume_arg_spec(percent),
{
    let p: u8 = if percent > 100 { 100 } else { percent };
    let mut s = decimal_string((p / 100) as u64);
    crate::text::push_char(&mut s, '.');
    crate::text::push_char(&mut s, (((p % 100) / 10) + ('0' as u8)) as char);
    crate::text::push_char(&mut s, ((p % 10) + ('0' as u8)) as char);
    s
}

/// Access to the default audio sink.
pub struct Audio<'a>(pub &'a mut dyn CommandRunner);

/// `wpctl get-volume @DEFAULT_AUDIO_SINK@`.
pub open spec fn get_volume_argv() -> Seq<Seq<char>> {
    seq!["wpctl"@, "get-volume"@, "@DEFAULT_AUDIO_SINK@"@]
}

/// `wpctl set-volume @DEFAULT_AUDIO_SINK@ <fraction>`.
pub open spec fn set_volume_argv(percent: u8) -> Seq<Seq<char>> {
    seq!["wpctl"@, "set-volume"@, "@DEFAULT_AUDIO_SINK@"@, volume_arg_spec(percent)]
}

/// `wpctl set-mute @DEFAULT_AUDIO_SINK@ 1|0`.
pub open spec fn set_mute_argv(muted: bool) -> Seq<Seq<char>> {
    seq!["wpctl"@, "set-mute"@, "@DEFAULT_AUDIO_SINK@"@, if muted { "1"@ } else { "0"@ }]
}

impl<'a> Audio<'a> {
    /// The default sink's volume reading: the number `wpctl` printed (a
    /// fraction, 1.0 being full volume) and whether the sink is muted (see
    /// [`parse_wpctl_volume`]); an error when the output is unreadable, or
    /// the command's error.
    pub fn volume(&mut self) -> (r: Result<(String, bool), String>)
        ensures
            exists|res: Result<Seq<char>, Seq<char>>|
                #[trigger] old(self).0.may_answer(seq![], get_volume_argv(), res) && match res {
                    Ok(out) => match wpctl_reading(out) {
                        Some((tok, muted)) => r matches Ok((t, m)) && t@ == tok && m == muted,
                        None => r matches Err(e) && e@ == "unparseable wpctl output"@,
                    },
                    Err(e) => r matches Err(m) && m@ == e,
                },
            forall|h: Seq<Seq<Seq<char>>>, a: Seq<Seq<char>>, x: Result<Seq<char>, Seq<char>>|
                #[trigger] final(self).0.may_answer(h, a, x) == old(self).0.may_answer(seq![get_volume_argv()] + h, a, x),
    {
        let argv: [&str; 3] = ["wpctl", "get-volume", "@DEFAULT_AUDIO_SINK@"];
        assert(strs(argv@) =~= get_volume_argv());
        let res = self.0.run(&argv);
        assert(old(self).0.may_answer(seq![], get_volume_argv(), answer_view(res)));
        match res {
            Ok(out) => match parse_wpctl_volume(out.as_str()) {
                Some(v) => Ok(v),
                None => {
                    let m = owned("unparseable wpctl output");
                    proof {
                        reveal_strlit("unparseable wpctl output");
                    }
                    Err(m)
                },
            },
            Err(e) => Err(e),
        }
    }

    /// Set the volume; percentages above 100 count as 100.
    pub fn set_volume(&mut self, percent: u8) -> (r: Result<(), String>)
        ensures
            exists|res: Result<Seq<char>, Seq<char>>|
                #[trigger] old(self).0.may_answer(seq![], set_volume_argv(percent), res) && effect_of(res, r),
            forall|h: Seq<Seq<Seq<char>>>, a: Seq<Seq<char>>, x: Result<Seq<char>, Seq<char>>|
                #[trigger] final(self).0.may_answer(h, a, x) == old(self).0.may_answer(seq![set_volume_argv(percent)] + h, a, x),
    {
        let value = volume_arg(percent);
        let argv: [&str; 4] = ["wpctl", "set-volume", "@DEFAULT_AUDIO_SINK@", value.as_str()];
        assert(strs(argv@) =~= set_volume_argv(percent));
        let res = self.0.run(&argv);
        assert(old(self).0.may_answer(seq![], set_volume_argv(percent), answer_view(res)));
        match res {
            Ok(_) => Ok(()),
            Err(e) => Err(e),
        }
    }

    /// Mute or unmute the default sink.
    pub fn set_muted(&mut self, muted: bool) -> (r: Result<(), String>)
        ensures
            exists|res: Result<Seq<char>, Seq<char>>|
                #[trigger] old(self).0.may_answer(seq![], set_mute_argv(muted), res) && effect_of(res, r),
            forall|h: Seq<Seq<Seq<char>>>, a: Seq<Seq<char>>, x: Result<Seq<char>, Seq<char>>|
                #[trigger] final(self).0.may_answer(h, a, x) == old(self).0.may_answer(seq![set_mute_argv(muted)] + h, a, x),
    {
        let argv: [&str; 4] = ["wpctl", "set-mute", "@DEFAULT_AUDIO_SINK@", if muted { "1" } else { "0" }];
        assert(strs(argv@) =~= set_mute_argv(muted));
        let res = self.0.run(&argv);
        assert(old(self).0.may_answer(seq![], set_mute_argv(muted), answer_view(res)));
        match res {
            Ok(_) => Ok(()),
            Err(e) => Err(e),
        }
    }
}

// --- Power & OS updates (systemd) ------------------------------------------

pub const UPDATE_UNIT: &'static str = "silverdeck-update.service";

pub struct Power<'a>(pub &'a mut dyn CommandRunner);

/// `systemctl poweroff` (`reboot` false) or `systemctl reboot`.
pub open spec fn power_argv(reboot: bool) -> Seq<Seq<char>> {
    seq!["systemctl"@, if reboot { "reboot"@ } else { "poweroff"@ }]
}

impl<'a> Power<'a> {
    /// Power the console off.
    pub fn poweroff(&mut self) -> (r: Result<(), String>)
        ensures
            exists|res: Result<Seq<char>, Seq<char>>|
                #[trigger] old(self).0.may_answer(seq![], power_argv(false), res) && effect_of(res, r),
            forall|h: Seq<Seq<Seq<char>>>, a: Seq<Seq<char>>, x: Result<Seq<char>, Seq<char>>|
                #[trigger] final(self).0.may_answer(h, a, x) == old(self).0.may_answer(seq![power_argv(false)] + h, a, x),
    {
        let argv: [&str; 2] = ["systemctl", "poweroff"];
        assert(strs(argv@) =~= power_argv(false));
        let res = self.0.run(&argv);
        assert(old(self).0.may_answer(seq![], power_argv(false), answer_view(res)));
        match res {
            Ok(_) => Ok(()),
            Err(e) => Err(e),
        }
    }

    /// Restart the console.
    pub fn reboot(&mut self) -> (r: Result<(), String>)
        ensures
            exists|res: Result<Seq<char>, Seq<char>>|
                #[trigger] old(self).0.may_answer(seq![], power_argv(true), res) && effect_of(res, r),
            forall|h: Seq<Seq<Seq<char>>>, a: Seq<Seq<char>>, x: Result<Seq<char>, Seq<char>>|
                #[trigger] final(self).0.may_answer(h, a, x) == old(self).0.may_answer(seq![power_argv(true)] + h, a, x),
    {
        let argv: [&str; 2] = ["systemctl", "reboot"];
        assert(strs(argv@) =~= power_argv(true));
        let res = self.0.run(&argv);
        assert(old(self).0.may_answer(seq![], power_argv(true), answer_view(res)));
        match res {
            Ok(_) => Ok(()),
            Err(e) => Err(e),
        }
    }
}

/// `systemctl start --no-block <update unit>`.
pub open spec fn update_start_argv() -> Seq<Seq<char>> {
    seq!["systemctl"@, "start"@, "--no-block"@, UPDATE_UNIT@]
}

/// `systemctl <query> <update unit>`.
pub open spec fn unit_query_argv(query: Seq<char>) -> Seq<Seq<char>> {
    seq!["systemctl"@, query, UPDATE_UNIT@]
}

pub struct Updates<'a>(pub &'a mut dyn CommandRunner);

#[derive(Debug, Clone, Copy, PartialEq, Eq, Structural)]
pub enum UpdateState {
    Idle,
    Running,
    Failed,
}

/// The update state `systemctl is-active` output shows (it exited zero).
pub open spec fn state_from_active_spec(out: Seq<char>) -> UpdateState {
    if trim(out) == "activating"@ || trim(out) == "active"@ {
        UpdateState::Running
    } else {
        UpdateState::Idle
    }
}

/// The update state once `is-active` failed (inactive or failed): Failed
/// only when `systemctl is-failed` succeeded and printed `failed`.
pub open spec fn state_from_failed_spec(r: Result<Seq<char>, Seq<char>>) -> UpdateState {
    match r {
        Ok(out) => if trim(out) == "failed"@ {
            UpdateState::Failed
        } else {
            UpdateState::Idle
        },
        Err(_) => UpdateState::Idle,
    }
}

pub fn state_from_active(out: &str) -> (r: UpdateState)
    ensures
        r == state_from_active_spec(out@),
{
    let v = chars_of(out);
    let t = trim_chars(&v);
    if is_str(&t, "activating") || is_str(&t, "active") {
        UpdateState::Running
    } else {
        UpdateState::Idle
    }
}

pub fn state_from_failed(r: &Result<String, String>) -> (s: UpdateState)
    ensures
        s == state_from_failed_spec(
            match r {
                Ok(o) => Ok(o@),
                Err(e) => Err(e@),
            },
        ),
{
    match r {
        Ok(out) => {
            let v = chars_of(out.as_str());
            let t = trim_chars(&v);
            if is_str(&t, "failed") {
                UpdateState::Failed
            } else {
                UpdateState::Idle
            }
        },
        Err(_) => UpdateState::Idle,
    }
}

impl<'a> Updates<'a> {
    /// Kick off the atomic OS update; non-blocking (progress is in the journal).
    pub fn start(&mut self) -> (r: Result<(), String>)
        ensures
            exists|res: Result<Seq<char>, Seq<char>>|
                #[trigger] old(self).0.may_answer(seq![], update_start_argv(), res) && effect_of(res, r),
            forall|h: Seq<Seq<Seq<char>>>, a: Seq<Seq<char>>, x: Result<Seq<char>, Seq<char>>|
                #[trigger] final(self).0.may_answer(h, a, x) == old(self).0.may_answer(seq![update_start_argv()] + h, a, x),
    {
        let argv: [&str; 4] = ["systemctl", "start", "--no-block", UPDATE_UNIT];
        assert(strs(argv@) =~= update_start_argv());
        let res = self.0.run(&argv);
        assert(old(self).0.may_answer(seq![], update_start_argv(), answer_view(res)));
        match res {
            Ok(_) => Ok(()),
            Err(e) => Err(e),
        }
    }

    /// Whether the update unit is running, failed, or idle. `is-active`
    /// exits non-zero for both inactive and failed units, so a failing
    /// `is-active` is disambiguated with `is-failed`.
    pub fn state(&mut self) -> (s: UpdateState)
        ensures
            exists|a1: Result<Seq<char>, Seq<char>>|
                #[trigger] old(self).0.may_answer(seq![], unit_query_argv("is-active"@), a1) && match a1 {
                    Ok(out) => s == state_from_active_spec(out) && forall|
                        h: Seq<Seq<Seq<char>>>,
                        a: Seq<Seq<char>>,
                        x: Result<Seq<char>, Seq<char>>,
                    |
                        #[trigger] final(self).0.may_answer(h, a, x) == old(self).0.may_answer(
                            seq![unit_query_argv("is-active"@)] + h,
                            a,
                            x,
                        ),
                    Err(_) => exists|a2: Result<Seq<char>, Seq<char>>|
                        #[trigger] old(self).0.may_answer(
                            seq![unit_query_argv("is-active"@)],
                            unit_query_argv("is-failed"@),
                            a2,
                        ) && s == state_from_failed_spec(a2) && forall|
                            h: Seq<Seq<Seq<char>>>,
                            a: Seq<Seq<char>>,
                            x: Result<Seq<char>, Seq<char>>,
                        |
                            #[trigger] final(self).0.may_answer(h, a, x) == old(self).0.may_answer(
                                seq![unit_query_argv("is-active"@), unit_query_argv("is-failed"@)] + h,
                                a,
                                x,
                            ),
                },
    {
        let active: [&str; 3] = ["systemctl", "is-active", UPDATE_UNIT];
        proof {
            reveal_strlit("is-active");
        }
        assert(strs(active@) =~= unit_query_argv("is-active"@));
        let a1 = self.0.run(&active);
        let ghost q1 = unit_query_argv("is-active"@);
        assert(old(self).0.may_answer(seq![], q1, answer_view(a1)));
        match a1 {
            Ok(out) => state_from_active(out.as_str()),
            Err(_) => {
                let failed: [&str; 3] = ["systemctl", "is-failed", UPDATE_UNIT];
                proof {
                    reveal_strlit("is-failed");
                }
                let ghost q2 = unit_query_argv("is-failed"@);
                assert(strs(failed@) =~= q2);
                let r = self.0.run(&failed);
                proof {
                    assert(seq![q1] + seq![] =~= seq![q1]);
                    assert(old(self).0.may_answer(seq![q1], q2, answer_view(r)));
                    assert forall|h: Seq<Seq<Seq<char>>>, a: Seq<Seq<char>>, x: Result<Seq<char>, Seq<char>>|
                        #[trigger] self.0.may_answer(h, a, x) == old(self).0.may_answer(seq![q1, q2] + h, a, x) by {
                        assert(seq![q1] + (seq![q2] + h) =~= seq![q1, q2] + h);
                    }
                }
                let s = state_from_failed(&r);
                assert(s == state_from_failed_spec(answer_view(r)));
                s
            },
        }
    }
}

// --- Test support -----------------------------------------------------------

/// `prefix` is a prefix of `argv`.
pub open spec fn argv_has_prefix(argv: Seq<Seq<char>>, prefix: Seq<Seq<char>>) -> bool {
    argv.len() >= prefix.len() && argv.take(prefix.len() as int) == prefix
}

/// Index of the first prefix in `prefixes` that `argv` starts with, or -1.
pub open spec fn first_match(prefixes: Seq<Seq<Seq<char>>>, argv: Seq<Seq<char>>) -> int
    decreases prefixes.len(),
{
    if prefixes.len() == 0 {
        -1
    } else {
        let k = first_match(prefixes.drop_last(), argv);
        if k >= 0 {
            k
        } else if argv_has_prefix(argv, prefixes.last()) {
            prefixes.len() - 1
        } else {
            -1
        }
    }
}

/// Canned-output runner for tests and host development: each expected
/// command prefix answers once, in the order given.
pub struct FakeRunner {
    pub responses: Vec<(Vec<String>, Result<String, String>)>,
    pub calls: Vec<Vec<String>>,
}

impl FakeRunner {
    /// The argv prefixes still waiting for a call.
    pub open spec fn prefixes(&self) -> Seq<Seq<Seq<char>>> {
        self.responses@.map_values(|p: (Vec<String>, Result<String, String>)| strings(p.0@))
    }

    /// The answers, in the same order as [`Self::prefixes`].
    pub open spec fn answers(&self) -> Seq<Result<String, String>> {
        self.responses@.map_values(|p: (Vec<String>, Result<String, String>)| p.1)
    }

    /// Every command run so far, oldest first.
    pub open spec fn history(&self) -> Seq<Seq<Seq<char>>> {
        self.calls@.map_values(|c: Vec<String>| strings(c@))
    }

    pub fn new() -> (r: Self)
        ensures
            r.prefixes().len() == 0,
            r.history().len() == 0,
    {
        FakeRunner { responses: Vec::new(), calls: Vec::new() }
    }

    /// Answer the next command that starts with `argv_prefix` with `response`.
    pub fn expect(self, argv_prefix: &[&str], response: Result<String, String>) -> (r: Self)
        ensures
            r.prefixes() == self.prefixes().push(strs(argv_prefix@)),
            r.answers() == self.answers().push(response),
            r.history() == self.history(),
    {
        let mut this = self;
        let prefix = owned_all(argv_prefix);
        this.responses.push((prefix, response));
        proof {
            assert(this.prefixes() == self.prefixes().push(strs(argv_prefix@)));
            assert(this.answers() == self.answers().push(response));
        }
        this
    }
}

/// Owned copies of string slices.
pub fn owned_all(v: &[&str]) -> (r: Vec<String>)
    ensures
        strings(r@) == strs(v@),
{
    let mut r: Vec<String> = Vec::new();
    let mut i: usize = 0;
    while i < v.len()
        invariant
            i <= v@.len(),
            strings(r@) == strs(v@).take(i as int),
        decreases v@.len() - i,
    {
        r.push(owned(v[i]));
        assert(strs(v@).take(i + 1) == strs(v@).take(i as int).push(v@[i as int]@));
        i = i + 1;
    }
    assert(strs(v@).take(i as int) == strs(v@));
    r
}

/// Whether `argv` starts with the strings of `prefix`.
fn starts_with_argv(argv: &[&str], prefix: &Vec<String>) -> (r: bool)
    ensures
        r == argv_has_prefix(strs(argv@), strings(prefix@)),
{
    if argv.len() < prefix.len() {
        return false;
    }
    let mut i: usize = 0;
    while i < prefix.len()
        invariant
            i <= prefix@.len() <= argv@.len(),
            strs(argv@).take(i as int) == strings(prefix@).take(i as int),
        decreases prefix@.len() - i,
    {
        let a = chars_of(argv[i]);
        let b = chars_of(prefix[i].as_str());
        if !crate::text::chars_eq(&a, &b) {
            assert(strs(argv@).take(prefix@.len() as int)[i as int] != strings(prefix@)[i as int]);
            return false;
        }
        assert(strs(argv@).take(i + 1) == strs(argv@).take(i as int).push(argv@[i as int]@));
        assert(strings(prefix@).take(i + 1) == strings(prefix@).take(i as int).push(prefix@[i as int]@));
        i = i + 1;
    }
    assert(strings(prefix@).take(i as int) == strings(prefix@));
    true
}

/// The `Debug` rendering of an argument list, as `format!("{:?}", argv)` makes it.
pub uninterp spec fn debug_argv(argv: Seq<Seq<char>>) -> Seq<char>;

/// `format!("{argv:?}")`.
#[verifier::external_body]
fn format_debug_argv(argv: &[&str]) -> (r: String)
    ensures
        r@ == debug_argv(strs(argv@)),
{
    format!("{argv:?}")
}

proof fn lemma_first_match(prefixes: Seq<Seq<Seq<char>>>, argv: Seq<Seq<char>>, k: int)
    requires
        0 <= k <= prefixes.len(),
        forall|j: int| 0 <= j < k ==> !argv_has_prefix(argv, #[trigger] prefixes[j]),
        k == prefixes.len() || argv_has_prefix(argv, prefixes[k]),
    ensures
        first_match(prefixes, argv) == if k == prefixes.len() { -1 } else { k },
    decreases prefixes.len(),
{
    if prefixes.len() > 0 {
        let p = prefixes.drop_last();
        if k < prefixes.len() - 1 {
            lemma_first_match(p, argv, k);
        } else {
            lemma_first_match(p, argv, p.len() as int);
        }
    }
}

/// The expected prefixes and answers of a fake runner left once `calls`
/// have run: each call uses up the first prefix it starts with.
pub open spec fn queue_after(
    prefixes: Seq<Seq<Seq<char>>>,
    answers: Seq<Result<String, String>>,
    calls: Seq<Seq<Seq<char>>>,
) -> (Seq<Seq<Seq<char>>>, Seq<Result<String, String>>)
    decreases calls.len(),
{
    if calls.len() == 0 {
        (prefixes, answers)
    } else {
        let k = first_match(prefixes, calls[0]);
        if k < 0 {
            queue_after(prefixes, answers, calls.subrange(1, calls.len() as int))
        } else {
            queue_after(prefixes.remove(k), answers.remove(k), calls.subrange(1, calls.len() as int))
        }
    }
}

impl CommandRunner for FakeRunner {
    /// A fake runner answers a command with the answer of the first expected
    /// prefix it starts with among those left once `history` has run, or
    /// with the unexpected-command error when there is none.
    open spec fn may_answer(
        &self,
        history: Seq<Seq<Seq<char>>>,
        argv: Seq<Seq<char>>,
        r: Result<Seq<char>, Seq<char>>,
    ) -> bool {
        let (p, ans) = queue_after(self.prefixes(), self.answers(), history);
        let k = first_match(p, argv);
        if k < 0 {
            r == Err::<Seq<char>, Seq<char>>("unexpected command: "@ + debug_argv(argv))
        } else {
            r == answer_view(ans[k])
        }
    }

    /// Record the call, then answer with (and forget) the first expected
    /// prefix `argv` starts with; a command nobody expected is an error.
    fn run(&mut self, argv: &[&str]) -> (r: Result<String, String>)
        ensures
            final(self).history() == old(self).history().push(strs(argv@)),
            ({
                let k = first_match(old(self).prefixes(), strs(argv@));
                if k < 0 {
                    &&& r matches Err(msg) && msg@ == "unexpected command: "@ + debug_argv(strs(argv@))
                    &&& final(self).prefixes() == old(self).prefixes()
                    &&& final(self).answers() == old(self).answers()
                } else {
                    &&& r == old(self).answers()[k]
                    &&& final(self).prefixes() == old(self).prefixes().remove(k)
                    &&& final(self).answers() == old(self).answers().remove(k)
                }
            }),
    {
        let call = owned_all(argv);
        self.calls.push(call);
        assert(self.history() == old(self).history().push(strs(argv@)));
        let mut i: usize = 0;
        while i < self.responses.len()
            invariant
                i <= self.responses@.len(),
                self.history() == old(self).history().push(strs(argv@)),
                self.prefixes() == old(self).prefixes(),
                self.answers() == old(self).answers(),
                forall|j: int| 0 <= j < i ==> !argv_has_prefix(strs(argv@), #[trigger] self.prefixes()[j]),
            decreases self.responses@.len() - i,
        {
            if starts_with_argv(argv, &self.responses[i].0) {
                proof {
                    lemma_first_match(self.prefixes(), strs(argv@), i as int);
                }
                let (_, answer) = self.responses.remove(i);
                proof {
                    assert(self.prefixes() == old(self).prefixes().remove(i as int));
                    assert(self.answers() == old(self).answers().remove(i as int));
                }
                proof {
                    assert forall|h: Seq<Seq<Seq<char>>>, a: Seq<Seq<char>>, x: Result<Seq<char>, Seq<char>>|
                        #[trigger] self.may_answer(h, a, x) == old(self).may_answer(seq![strs(argv@)] + h, a, x) by {
                        let c = seq![strs(argv@)] + h;
                        assert(c[0] == strs(argv@));
                        assert(c.subrange(1, c.len() as int) =~= h);
                    }
                }
                return answer;
            }
            i = i + 1;
        }
        proof {
            lemma_first_match(self.prefixes(), strs(argv@), self.prefixes().len() as int);
        }
        proof {
            assert forall|h: Seq<Seq<Seq<char>>>, a: Seq<Seq<char>>, x: Result<Seq<char>, Seq<char>>|
                #[trigger] self.may_answer(h, a, x) == old(self).may_answer(seq![strs(argv@)] + h, a, x) by {
                let c = seq![strs(argv@)] + h;
                assert(c[0] == strs(argv@));
                assert(c.subrange(1, c.len() as int) =~= h);
            }
        }
        let shown = format_debug_argv(argv);
        Err(concat("unexpected command: ", shown.as_str()))
    }
}

impl Default for FakeRunner {
    fn default() -> (r: Self)
        ensures
            r.prefixes().len() == 0,
            r.history().len() == 0,
    {
        Self::new()
    }
}

} // verus!
