//! The immutable system snapshot: its data model, the assembly of a snapshot
//! from one set of host readings, and its HTML rendering.

use crate::disk::DiskData;
use crate::disk::DiskView;
use crate::disk::disk_lines;
use crate::disk::disk_lines_spec;
use crate::disk::disk_wf;
use crate::disk::disks_view;
use crate::disk::pairs_view;
use crate::format::bytes_text;
use crate::format::cpu_freq_text;
use crate::format::format_bytes;
use crate::format::format_percent;
use crate::format::format_uptime;
use crate::format::calculate_cpu_freq;
use crate::format::percent_text;
use crate::format::uptime_text;
use crate::network::IpAddress;
use crate::network::network_line;
use crate::network::network_line_opt;
use crate::text::decimal;
use crate::text::u64_to_string;
use vstd::prelude::*;
use vstd::string::StrSliceExecFns;
use vstd::string::StringExecFns;

verus! {

/// One human-readable telemetry fact; keys may repeat and order matters.
#[derive(Debug)]
pub struct LineInfo {
    pub key: String,
    pub value: String,
}

/// The mathematical view of one line.
#[verifier::ext_equal]
pub ghost struct LineView {
    pub key: Seq<char>,
    pub value: Seq<char>,
}

impl View for LineInfo {
    type V = LineView;

    open spec fn view(&self) -> LineView {
        LineView { key: self.key@, value: self.value@ }
    }
}

impl Clone for LineInfo {
    /// A clone carries the same key and value.
    fn clone(&self) -> (r: Self)
        ensures
            r@ == self@,
    {
        LineInfo { key: self.key.clone(), value: self.value.clone() }
    }
}

impl From<(String, String)> for LineInfo {
    fn from(tuple: (String, String)) -> (r: LineInfo) {
        LineInfo { key: tuple.0, value: tuple.1 }
    }
}

impl vstd::std_specs::convert::FromSpecImpl<(String, String)> for LineInfo {
    open spec fn obeys_from_spec() -> bool {
        true
    }

    open spec fn from_spec(tuple: (String, String)) -> LineInfo {
        LineInfo { key: tuple.0, value: tuple.1 }
    }
}

/// The views of a sequence of lines.
pub open spec fn lines_view(s: Seq<LineInfo>) -> Seq<LineView> {
    s.map_values(|l: LineInfo| l@)
}

proof fn lemma_lines_view_index(s: Seq<LineInfo>)
    ensures
        lines_view(s).len() == s.len(),
        forall|k: int| 0 <= k < s.len() ==> #[trigger] lines_view(s)[k] == s[k]@,
{
}

/// One complete, immutable capture of host telemetry.
#[derive(Debug)]
pub struct SystemInfo {
    pub host: String,
    pub lines: Vec<LineInfo>,
}

/// The mathematical view of a snapshot.
#[verifier::ext_equal]
pub ghost struct SystemView {
    pub host: Seq<char>,
    pub lines: Seq<LineView>,
}

impl View for SystemInfo {
    type V = SystemView;

    open spec fn view(&self) -> SystemView {
        SystemView { host: self.host@, lines: lines_view(self.lines@) }
    }
}

impl Clone for SystemInfo {
    /// A clone carries the same host and the same lines.
    fn clone(&self) -> (r: Self)
        ensures
            r@ == self@,
    {
        let mut lines: Vec<LineInfo> = Vec::new();
        let mut i: usize = 0;
        while i < self.lines.len()
            invariant
                i <= self.lines@.len(),
                lines@.len() == i,
                forall|k: int| 0 <= k < i ==> lines@[k]@ == self.lines@[k]@,
            decreases self.lines@.len() - i,
        {
            let l = &self.lines[i];
            lines.push(l.clone());
            i = i + 1;
        }
        proof {
            assert(lines_view(lines@) =~= lines_view(self.lines@));
        }
        SystemInfo { host: self.host.clone(), lines }
    }
}

impl SystemInfo {
    /// Renders the snapshot as an HTML fragment: a header line, a separator
    /// rule sized to the header's character length, then one line per entry.
    pub fn as_html_info(&self) -> (r: String)
        requires
            self.host@.len() + 8 <= usize::MAX,
        ensures
            r@ == html_info_text(self@),
    {
        let mut html = String::new();
        html.append("<p class=\"host-header\">noaione<span class=\"host-at\">@</span>");
        html.append(self.host.as_str());
        html.append("</p>\n");
        html.append("<p class=\"detail-line\">");
        let n = self.host.as_str().unicode_len() + 8;
        let ghost head = html@;
        let mut i: usize = 0;
        proof {
            assert(html@ =~= head + dashes(0));
        }
        while i < n
            invariant
                i <= n,
                html@ == head + dashes(i as nat),
            decreases n - i,
        {
            html.append("-");
            proof {
                reveal_strlit("-");
                assert((head + dashes(i as nat)) + "-"@ =~= head + dashes(i as nat + 1));
            }
            i = i + 1;
        }
        html.append("</p>\n");
        let ghost mid = html@;
        let mut j: usize = 0;
        proof {
            assert(html@ =~= mid + lines_html_prefix(lines_view(self.lines@), 0));
        }
        while j < self.lines.len()
            invariant
                j <= self.lines@.len(),
                html@ == mid + lines_html_prefix(lines_view(self.lines@), j as int),
            decreases self.lines@.len() - j,
        {
            let l = &self.lines[j];
            html.append("<p class=\"detail-line\"><span class=\"detail-line-root\">");
            html.append(l.key.as_str());
            html.append("</span>: ");
            html.append(l.value.as_str());
            html.append("</p>\n");
            proof {
                assert(html@ =~= mid + lines_html_prefix(
                    lines_view(self.lines@),
                    j as int + 1,
                ));
            }
            j = j + 1;
        }
        proof {
            assert(html@ =~= html_info_text(self@));
        }
        html
    }

    /// Replaces the whole snapshot with a freshly probed one.
    pub fn update_self(&mut self, fresh: SystemInfo)
        ensures
            *final(self) == fresh,
    {
        *self = fresh;
    }
}

/// A run of `n` dashes, the separator rule.
pub open spec fn dashes(n: nat) -> Seq<char>
    decreases n,
{
    if n == 0 {
        Seq::empty()
    } else {
        dashes((n - 1) as nat).push('-')
    }
}

/// The HTML for one telemetry line.
pub open spec fn line_html(l: LineView) -> Seq<char> {
    "<p class=\"detail-line\"><span class=\"detail-line-root\">"@ + l.key + "</span>: "@ + l.value
        + "</p>\n"@
}

/// The HTML for the first `n` telemetry lines.
pub open spec fn lines_html_prefix(lines: Seq<LineView>, n: int) -> Seq<char>
    decreases n,
{
    if n <= 0 {
        Seq::empty()
    } else {
        lines_html_prefix(lines, n - 1) + line_html(lines[n - 1])
    }
}

/// The whole HTML fragment for a snapshot.
pub open spec fn html_info_text(s: SystemView) -> Seq<char> {
    "<p class=\"host-header\">noaione<span class=\"host-at\">@</span>"@ + s.host + "</p>\n"@
        + "<p class=\"detail-line\">"@ + dashes((s.host.len() + 8) as nat) + "</p>\n"@
        + lines_html_prefix(s.lines, s.lines.len() as int)
}

pub proof fn lemma_dashes_len(n: nat)
    ensures
        dashes(n).len() == n,
    decreases n,
{
    if n > 0 {
        lemma_dashes_len((n - 1) as nat);
    }
}

/// The separator rule is exactly as long as the visible header text
/// `noaione@<host>`.
pub proof fn lemma_separator_length(s: SystemView)
    ensures
        dashes((s.host.len() + 8) as nat).len() == "noaione@"@.len() + s.host.len(),
{
    reveal_strlit("noaione@");
    lemma_dashes_len((s.host.len() + 8) as nat);
}

/// The CPU brand, logical CPU count and current frequency of the first CPU.
#[derive(Debug)]
pub struct CpuReading {
    pub brand: String,
    pub count: usize,
    pub frequency_mhz: u64,
}

/// The mathematical view of a CPU reading.
#[verifier::ext_equal]
pub ghost struct CpuView {
    pub brand: Seq<char>,
    pub count: nat,
    pub frequency_mhz: nat,
}

impl View for CpuReading {
    type V = CpuView;

    open spec fn view(&self) -> CpuView {
        CpuView {
            brand: self.brand@,
            count: self.count as nat,
            frequency_mhz: self.frequency_mhz as nat,
        }
    }
}

/// Everything one probe of the host hands to the snapshot assembly: the
/// process-lifetime identity strings and the live readings, all plain values.
#[derive(Debug)]
pub struct HostReadings {
    /// OS display string (identity value).
    pub os_display: String,
    /// Host/vendor descriptor (identity value); empty omits the line.
    pub pc_host: String,
    /// Long-form kernel version (identity value).
    pub kernel: String,
    /// Reported hostname (identity value).
    pub hostname: String,
    pub uptime_seconds: u64,
    /// First logical CPU, absent when the host reports none.
    pub cpu: Option<CpuReading>,
    pub used_memory: u64,
    pub total_memory: u64,
    pub used_swap: u64,
    pub total_swap: u64,
    pub disks: Vec<DiskData>,
    pub addresses: Vec<IpAddress>,
}

/// The mathematical view of one set of host readings.
#[verifier::ext_equal]
pub ghost struct ReadingsView {
    pub os_display: Seq<char>,
    pub pc_host: Seq<char>,
    pub kernel: Seq<char>,
    pub hostname: Seq<char>,
    pub uptime_seconds: nat,
    pub cpu: Option<CpuView>,
    pub used_memory: nat,
    pub total_memory: nat,
    pub used_swap: nat,
    pub total_swap: nat,
    pub disks: Seq<DiskView>,
    pub addresses: Seq<IpAddress>,
}

impl View for HostReadings {
    type V = ReadingsView;

    open spec fn view(&self) -> ReadingsView {
        ReadingsView {
            os_display: self.os_display@,
            pc_host: self.pc_host@,
            kernel: self.kernel@,
            hostname: self.hostname@,
            uptime_seconds: self.uptime_seconds as nat,
            cpu: match self.cpu {
                Some(c) => Some(c@),
                None => None,
            },
            used_memory: self.used_memory as nat,
            total_memory: self.total_memory as nat,
            used_swap: self.used_swap as nat,
            total_swap: self.total_swap as nat,
            disks: disks_view(self.disks@),
            addresses: self.addresses@,
        }
    }
}

/// Well-formedness of the readings: used never exceeds total.
pub open spec fn readings_wf(r: ReadingsView) -> bool {
    r.used_memory <= r.total_memory && r.used_swap <= r.total_swap && (forall|i: int|
        0 <= i < r.disks.len() ==> disk_wf(#[trigger] r.disks[i]))
}

/// The text of a used/total pair with its usage percentage.
pub open spec fn memory_value_text(used: nat, total: nat) -> Seq<char> {
    bytes_text(used) + " / "@ + bytes_text(total) + " ("@ + percent_text(used, total) + "%)"@
}

/// The text of the CPU line's value.
pub open spec fn cpu_value_text(c: CpuView) -> Seq<char> {
    c.brand + " ("@ + decimal(c.count) + ") @ "@ + cpu_freq_text(c.frequency_mhz)
}

/// The key of a disk line: bare `Disk` when it is the only one, otherwise
/// tagged with the mount point.
pub open spec fn disk_key_text(mount: Seq<char>, single: bool) -> Seq<char> {
    if single {
        "Disk"@
    } else {
        "Disk ("@ + mount + ")"@
    }
}

/// The disk lines as key/value views.
pub open spec fn disk_line_views(pairs: Seq<(Seq<char>, Seq<char>)>, single: bool) -> Seq<
    LineView,
> {
    pairs.map_values(|p: (Seq<char>, Seq<char>)| LineView { key: disk_key_text(p.1, single), value: p.0 })
}

/// The full ordered line sequence of a snapshot built from the readings:
/// OS, Host, Kernel, Uptime, CPU, Memory, Swap, Disks, Network, each omitted
/// when its source is absent.
pub open spec fn lines_of(r: ReadingsView) -> Seq<LineView> {
    let ps = disk_lines_spec(r.disks);
    seq![LineView { key: "OS"@, value: r.os_display }] + (if r.pc_host.len() > 0 {
        seq![LineView { key: "Host"@, value: r.pc_host }]
    } else {
        Seq::<LineView>::empty()
    }) + seq![LineView { key: "Kernel"@, value: r.kernel }] + seq![
        LineView { key: "Uptime"@, value: uptime_text(r.uptime_seconds) },
    ] + (match r.cpu {
        Some(c) => seq![LineView { key: "CPU"@, value: cpu_value_text(c) }],
        None => Seq::<LineView>::empty(),
    }) + seq![
        LineView {
            key: "Memory"@,
            value: memory_value_text(r.used_memory, r.total_memory),
        },
    ] + seq![
        LineView {
            key: "Swap"@,
            value: if r.total_swap > 0 {
                memory_value_text(r.used_swap, r.total_swap)
            } else {
                "Disabled"@
            },
        },
    ] + disk_line_views(ps, ps.len() == 1) + (match network_line_opt(r.addresses) {
        Some(t) => seq![LineView { key: "Network"@, value: t }],
        None => Seq::<LineView>::empty(),
    })
}

/// The snapshot a probe of the given readings produces.
pub open spec fn snapshot_of(r: ReadingsView) -> SystemView {
    SystemView { host: r.hostname, lines: lines_of(r) }
}

/// Probing identical host state twice yields identical snapshots, in the
/// same fixed line order.
pub proof fn lemma_snapshot_deterministic(a: ReadingsView, b: ReadingsView)
    requires
        a == b,
    ensures
        snapshot_of(a) == snapshot_of(b),
{
}

/// The display rank of a line key: OS, Host, Kernel, Uptime, CPU, Memory,
/// Swap, then the disks, then Network.
pub open spec fn key_rank(k: Seq<char>) -> int {
    if k == "OS"@ {
        0
    } else if k == "Host"@ {
        1
    } else if k == "Kernel"@ {
        2
    } else if k == "Uptime"@ {
        3
    } else if k == "CPU"@ {
        4
    } else if k == "Memory"@ {
        5
    } else if k == "Swap"@ {
        6
    } else if k == "Network"@ {
        8
    } else {
        7
    }
}

spec fn line_rank_at(r: ReadingsView, i: int) -> int {
    let s2: int = if r.pc_host.len() > 0 {
        1
    } else {
        0
    };
    let s5: int = if r.cpu is Some {
        1
    } else {
        0
    };
    let nd = disk_lines_spec(r.disks).len() as int;
    if i < 1 {
        0
    } else if i < 1 + s2 {
        1
    } else if i < 2 + s2 {
        2
    } else if i < 3 + s2 {
        3
    } else if i < 3 + s2 + s5 {
        4
    } else if i < 4 + s2 + s5 {
        5
    } else if i < 5 + s2 + s5 {
        6
    } else if i < 5 + s2 + s5 + nd {
        7
    } else {
        8
    }
}

proof fn lemma_key_rank_at(r: ReadingsView, i: int)
    requires
        0 <= i < lines_of(r).len(),
    ensures
        key_rank(lines_of(r)[i].key) == line_rank_at(r, i),
{
    reveal_strlit("OS");
    reveal_strlit("Host");
    reveal_strlit("Kernel");
    reveal_strlit("Uptime");
    reveal_strlit("CPU");
    reveal_strlit("Memory");
    reveal_strlit("Swap");
    reveal_strlit("Network");
    reveal_strlit("Disk");
    reveal_strlit("Disk (");
    reveal_strlit(")");
    assert("Kernel"@[0] == 'K' && "Uptime"@[0] == 'U' && "Memory"@[0] == 'M' && "Swap"@[0] == 'S'
        && "Host"@[0] == 'H' && "Network"@[0] == 'N' && "Disk"@[0] == 'D' && "CPU"@[0] == 'C'
        && "OS"@[0] == 'O');
    let ls = lines_of(r);
    let ps = disk_lines_spec(r.disks);
    let s2: int = if r.pc_host.len() > 0 {
        1
    } else {
        0
    };
    let s5: int = if r.cpu is Some {
        1
    } else {
        0
    };
    let nd = ps.len() as int;
    if i < 1 {
        assert(ls[i].key == "OS"@);
    } else if i < 1 + s2 {
        assert(ls[i].key == "Host"@);
    } else if i < 2 + s2 {
        assert(ls[i].key == "Kernel"@);
    } else if i < 3 + s2 {
        assert(ls[i].key == "Uptime"@);
    } else if i < 3 + s2 + s5 {
        assert(ls[i].key == "CPU"@);
    } else if i < 4 + s2 + s5 {
        assert(ls[i].key == "Memory"@);
    } else if i < 5 + s2 + s5 {
        assert(ls[i].key == "Swap"@);
    } else if i < 5 + s2 + s5 + nd {
        let k = ls[i].key;
        assert(k == disk_key_text(ps[i - (5 + s2 + s5)].1, ps.len() == 1));
        if ps.len() == 1 {
            assert(k == "Disk"@);
        } else {
            let m = ps[i - (5 + s2 + s5)].1;
            assert(k == "Disk ("@ + m + ")"@);
            assert(k.len() == 7 + m.len());
            assert(k[0] == 'D');
        }
        assert(key_rank(k) == 7);
    } else {
        assert(ls[i].key == "Network"@);
    }
}

/// The lines of every snapshot stand in the fixed display order: OS, Host,
/// Kernel, Uptime, CPU, Memory, Swap, the disks, Network, with absent
/// sources omitted but never reordered.
pub proof fn lemma_lines_ordered(r: ReadingsView)
    ensures
        forall|i: int, j: int|
            0 <= i <= j < lines_of(r).len() ==> key_rank(#[trigger] lines_of(r)[i].key)
                <= key_rank(#[trigger] lines_of(r)[j].key),
{
    assert forall|i: int, j: int|
        0 <= i <= j < lines_of(r).len() implies key_rank(#[trigger] lines_of(r)[i].key)
        <= key_rank(#[trigger] lines_of(r)[j].key) by {
        lemma_key_rank_at(r, i);
        lemma_key_rank_at(r, j);
    }
}

fn memory_value(used: u64, total: u64) -> (r: String)
    requires
        used <= total,
    ensures
        r@ == memory_value_text(used as nat, total as nat),
{
    let mut s = format_bytes(used);
    s.append(" / ");
    s.append(format_bytes(total).as_str());
    s.append(" (");
    s.append(format_percent(used, total).as_str());
    s.append("%)");
    proof {
        assert(s@ =~= memory_value_text(used as nat, total as nat));
    }
    s
}

fn cpu_value(c: &CpuReading) -> (r: String)
    ensures
        r@ == cpu_value_text(c@),
{
    let mut s = c.brand.clone();
    s.append(" (");
    s.append(u64_to_string(c.count as u64).as_str());
    s.append(") @ ");
    s.append(calculate_cpu_freq(c.frequency_mhz).as_str());
    proof {
        assert(s@ =~= cpu_value_text(c@));
    }
    s
}

fn make_line(key: &str, value: String) -> (r: LineInfo)
    ensures
        r@ == (LineView { key: key@, value: value@ }),
{
    LineInfo { key: key.to_owned(), value }
}

/// Assembles a snapshot from one set of host readings. This is the pure part
/// of a probe: the caller gathers the readings, this function alone decides
/// what the snapshot holds.
pub fn get_system_info_by_lines_unlocked(r: &HostReadings) -> (s: SystemInfo)
    requires
        readings_wf(r@),
    ensures
        s@ == snapshot_of(r@),
{
    let mut lines: Vec<LineInfo> = Vec::new();
    lines.push(make_line("OS", r.os_display.clone()));
    if !r.pc_host.as_str().is_empty() {
        lines.push(make_line("Host", r.pc_host.clone()));
    }
    lines.push(make_line("Kernel", r.kernel.clone()));
    lines.push(make_line("Uptime", format_uptime(r.uptime_seconds)));
    match &r.cpu {
        Some(c) => {
            lines.push(make_line("CPU", cpu_value(c)));
        },
        None => {},
    }
    lines.push(make_line("Memory", memory_value(r.used_memory, r.total_memory)));
    if r.total_swap > 0 {
        lines.push(make_line("Swap", memory_value(r.used_swap, r.total_swap)));
    } else {
        lines.push(make_line("Swap", "Disabled".to_owned()));
    }
    let ghost pre = lines_view(lines@);
    proof {
        assert forall|i: int| 0 <= i < r.disks@.len() implies disk_wf(#[trigger] r.disks@[i]@) by {
            assert(disk_wf(r@.disks[i]));
        }
    }
    let dl = disk_lines(&r.disks);
    let ghost gpairs = pairs_view(dl@);
    let single = dl.len() == 1;
    let mut j: usize = 0;
    proof {
        assert(gpairs.take(0) =~= Seq::<(Seq<char>, Seq<char>)>::empty());
        assert(disk_line_views(gpairs.take(0), single) =~= Seq::<LineView>::empty());
        assert(lines_view(lines@) =~= pre + disk_line_views(gpairs.take(0), single));
    }
    while j < dl.len()
        invariant
            j <= dl@.len(),
            gpairs == pairs_view(dl@),
            single == (gpairs.len() == 1),
            lines_view(lines@) == pre + disk_line_views(gpairs.take(j as int), single),
        decreases dl@.len() - j,
    {
        let value = dl[j].0.clone();
        let mount = &dl[j].1;
        let key: String = if single {
            "Disk".to_owned()
        } else {
            let mut k = "Disk (".to_owned();
            k.append(mount.as_str());
            k.append(")");
            k
        };
        proof {
            assert(gpairs[j as int] == (dl@[j as int].0@, dl@[j as int].1@));
            assert(key@ =~= disk_key_text(gpairs[j as int].1, single));
        }
        let ghost old_lines = lines@;
        lines.push(LineInfo { key, value });
        proof {
            let tk1 = gpairs.take(j as int + 1);
            let dv1 = disk_line_views(tk1, single);
            let dv0 = disk_line_views(gpairs.take(j as int), single);
            lemma_lines_view_index(old_lines);
            lemma_lines_view_index(lines@);
            assert(gpairs.len() == dl@.len());
            assert(dv1.len() == j + 1);
            assert(dv0.len() == j);
            assert(old_lines.len() == pre.len() + j);
            assert(lines@[lines@.len() - 1]@ == (LineView {
                key: disk_key_text(gpairs[j as int].1, single),
                value: gpairs[j as int].0,
            }));
            assert(dv1[j as int] == (LineView {
                key: disk_key_text(gpairs[j as int].1, single),
                value: gpairs[j as int].0,
            }));
            assert forall|k: int| 0 <= k < lines@.len() implies lines_view(lines@)[k] == (pre
                + dv1)[k] by {
                if k < pre.len() + j {
                    assert(lines@[k] == old_lines[k]);
                    assert(lines_view(old_lines)[k] == (pre + dv0)[k]);
                    if k >= pre.len() {
                        assert(dv0[k - pre.len()] == dv1[k - pre.len()]);
                    }
                }
            }
            assert(lines_view(lines@) =~= pre + dv1);
        }
        j = j + 1;
    }
    proof {
        assert(gpairs.take(gpairs.len() as int) =~= gpairs);
        assert(lines_view(lines@) =~= pre + disk_line_views(gpairs, single));
    }
    let ghost with_disks = lines_view(lines@);
    match network_line(&r.addresses) {
        Some(v) => {
            lines.push(make_line("Network", v));
        },
        None => {},
    }
    let s = SystemInfo { host: r.hostname.clone(), lines };
    proof {
        let rv = r@;
        let ps = disk_lines_spec(rv.disks);
        let seg1 = seq![LineView { key: "OS"@, value: rv.os_display }];
        let seg2 = if rv.pc_host.len() > 0 {
            seq![LineView { key: "Host"@, value: rv.pc_host }]
        } else {
            Seq::<LineView>::empty()
        };
        let seg3 = seq![LineView { key: "Kernel"@, value: rv.kernel }];
        let seg4 = seq![LineView { key: "Uptime"@, value: uptime_text(rv.uptime_seconds) }];
        let seg5 = match rv.cpu {
            Some(c) => seq![LineView { key: "CPU"@, value: cpu_value_text(c) }],
            None => Seq::<LineView>::empty(),
        };
        let seg6 = seq![
            LineView {
                key: "Memory"@,
                value: memory_value_text(rv.used_memory, rv.total_memory),
            },
        ];
        let seg7 = seq![
            LineView {
                key: "Swap"@,
                value: if rv.total_swap > 0 {
                    memory_value_text(rv.used_swap, rv.total_swap)
                } else {
                    "Disabled"@
                },
            },
        ];
        let seg8 = disk_line_views(ps, ps.len() == 1);
        let seg9 = match network_line_opt(rv.addresses) {
            Some(t) => seq![LineView { key: "Network"@, value: t }],
            None => Seq::<LineView>::empty(),
        };
        assert(gpairs == ps);
        assert(pre =~= seg1 + seg2 + seg3 + seg4 + seg5 + seg6 + seg7);
        assert(lines_view(s.lines@) =~= with_disks + seg9);
        assert(lines_view(s.lines@) =~= seg1 + seg2 + seg3 + seg4 + seg5 + seg6 + seg7 + seg8
            + seg9);
        assert(lines_view(s.lines@) =~= lines_of(rv));
        assert(s@ == snapshot_of(rv));
    }
    s
}

} // verus!
