//! The `Disk` lines: mounted filesystems deduplicated by device name (first
//! occurrence wins), with empty and virtual filesystem types skipped, each
//! rendered as `<used> / <total> (<pct>%) - <fstype>`.

use crate::format::bytes_text;
use crate::format::format_bytes;
use crate::format::format_percent;
use crate::format::percent_text;
use crate::text::str_equal;
use vstd::prelude::*;
use vstd::string::StringExecFns;

verus! {

/// One mounted filesystem as the probe reports it.
#[derive(Debug)]
pub struct DiskData {
    /// Device name, the deduplication key.
    pub name: String,
    /// Filesystem type; empty when the host reports none.
    pub fstype: String,
    pub mount_point: String,
    pub total_space: u64,
    pub available_space: u64,
}

/// The mathematical view of one disk.
#[verifier::ext_equal]
pub ghost struct DiskView {
    pub name: Seq<char>,
    pub fstype: Seq<char>,
    pub mount_point: Seq<char>,
    pub total_space: nat,
    pub available_space: nat,
}

impl View for DiskData {
    type V = DiskView;

    open spec fn view(&self) -> DiskView {
        DiskView {
            name: self.name@,
            fstype: self.fstype@,
            mount_point: self.mount_point@,
            total_space: self.total_space as nat,
            available_space: self.available_space as nat,
        }
    }
}

/// A disk report is well formed when the available space does not exceed the
/// total.
pub open spec fn disk_wf(d: DiskView) -> bool {
    d.available_space <= d.total_space
}

/// The virtual and temporary filesystem types that are never shown.
pub open spec fn is_virtual_fs(t: Seq<char>) -> bool {
    t == "tmpfs"@ || t == "devtmpfs"@ || t == "overlay"@ || t == "squashfs"@
}

/// A disk is shown when its filesystem type is present and not virtual.
pub open spec fn disk_shown(d: DiskView) -> bool {
    d.fstype.len() > 0 && !is_virtual_fs(d.fstype)
}

/// The text of one disk's value: used and total space with the usage
/// percentage and the filesystem type.
pub open spec fn disk_value_text(d: DiskView) -> Seq<char> {
    let used = (d.total_space - d.available_space) as nat;
    bytes_text(used) + " / "@ + bytes_text(d.total_space) + " ("@ + percent_text(
        used,
        d.total_space,
    ) + "%) - "@ + d.fstype
}

/// The emitted disk lines as (value text, mount point) pairs: device names
/// already in `seen` are skipped, a first occurrence reserves its name even
/// when its filesystem type hides it, and order is preserved.
pub open spec fn disk_lines_rec(
    disks: Seq<DiskView>,
    seen: Set<Seq<char>>,
) -> Seq<(Seq<char>, Seq<char>)>
    decreases disks.len(),
{
    if disks.len() == 0 {
        Seq::empty()
    } else {
        let d = disks[0];
        let rest = disks.drop_first();
        if seen.contains(d.name) {
            disk_lines_rec(rest, seen)
        } else {
            let seen2 = seen.insert(d.name);
            if disk_shown(d) {
                seq![(disk_value_text(d), d.mount_point)] + disk_lines_rec(rest, seen2)
            } else {
                disk_lines_rec(rest, seen2)
            }
        }
    }
}

/// The emitted disk lines for a fresh enumeration.
pub open spec fn disk_lines_spec(disks: Seq<DiskView>) -> Seq<(Seq<char>, Seq<char>)> {
    disk_lines_rec(disks, Set::empty())
}

/// The views of a sequence of disks.
pub open spec fn disks_view(s: Seq<DiskData>) -> Seq<DiskView> {
    s.map_values(|d: DiskData| d@)
}

/// The views of a sequence of string pairs.
pub open spec fn pairs_view(s: Seq<(String, String)>) -> Seq<(Seq<char>, Seq<char>)> {
    s.map_values(|p: (String, String)| (p.0@, p.1@))
}

fn build_disk_value(d: &DiskData) -> (r: String)
    requires
        disk_wf(d@),
    ensures
        r@ == disk_value_text(d@),
{
    let used = d.total_space - d.available_space;
    let mut s = format_bytes(used);
    s.append(" / ");
    s.append(format_bytes(d.total_space).as_str());
    s.append(" (");
    s.append(format_percent(used, d.total_space).as_str());
    s.append("%) - ");
    s.append(d.fstype.as_str());
    proof {
        assert(s@ =~= disk_value_text(d@));
    }
    s
}

fn contains_string(v: &Vec<String>, s: &String) -> (b: bool)
    ensures
        b == exists|j: int| 0 <= j < v@.len() && v@[j]@ == s@,
{
    let mut i: usize = 0;
    while i < v.len()
        invariant
            i <= v@.len(),
            forall|j: int| 0 <= j < i ==> v@[j]@ != s@,
        decreases v@.len() - i,
    {
        let e = &v[i];
        if str_equal(e.as_str(), s.as_str()) {
            proof {
                assert(v@[i as int]@ == s@);
            }
            return true;
        }
        i = i + 1;
    }
    false
}

/// Enumerates the disk lines to emit, in enumeration order.
pub fn disk_lines(disks: &Vec<DiskData>) -> (r: Vec<(String, String)>)
    requires
        forall|i: int| 0 <= i < disks@.len() ==> disk_wf(#[trigger] disks@[i]@),
    ensures
        pairs_view(r@) == disk_lines_spec(disks_view(disks@)),
{
    let ghost all = disks_view(disks@);
    let mut r: Vec<(String, String)> = Vec::new();
    let mut seen: Vec<String> = Vec::new();
    let ghost mut gseen = Set::<Seq<char>>::empty();
    let mut i: usize = 0;
    proof {
        assert(all.skip(0) =~= all);
        assert(pairs_view(r@) =~= Seq::<(Seq<char>, Seq<char>)>::empty());
    }
    while i < disks.len()
        invariant
            i <= disks@.len(),
            all == disks_view(disks@),
            forall|k: int| 0 <= k < disks@.len() ==> disk_wf(#[trigger] disks@[k]@),
            forall|x: Seq<char>|
                gseen.contains(x) <==> exists|j: int| 0 <= j < seen@.len() && seen@[j]@ == x,
            pairs_view(r@) + disk_lines_rec(all.skip(i as int), gseen) == disk_lines_spec(all),
        decreases disks@.len() - i,
    {
        let d = &disks[i];
        proof {
            assert(all.skip(i as int).drop_first() =~= all.skip(i as int + 1));
            assert(all.skip(i as int)[0] == all[i as int]);
            assert(all[i as int] == disks@[i as int]@);
        }
        if contains_string(&seen, &d.name) {
            proof {
                assert(gseen.contains(d.name@));
            }
        } else {
            proof {
                assert(!gseen.contains(d.name@));
            }
            let ghost old_seen = seen@;
            let ghost old_gseen = gseen;
            seen.push(d.name.clone());
            proof {
                gseen = gseen.insert(d.name@);
                assert forall|x: Seq<char>|
                    gseen.contains(x) <==> exists|j: int|
                        0 <= j < seen@.len() && seen@[j]@ == x by {
                    if gseen.contains(x) {
                        if old_gseen.contains(x) {
                            let j = choose|j: int| 0 <= j < old_seen.len() && old_seen[j]@ == x;
                            assert(seen@[j]@ == x);
                        } else {
                            assert(seen@[seen@.len() - 1]@ == x);
                        }
                    }
                    if exists|j: int| 0 <= j < seen@.len() && seen@[j]@ == x {
                        let j = choose|j: int| 0 <= j < seen@.len() && seen@[j]@ == x;
                        if j < old_seen.len() {
                            assert(old_seen[j]@ == x);
                        } else {
                            assert(x == d.name@);
                        }
                    }
                }
            }
            let fstype_empty = d.fstype.as_str().is_empty();
            let virtual_fs = str_equal(d.fstype.as_str(), "tmpfs") || str_equal(
                d.fstype.as_str(),
                "devtmpfs",
            ) || str_equal(d.fstype.as_str(), "overlay") || str_equal(
                d.fstype.as_str(),
                "squashfs",
            );
            if !fstype_empty && !virtual_fs {
                let ghost old_r = r@;
                let value = build_disk_value(d);
                let mount = d.mount_point.clone();
                r.push((value, mount));
                proof {
                    assert(pairs_view(r@) =~= pairs_view(old_r).push(
                        (disk_value_text(d@), d@.mount_point),
                    ));
                    assert(pairs_view(old_r).push((disk_value_text(d@), d@.mount_point))
                        + disk_lines_rec(all.skip(i as int + 1), gseen) =~= pairs_view(old_r) + (
                    seq![(disk_value_text(d@), d@.mount_point)] + disk_lines_rec(
                        all.skip(i as int + 1),
                        gseen,
                    )));
                }
            }
        }
        i = i + 1;
    }
    proof {
        assert(all.skip(all.len() as int) =~= Seq::<DiskView>::empty());
        assert(pairs_view(r@) + Seq::<(Seq<char>, Seq<char>)>::empty() =~= pairs_view(r@));
    }
    r
}

/// Two disk entries with the same device name yield exactly one line: the
/// first occurrence wins, whatever the second one's mount point.
pub proof fn lemma_disk_dedup(d1: DiskView, d2: DiskView)
    requires
        d1.name == d2.name,
        disk_shown(d1),
    ensures
        disk_lines_spec(seq![d1, d2]).len() == 1,
        disk_lines_spec(seq![d1, d2])[0] == (disk_value_text(d1), d1.mount_point),
{
    reveal_with_fuel(disk_lines_rec, 3);
    let s = seq![d1, d2];
    assert(s.drop_first() =~= seq![d2]);
    assert(seq![d2].drop_first() =~= Seq::<DiskView>::empty());
    let seen2 = Set::<Seq<char>>::empty().insert(d1.name);
    assert(seen2.contains(d2.name));
    assert(disk_lines_rec(seq![d2], seen2) =~= Seq::<(Seq<char>, Seq<char>)>::empty());
    assert(disk_lines_spec(s) =~= seq![(disk_value_text(d1), d1.mount_point)]);
}

} // verus!
