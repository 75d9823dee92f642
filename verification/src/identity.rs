//! Identity strings computed once per process: the OS display name, with
//! vendor marketing names resolved from an ordered version-prefix table, and
//! the host/vendor descriptor assembled from raw firmware fields.

use crate::text::opt_text;
use crate::text::starts_with_spec;
use crate::text::str_equal;
use crate::text::str_starts_with;
use crate::text::trim_spec;
use crate::text::trim_str;
use vstd::prelude::*;
use vstd::string::StringExecFns;

verus! {

/// The marketing family and codename for a Darwin version string, found by
/// testing prefixes top to bottom. The order is significant: more specific
/// prefixes such as `10.16` stand before `10.1`, which would shadow them.
pub open spec fn mac_entry(v: Seq<char>) -> Option<(Seq<char>, Seq<char>)> {
    if starts_with_spec(v, "26"@) {
        Some(("macOS"@, "Tahoe"@))
    } else if starts_with_spec(v, "15"@) {
        Some(("macOS"@, "Sequoia"@))
    } else if starts_with_spec(v, "14"@) {
        Some(("macOS"@, "Sonoma"@))
    } else if starts_with_spec(v, "13"@) {
        Some(("macOS"@, "Ventura"@))
    } else if starts_with_spec(v, "12"@) {
        Some(("macOS"@, "Monterey"@))
    } else if starts_with_spec(v, "11"@) {
        Some(("macOS"@, "Big Sur"@))
    } else if starts_with_spec(v, "10.16"@) {
        Some(("macOS"@, "Big Sur"@))
    } else if starts_with_spec(v, "10.15"@) {
        Some(("macOS"@, "Catalina"@))
    } else if starts_with_spec(v, "10.14"@) {
        Some(("macOS"@, "Mojave"@))
    } else if starts_with_spec(v, "10.13"@) {
        Some(("macOS"@, "High Sierra"@))
    } else if starts_with_spec(v, "10.12"@) {
        Some(("macOS"@, "Sierra"@))
    } else if starts_with_spec(v, "10.11"@) {
        Some(("OS X"@, "El Capitan"@))
    } else if starts_with_spec(v, "10.10"@) {
        Some(("OS X"@, "Yosemite"@))
    } else if starts_with_spec(v, "10.9"@) {
        Some(("OS X"@, "Mavericks"@))
    } else if starts_with_spec(v, "10.8"@) {
        Some(("OS X"@, "Mountain Lion"@))
    } else if starts_with_spec(v, "10.7"@) {
        Some(("Mac OS X"@, "Lion"@))
    } else if starts_with_spec(v, "10.6"@) {
        Some(("Mac OS X"@, "Snow Leopard"@))
    } else if starts_with_spec(v, "10.5"@) {
        Some(("Mac OS X"@, "Leopard"@))
    } else if starts_with_spec(v, "10.4"@) {
        Some(("Mac OS X"@, "Tiger"@))
    } else if starts_with_spec(v, "10.3"@) {
        Some(("Mac OS X"@, "Panther"@))
    } else if starts_with_spec(v, "10.2"@) {
        Some(("Mac OS X"@, "Jaguar"@))
    } else if starts_with_spec(v, "10.1"@) {
        Some(("Mac OS X"@, "Puma"@))
    } else if starts_with_spec(v, "10.0"@) {
        Some(("Mac OS X"@, "Cheetah"@))
    } else {
        None
    }
}

/// The OS display string: platform name plus version, with Darwin versions
/// resolved to their marketing names; `Unknown` when no name is reported;
/// bare `macOS` for Darwin without a version; bare `Darwin` for a Darwin
/// version outside the table.
pub open spec fn os_text(name: Option<Seq<char>>, version: Option<Seq<char>>) -> Seq<char> {
    let base = match name {
        Some(n) => n,
        None => "Unknown"@,
    };
    if base == "Darwin"@ {
        match version {
            Some(v) => match mac_entry(v) {
                Some(fc) => fc.0 + " "@ + v + " "@ + fc.1,
                None => base,
            },
            None => "macOS"@,
        }
    } else {
        match version {
            Some(v) => base + " "@ + v,
            None => base,
        }
    }
}

fn mac_string(family: &str, v: &str, code: &str) -> (r: String)
    ensures
        r@ == family@ + " "@ + v@ + " "@ + code@,
{
    let mut r = family.to_owned();
    r.append(" ");
    r.append(v);
    r.append(" ");
    r.append(code);
    r
}

/// Resolves the OS display string from the reported platform name and version.
pub fn os_display(name: Option<String>, version: Option<String>) -> (r: String)
    ensures
        r@ == os_text(opt_text(name), opt_text(version)),
{
    let base: String = match name {
        Some(n) => n,
        None => "Unknown".to_owned(),
    };
    if str_equal(base.as_str(), "Darwin") {
        match version {
            Some(v) => {
                let s = v.as_str();
                if str_starts_with(s, "26") {
                    mac_string("macOS", s, "Tahoe")
                } else if str_starts_with(s, "15") {
                    mac_string("macOS", s, "Sequoia")
                } else if str_starts_with(s, "14") {
                    mac_string("macOS", s, "Sonoma")
                } else if str_starts_with(s, "13") {
                    mac_string("macOS", s, "Ventura")
                } else if str_starts_with(s, "12") {
                    mac_string("macOS", s, "Monterey")
                } else if str_starts_with(s, "11") {
                    mac_string("macOS", s, "Big Sur")
                } else if str_starts_with(s, "10.16") {
                    mac_string("macOS", s, "Big Sur")
                } else if str_starts_with(s, "10.15") {
                    mac_string("macOS", s, "Catalina")
                } else if str_starts_with(s, "10.14") {
                    mac_string("macOS", s, "Mojave")
                } else if str_starts_with(s, "10.13") {
                    mac_string("macOS", s, "High Sierra")
                } else if str_starts_with(s, "10.12") {
                    mac_string("macOS", s, "Sierra")
                } else if str_starts_with(s, "10.11") {
                    mac_string("OS X", s, "El Capitan")
                } else if str_starts_with(s, "10.10") {
                    mac_string("OS X", s, "Yosemite")
                } else if str_starts_with(s, "10.9") {
                    mac_string("OS X", s, "Mavericks")
                } else if str_starts_with(s, "10.8") {
                    mac_string("OS X", s, "Mountain Lion")
                } else if str_starts_with(s, "10.7") {
                    mac_string("Mac OS X", s, "Lion")
                } else if str_starts_with(s, "10.6") {
                    mac_string("Mac OS X", s, "Snow Leopard")
                } else if str_starts_with(s, "10.5") {
                    mac_string("Mac OS X", s, "Leopard")
                } else if str_starts_with(s, "10.4") {
                    mac_string("Mac OS X", s, "Tiger")
                } else if str_starts_with(s, "10.3") {
                    mac_string("Mac OS X", s, "Panther")
                } else if str_starts_with(s, "10.2") {
                    mac_string("Mac OS X", s, "Jaguar")
                } else if str_starts_with(s, "10.1") {
                    mac_string("Mac OS X", s, "Puma")
                } else if str_starts_with(s, "10.0") {
                    mac_string("Mac OS X", s, "Cheetah")
                } else {
                    base
                }
            },
            None => "macOS".to_owned(),
        }
    } else {
        match version {
            Some(v) => {
                let mut r = base;
                r.append(" ");
                r.append(v.as_str());
                r
            },
            None => base,
        }
    }
}

/// The host/vendor descriptor assembled from the raw firmware fields. Each
/// field is trimmed and skipped when empty; a product name that begins with
/// the virtualization placeholder `Standard PC` earns a `KVM/QEMU` marker;
/// the version is parenthesized; the joined result is trimmed once more.
pub open spec fn host_text(
    family: Option<Seq<char>>,
    name: Option<Seq<char>>,
    version: Option<Seq<char>>,
) -> Seq<char> {
    let part1 = match family {
        Some(f) => if trim_spec(f).len() > 0 {
            trim_spec(f) + " "@
        } else {
            Seq::<char>::empty()
        },
        None => Seq::<char>::empty(),
    };
    let part2 = match name {
        Some(n) => if trim_spec(n).len() > 0 {
            (if starts_with_spec(trim_spec(n), "Standard PC"@) {
                "KVM/QEMU "@
            } else {
                Seq::<char>::empty()
            }) + trim_spec(n) + " "@
        } else {
            Seq::<char>::empty()
        },
        None => Seq::<char>::empty(),
    };
    let part3 = match version {
        Some(v) => if trim_spec(v).len() > 0 {
            "("@ + trim_spec(v) + ") "@
        } else {
            Seq::<char>::empty()
        },
        None => Seq::<char>::empty(),
    };
    trim_spec(part1 + part2 + part3)
}

/// Assembles the host/vendor descriptor from the raw firmware fields
/// (product family, product name, product version), each optional.
pub fn get_pc_host(
    family: Option<String>,
    name: Option<String>,
    version: Option<String>,
) -> (r: String)
    ensures
        r@ == host_text(opt_text(family), opt_text(name), opt_text(version)),
{
    let ghost gfamily = opt_text(family);
    let ghost gname = opt_text(name);
    let ghost gversion = opt_text(version);
    let mut merged = String::new();
    match family {
        Some(f) => {
            let t = trim_str(f.as_str());
            if t.unicode_len() > 0 {
                merged.append(t.as_str());
                merged.append(" ");
            }
        },
        None => {},
    }
    match name {
        Some(n) => {
            let t = trim_str(n.as_str());
            if t.unicode_len() > 0 {
                if str_starts_with(t.as_str(), "Standard PC") {
                    merged.append("KVM/QEMU ");
                }
                merged.append(t.as_str());
                merged.append(" ");
            }
        },
        None => {},
    }
    match version {
        Some(v) => {
            let t = trim_str(v.as_str());
            if t.unicode_len() > 0 {
                merged.append("(");
                merged.append(t.as_str());
                merged.append(") ");
            }
        },
        None => {},
    }
    proof {
        let part1 = match gfamily {
            Some(f) => if trim_spec(f).len() > 0 {
                trim_spec(f) + " "@
            } else {
                Seq::<char>::empty()
            },
            None => Seq::<char>::empty(),
        };
        let part2 = match gname {
            Some(n) => if trim_spec(n).len() > 0 {
                (if starts_with_spec(trim_spec(n), "Standard PC"@) {
                    "KVM/QEMU "@
                } else {
                    Seq::<char>::empty()
                }) + trim_spec(n) + " "@
            } else {
                Seq::<char>::empty()
            },
            None => Seq::<char>::empty(),
        };
        let part3 = match gversion {
            Some(v) => if trim_spec(v).len() > 0 {
                "("@ + trim_spec(v) + ") "@
            } else {
                Seq::<char>::empty()
            },
            None => Seq::<char>::empty(),
        };
        assert(merged@ =~= part1 + part2 + part3);
        assert(host_text(gfamily, gname, gversion) == trim_spec(part1 + part2 + part3));
    }
    let r = trim_str(merged.as_str());
    r
}

} // verus!
