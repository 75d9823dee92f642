//! Human-readable rendering of byte counts, uptimes, CPU frequencies and
//! usage percentages. All arithmetic is exact integer arithmetic; fractional
//! digits come from scaling and half-up rounding.

use crate::text::decimal;
use crate::text::u64_to_string;
use vstd::prelude::*;
use vstd::string::StringExecFns;

verus! {

/// The plural marker appended to a unit word.
pub open spec fn plural_suffix(n: nat) -> Seq<char> {
    if n == 1 {
        ""@
    } else {
        "s"@
    }
}

fn plural(n: u64) -> (r: &'static str)
    ensures
        r@ == plural_suffix(n as nat),
{
    if n == 1 {
        ""
    } else {
        "s"
    }
}

/// Uptime rendered as the two largest units, e.g. `2 days, 3 hours, 12 minutes`,
/// with singular/plural agreement, falling back to seconds under a minute.
pub open spec fn uptime_text(n: nat) -> Seq<char> {
    let days = n / 86400;
    let hours = (n % 86400) / 3600;
    let minutes = (n % 3600) / 60;
    let secs = n % 60;
    if days > 0 {
        decimal(days) + " day"@ + plural_suffix(days) + ", "@ + decimal(hours) + " hour"@
            + plural_suffix(hours) + ", "@ + decimal(minutes) + " minute"@ + plural_suffix(
            minutes,
        )
    } else if hours > 0 {
        decimal(hours) + " hour"@ + plural_suffix(hours) + ", "@ + decimal(minutes) + " minute"@
            + plural_suffix(minutes)
    } else if minutes > 0 {
        decimal(minutes) + " minute"@ + plural_suffix(minutes) + ", "@ + decimal(secs)
            + " second"@ + plural_suffix(secs)
    } else {
        decimal(secs) + " second"@ + plural_suffix(secs)
    }
}

/// Formats seconds since boot as the largest two non-zero units.
pub fn format_uptime(seconds: u64) -> (r: String)
    ensures
        r@ == uptime_text(seconds as nat),
{
    let days = seconds / 86400;
    let hours = (seconds % 86400) / 3600;
    let minutes = (seconds % 3600) / 60;
    let secs = seconds % 60;
    let mut r = String::new();
    if days > 0 {
        r.append(u64_to_string(days).as_str());
        r.append(" day");
        r.append(plural(days));
        r.append(", ");
        r.append(u64_to_string(hours).as_str());
        r.append(" hour");
        r.append(plural(hours));
        r.append(", ");
        r.append(u64_to_string(minutes).as_str());
        r.append(" minute");
        r.append(plural(minutes));
    } else if hours > 0 {
        r.append(u64_to_string(hours).as_str());
        r.append(" hour");
        r.append(plural(hours));
        r.append(", ");
        r.append(u64_to_string(minutes).as_str());
        r.append(" minute");
        r.append(plural(minutes));
    } else if minutes > 0 {
        r.append(u64_to_string(minutes).as_str());
        r.append(" minute");
        r.append(plural(minutes));
        r.append(", ");
        r.append(u64_to_string(secs).as_str());
        r.append(" second");
        r.append(plural(secs));
    } else {
        r.append(u64_to_string(secs).as_str());
        r.append(" second");
        r.append(plural(secs));
    }
    proof {
        assert(r@ =~= uptime_text(seconds as nat));
    }
    r
}

/// Index of the binary unit a byte count is displayed in: 0 for B up to 6 for EiB.
pub open spec fn unit_index(b: nat) -> nat {
    if b < 1024 {
        0
    } else if b < 1048576 {
        1
    } else if b < 1073741824 {
        2
    } else if b < 1099511627776 {
        3
    } else if b < 1125899906842624 {
        4
    } else if b < 1152921504606846976 {
        5
    } else {
        6
    }
}

/// Bytes per unit at index `k`.
pub open spec fn unit_divisor(k: nat) -> nat {
    if k == 0 {
        1
    } else if k == 1 {
        1024
    } else if k == 2 {
        1048576
    } else if k == 3 {
        1073741824
    } else if k == 4 {
        1099511627776
    } else if k == 5 {
        1125899906842624
    } else {
        1152921504606846976
    }
}

/// The unit's display name.
pub open spec fn unit_name(k: nat) -> Seq<char> {
    if k == 0 {
        "B"@
    } else if k == 1 {
        "KiB"@
    } else if k == 2 {
        "MiB"@
    } else if k == 3 {
        "GiB"@
    } else if k == 4 {
        "TiB"@
    } else if k == 5 {
        "PiB"@
    } else {
        "EiB"@
    }
}

/// The byte count scaled to tenths of its display unit, rounded half-up.
pub open spec fn scaled_tenths(b: nat) -> nat {
    let d = unit_divisor(unit_index(b));
    (b * 10 + d / 2) / d
}

/// A byte count as text: exact below 1 KiB, one decimal place above,
/// e.g. `512 B`, `1.0 KiB`, `1.5 MiB`.
pub open spec fn bytes_text(b: nat) -> Seq<char> {
    if b < 1024 {
        decimal(b) + " B"@
    } else {
        let t = scaled_tenths(b);
        decimal(t / 10) + "."@ + decimal(t % 10) + " "@ + unit_name(unit_index(b))
    }
}

fn byte_unit(bytes: u64) -> (kd: (u64, u64))
    requires
        bytes >= 1024,
    ensures
        kd.0 == unit_index(bytes as nat),
        kd.1 == unit_divisor(unit_index(bytes as nat)),
        kd.1 >= 1024,
        kd.0 == 6 || (bytes as nat) < 1024 * (kd.1 as nat),
{
    if bytes < 1048576 {
        (1, 1024)
    } else if bytes < 1073741824 {
        (2, 1048576)
    } else if bytes < 1099511627776 {
        (3, 1073741824)
    } else if bytes < 1125899906842624 {
        (4, 1099511627776)
    } else if bytes < 1152921504606846976 {
        (5, 1125899906842624)
    } else {
        (6, 1152921504606846976)
    }
}

fn unit_suffix(k: u64) -> (r: &'static str)
    requires
        1 <= k <= 6,
    ensures
        r@ == unit_name(k as nat),
{
    if k == 1 {
        "KiB"
    } else if k == 2 {
        "MiB"
    } else if k == 3 {
        "GiB"
    } else if k == 4 {
        "TiB"
    } else if k == 5 {
        "PiB"
    } else {
        "EiB"
    }
}

/// Formats a byte count with binary units.
pub fn format_bytes(bytes: u64) -> (r: String)
    ensures
        r@ == bytes_text(bytes as nat),
{
    if bytes < 1024 {
        let mut r = u64_to_string(bytes);
        r.append(" B");
        proof {
            assert(r@ =~= bytes_text(bytes as nat));
        }
        r
    } else {
        let kd = byte_unit(bytes);
        let k = kd.0;
        let d = kd.1;
        let t128: u128 = ((bytes as u128) * 10 + (d as u128) / 2) / (d as u128);
        proof {
            let b: int = bytes as int;
            let dd: int = d as int;
            if k == 6 {
                assert(b * 10 + dd / 2 < 163841 * dd) by (nonlinear_arith)
                    requires
                        b <= 0xFFFF_FFFF_FFFF_FFFFu64,
                        dd == 1152921504606846976,
                ;
            } else {
                assert(b * 10 + dd / 2 < 163841 * dd) by (nonlinear_arith)
                    requires
                        b < 1024 * dd,
                        dd >= 1024,
                ;
            }
            assert((b * 10 + dd / 2) / dd < 163841) by (nonlinear_arith)
                requires
                    b * 10 + dd / 2 < 163841 * dd,
                    dd >= 1024,
            ;
            assert(t128 < 163841);
        }
        let t = t128 as u64;
        let mut r = u64_to_string(t / 10);
        r.append(".");
        r.append(u64_to_string(t % 10).as_str());
        r.append(" ");
        r.append(unit_suffix(k));
        proof {
            assert(t as nat == scaled_tenths(bytes as nat));
            assert(r@ =~= bytes_text(bytes as nat));
        }
        r
    }
}

/// Two-digit rendering with a leading zero, for values below 100.
pub open spec fn two_digits(n: nat) -> Seq<char> {
    if n < 10 {
        "0"@ + decimal(n)
    } else {
        decimal(n)
    }
}

/// A CPU frequency in MHz as text: plain MHz below 1 GHz; otherwise GHz,
/// with two decimals unless the value is a whole number of GHz.
pub open spec fn cpu_freq_text(mhz: nat) -> Seq<char> {
    if mhz >= 1000 {
        if mhz % 1000 == 0 {
            decimal(mhz / 1000) + " GHz"@
        } else {
            let h = mhz / 10 + (if mhz % 10 >= 5 {
                1nat
            } else {
                0nat
            });
            decimal(h / 100) + "."@ + two_digits(h % 100) + " GHz"@
        }
    } else {
        decimal(mhz) + " MHz"@
    }
}

/// Formats a CPU frequency given in MHz.
pub fn calculate_cpu_freq(freq: u64) -> (r: String)
    ensures
        r@ == cpu_freq_text(freq as nat),
{
    if freq >= 1000 {
        if freq % 1000 == 0 {
            let mut r = u64_to_string(freq / 1000);
            r.append(" GHz");
            proof {
                assert(r@ =~= cpu_freq_text(freq as nat));
            }
            r
        } else {
            let h = freq / 10 + (if freq % 10 >= 5 {
                1
            } else {
                0
            });
            let mut r = u64_to_string(h / 100);
            r.append(".");
            if h % 100 < 10 {
                r.append("0");
            }
            r.append(u64_to_string(h % 100).as_str());
            r.append(" GHz");
            proof {
                assert(r@ =~= cpu_freq_text(freq as nat));
            }
            r
        }
    } else {
        let mut r = u64_to_string(freq);
        r.append(" MHz");
        proof {
            assert(r@ =~= cpu_freq_text(freq as nat));
        }
        r
    }
}

/// Usage as tenths of a percent, rounded half-up; zero when the total is zero.
pub open spec fn percent_tenths(used: nat, total: nat) -> nat {
    if total == 0 {
        0
    } else {
        (used * 2000 + total) / (2 * total)
    }
}

/// Usage as a percentage with one decimal place, e.g. `42.5`.
pub open spec fn percent_text(used: nat, total: nat) -> Seq<char> {
    let t = percent_tenths(used, total);
    decimal(t / 10) + "."@ + decimal(t % 10)
}

/// Formats `used` out of `total` as a percentage with one decimal place.
pub fn format_percent(used: u64, total: u64) -> (r: String)
    requires
        used <= total,
    ensures
        r@ == percent_text(used as nat, total as nat),
{
    let t: u64 = if total == 0 {
        0
    } else {
        let t128: u128 = ((used as u128) * 2000 + (total as u128)) / (2 * (total as u128));
        proof {
            let u: int = used as int;
            let tt: int = total as int;
            assert((u * 2000 + tt) / (2 * tt) <= 1000) by (nonlinear_arith)
                requires
                    u <= tt,
                    tt >= 1,
            ;
            assert(t128 <= 1000);
        }
        t128 as u64
    };
    let mut r = u64_to_string(t / 10);
    r.append(".");
    r.append(u64_to_string(t % 10).as_str());
    proof {
        assert(t as nat == percent_tenths(used as nat, total as nat));
        assert(r@ =~= percent_text(used as nat, total as nat));
    }
    r
}

} // verus!
