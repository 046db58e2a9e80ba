//! The device listing: ports grouped by physical device, EDL devices first.

use crate::base::types::{clone_opt_string, DeviceInfo, DeviceMode};
use crate::text::{chars_of, opt_view, str_eq, str_trim, string_of_chars, to_owned_string, trimmed};
use crate::transport::device::{serial_keys, with_serial, DeviceEnumerator};
use vstd::prelude::*;

verus! {

/// What the USB bus tells of a device beyond its ports.
#[derive(Debug, Clone)]
pub struct DeviceExtra {
    pub manufacturer: Option<String>,
    pub location: Option<String>,
}

/// The ports of one physical device.
#[derive(Debug)]
pub struct DeviceGroup {
    pub serial: Option<String>,
    pub vid: u16,
    pub pid: u16,
    /// Port name, mode and description of each port.
    pub ports: Vec<(String, DeviceMode, String)>,
    pub extra: DeviceExtra,
}

/// A port as plain values.
pub type PortView = (Seq<char>, DeviceMode, Seq<char>);

/// A group as plain values (without what the bus adds).
pub struct GroupView {
    pub serial: Option<Seq<char>>,
    pub vid: u16,
    pub pid: u16,
    pub ports: Seq<PortView>,
}

pub open spec fn group_view(g: DeviceGroup) -> GroupView {
    GroupView {
        serial: opt_view(g.serial),
        vid: g.vid,
        pid: g.pid,
        ports: g.ports@.map_values(|p: (String, DeviceMode, String)| (p.0@, p.1, p.2@)),
    }
}

/// The order of modes within a group: EDL, DIAG, the rest.
pub open spec fn mode_rank(m: DeviceMode) -> nat {
    match m {
        DeviceMode::Edl => 0,
        DeviceMode::Diag => 1,
        _ => 2,
    }
}

/// The devices of `ds` with mode rank `r`, in order.
pub open spec fn of_rank(ds: Seq<DeviceInfo>, r: nat) -> Seq<DeviceInfo>
    decreases ds.len(),
{
    if ds.len() == 0 {
        seq![]
    } else if mode_rank(ds.last().mode) == r {
        of_rank(ds.drop_last(), r).push(ds.last())
    } else {
        of_rank(ds.drop_last(), r)
    }
}

/// `ds` sorted by mode rank, stably.
pub open spec fn ranked(ds: Seq<DeviceInfo>) -> Seq<DeviceInfo> {
    of_rank(ds, 0) + of_rank(ds, 1) + of_rank(ds, 2)
}

/// The description a listing shows for a port without one.
pub open spec fn fallback_description(m: DeviceMode) -> Seq<char> {
    match m {
        DeviceMode::Edl => "Qualcomm 9008 (EDL)"@,
        DeviceMode::Diag => "Qualcomm DIAG"@,
        _ => "Qualcomm Device"@,
    }
}

/// A port of the listing.
pub open spec fn port_of(d: DeviceInfo) -> PortView {
    (
        d.port@,
        d.mode,
        match d.description {
            Some(s) => s@,
            None => fallback_description(d.mode),
        },
    )
}

/// The group of the ports `ds` of one device (at least one): serial and
/// IDs of its first port in rank order, its ports in rank order.
pub open spec fn group_of(ds: Seq<DeviceInfo>) -> GroupView {
    let s = ranked(ds);
    GroupView {
        serial: opt_view(s[0].serial),
        vid: s[0].vid,
        pid: s[0].pid,
        ports: s.map_values(|d: DeviceInfo| port_of(d)),
    }
}

/// The group has an EDL port.
pub open spec fn has_edl(g: GroupView) -> bool {
    exists|i: int| 0 <= i < g.ports.len() && g.ports[i].1 == DeviceMode::Edl
}

/// The groups of `gs` with (`edl`) or without an EDL port, in order.
pub open spec fn groups_with_edl(gs: Seq<GroupView>, edl: bool) -> Seq<GroupView>
    decreases gs.len(),
{
    if gs.len() == 0 {
        seq![]
    } else if has_edl(gs.last()) == edl {
        groups_with_edl(gs.drop_last(), edl).push(gs.last())
    } else {
        groups_with_edl(gs.drop_last(), edl)
    }
}

/// The groups of the devices, by serial in order of first appearance.
pub open spec fn serial_groups(devs: Seq<DeviceInfo>) -> Seq<GroupView> {
    Seq::new(serial_keys(devs).len(), |k: int| group_of(with_serial(devs, serial_keys(devs)[k])))
}

/// The listing: the groups with an EDL port first, each part in order.
pub open spec fn listing(devs: Seq<DeviceInfo>) -> Seq<GroupView> {
    groups_with_edl(serial_groups(devs), true) + groups_with_edl(serial_groups(devs), false)
}

fn rank_of(m: DeviceMode) -> (r: u8)
    ensures
        r == mode_rank(m),
{
    match m {
        DeviceMode::Edl => 0,
        DeviceMode::Diag => 1,
        _ => 2,
    }
}

fn port_entry(d: &DeviceInfo) -> (r: (String, DeviceMode, String))
    ensures
        (r.0@, r.1, r.2@) == port_of(*d),
{
    let desc = match &d.description {
        Some(s) => s.clone(),
        None => match d.mode {
            DeviceMode::Edl => to_owned_string("Qualcomm 9008 (EDL)"),
            DeviceMode::Diag => to_owned_string("Qualcomm DIAG"),
            _ => to_owned_string("Qualcomm Device"),
        },
    };
    (d.port.clone(), d.mode, desc)
}

proof fn lemma_ranked_len(ds: Seq<DeviceInfo>)
    ensures
        ranked(ds).len() == ds.len(),
    decreases ds.len(),
{
    if ds.len() > 0 {
        lemma_ranked_len(ds.drop_last());
    }
}

fn make_group(ds: &Vec<DeviceInfo>) -> (g: DeviceGroup)
    requires
        ds@.len() > 0,
    ensures
        group_view(g) == group_of(ds@),
        g.extra.manufacturer is None && g.extra.location is None,
{
    let mut sorted: Vec<DeviceInfo> = Vec::new();
    let mut r: u8 = 0;
    while r < 3
        invariant
            r <= 3,
            sorted@ == if r == 0 {
                Seq::<DeviceInfo>::empty()
            } else if r == 1 {
                of_rank(ds@, 0)
            } else if r == 2 {
                of_rank(ds@, 0) + of_rank(ds@, 1)
            } else {
                ranked(ds@)
            },
        decreases 3 - r,
    {
        let ghost base = sorted@;
        let mut i: usize = 0;
        while i < ds.len()
            invariant
                i <= ds@.len(),
                r < 3,
                sorted@ == base + of_rank(ds@.subrange(0, i as int), r as nat),
            decreases ds@.len() - i,
        {
            assert(ds@.subrange(0, i + 1).drop_last() =~= ds@.subrange(0, i as int));
            if rank_of(ds[i].mode) == r {
                sorted.push(ds[i].clone());
            }
            i = i + 1;
        }
        assert(ds@.subrange(0, ds@.len() as int) =~= ds@);
        proof {
            if r == 0 {
                assert(sorted@ =~= of_rank(ds@, 0));
            }
        }
        r = r + 1;
    }
    proof {
        lemma_ranked_len(ds@);
    }
    let mut ports: Vec<(String, DeviceMode, String)> = Vec::new();
    let mut j: usize = 0;
    while j < sorted.len()
        invariant
            j <= sorted@.len(),
            ports@.map_values(|p: (String, DeviceMode, String)| (p.0@, p.1, p.2@)) == sorted@.subrange(0, j as int).map_values(|d: DeviceInfo| port_of(d)),
        decreases sorted@.len() - j,
    {
        let ghost before = ports@;
        let e = port_entry(&sorted[j]);
        assert((e.0@, e.1, e.2@) == port_of(sorted@[j as int]));
        ports.push(e);
        assert(ports@ == before.push(e));
        assert(sorted@.subrange(0, j + 1) =~= sorted@.subrange(0, j as int).push(sorted@[j as int]));
        assert(ports@.map_values(|p: (String, DeviceMode, String)| (p.0@, p.1, p.2@)) =~= before.map_values(
            |p: (String, DeviceMode, String)| (p.0@, p.1, p.2@),
        ).push(port_of(sorted@[j as int])));
        assert(sorted@.subrange(0, j + 1).map_values(|d: DeviceInfo| port_of(d)) =~= sorted@.subrange(
            0,
            j as int,
        ).map_values(|d: DeviceInfo| port_of(d)).push(port_of(sorted@[j as int])));
        assert(ports@.map_values(|p: (String, DeviceMode, String)| (p.0@, p.1, p.2@)) =~= sorted@.subrange(0, j + 1).map_values(|d: DeviceInfo| port_of(d)));
        j = j + 1;
    }
    assert(sorted@.subrange(0, sorted@.len() as int) =~= sorted@);
    let first = &sorted[0];
    let g = DeviceGroup {
        serial: clone_opt_string(&first.serial),
        vid: first.vid,
        pid: first.pid,
        ports,
        extra: DeviceExtra { manufacturer: None, location: None },
    };
    assert(group_view(g).ports =~= group_of(ds@).ports);
    g
}

fn group_has_edl(g: &DeviceGroup) -> (r: bool)
    ensures
        r == has_edl(group_view(*g)),
{
    let ghost gv = group_view(*g);
    let mut i: usize = 0;
    while i < g.ports.len()
        invariant
            i <= g.ports@.len(),
            gv == group_view(*g),
            forall|k: int| 0 <= k < i ==> gv.ports[k].1 != DeviceMode::Edl,
        decreases g.ports@.len() - i,
    {
        if g.ports[i].1 == DeviceMode::Edl {
            assert(gv.ports[i as int].1 == DeviceMode::Edl);
            return true;
        }
        i = i + 1;
    }
    false
}

/// Groups the Qualcomm ports by physical device (serial number), ports in
/// mode order (EDL, DIAG, others), groups with an EDL port first. What the
/// USB bus adds (manufacturer, location) is left empty for the caller.
pub fn group_devices(devices: Vec<DeviceInfo>) -> (r: Vec<DeviceGroup>)
    ensures
        r@.map_values(|g: DeviceGroup| group_view(g)) == listing(devices@),
{
    let by_serial = DeviceEnumerator::group_by_serial(&devices);
    let ghost keys = serial_keys(devices@);
    let ghost all = serial_groups(devices@);
    let mut edl: Vec<DeviceGroup> = Vec::new();
    let mut rest: Vec<DeviceGroup> = Vec::new();
    let mut k: usize = 0;
    while k < by_serial.len()
        invariant
            k <= by_serial@.len(),
            by_serial@.len() == keys.len(),
            keys == serial_keys(devices@),
            all == serial_groups(devices@),
            forall|t: int| 0 <= t < by_serial@.len() ==> #[trigger] by_serial@[t]@ == with_serial(devices@, keys[t]),
            edl@.map_values(|g: DeviceGroup| group_view(g)) == groups_with_edl(all.subrange(0, k as int), true),
            rest@.map_values(|g: DeviceGroup| group_view(g)) == groups_with_edl(all.subrange(0, k as int), false),
        decreases by_serial@.len() - k,
    {
        proof {
            crate::transport::device::lemma_keyed_group_nonempty(devices@, k as int);
            assert(all.subrange(0, k + 1).drop_last() =~= all.subrange(0, k as int));
        }
        let g = make_group(&by_serial[k]);
        assert(group_view(g) == all[k as int]);
        if group_has_edl(&g) {
            let ghost before = edl@;
            edl.push(g);
            assert(edl@.map_values(|g: DeviceGroup| group_view(g)) =~= before.map_values(|g: DeviceGroup| group_view(g)).push(all[k as int]));
        } else {
            let ghost before = rest@;
            rest.push(g);
            assert(rest@.map_values(|g: DeviceGroup| group_view(g)) =~= before.map_values(|g: DeviceGroup| group_view(g)).push(all[k as int]));
        }
        k = k + 1;
    }
    assert(all.subrange(0, all.len() as int) =~= all);
    let ghost e = edl@;
    let ghost r = rest@;
    edl.append(&mut rest);
    assert(edl@ =~= e + r);
    assert(edl@.map_values(|g: DeviceGroup| group_view(g)) =~= e.map_values(|g: DeviceGroup| group_view(g)) + r.map_values(|g: DeviceGroup| group_view(g)));
    edl
}

/// The name a listing shows for a mode.
pub open spec fn mode_name(m: DeviceMode) -> Seq<char> {
    match m {
        DeviceMode::Edl => "EDL"@,
        DeviceMode::Diag => "DIAG"@,
        DeviceMode::Modem => "MODEM"@,
        DeviceMode::Nmea => "NMEA"@,
        DeviceMode::Adb => "ADB"@,
        DeviceMode::Unknown => "UNKNOWN"@,
    }
}

/// The name a listing shows for a mode.
pub fn mode_str(mode: DeviceMode) -> (r: &'static str)
    ensures
        r@ == mode_name(mode),
{
    match mode {
        DeviceMode::Edl => "EDL",
        DeviceMode::Diag => "DIAG",
        DeviceMode::Modem => "MODEM",
        DeviceMode::Nmea => "NMEA",
        DeviceMode::Adb => "ADB",
        DeviceMode::Unknown => "UNKNOWN",
    }
}

/// The title of a group: its serial number, else `Unknown Device`.
pub fn title_str(group: &DeviceGroup) -> (r: String)
    ensures
        r@ == match opt_view(group.serial) {
            Some(s) => s,
            None => "Unknown Device"@,
        },
{
    match &group.serial {
        Some(s) => s.clone(),
        None => to_owned_string("Unknown Device"),
    }
}

/// The last position at or before `i` where `p` occurs in `s`.
pub open spec fn rfind_text(s: Seq<char>, p: Seq<char>, i: int) -> Option<int>
    decreases i + 1,
{
    if i < 0 {
        None
    } else if i + p.len() <= s.len() && s.subrange(i, i + p.len()) == p {
        Some(i)
    } else {
        rfind_text(s, p, i - 1)
    }
}

/// `s` without trailing white space.
pub open spec fn trim_end_ws(s: Seq<char>) -> Seq<char>
    decreases s.len(),
{
    if s.len() > 0 && crate::text::white_space(s.last()) {
        trim_end_ws(s.drop_last())
    } else {
        s
    }
}

/// The number of ASCII digits that begin `s`.
pub open spec fn digit_run(s: Seq<char>) -> nat
    decreases s.len(),
{
    if s.len() > 0 && '0' <= s[0] && s[0] <= '9' {
        1 + digit_run(s.drop_first())
    } else {
        0
    }
}

/// A port description without the trailing `(COMn)` that Windows adds:
/// trimmed, and where it ends in `(COM`, digits and `)`, cut before it.
pub open spec fn cleaned_description(desc: Seq<char>) -> Seq<char> {
    let s = trimmed(desc);
    match rfind_text(s, "(COM"@, s.len() - 4) {
        Some(start) => {
            let after = s.subrange(start + 4, s.len() as int);
            let n = digit_run(after);
            if n > 0 && trimmed(after.subrange(n as int, after.len() as int)) == ")"@ {
                trim_end_ws(s.subrange(0, start))
            } else {
                s
            }
        },
        None => s,
    }
}

proof fn lemma_digit_run_step(s: Seq<char>, k: int)
    requires
        0 <= k < s.len(),
        digit_run(s.subrange(k, s.len() as int)) > 0,
    ensures
        digit_run(s.subrange(k, s.len() as int)) == 1 + digit_run(s.subrange(k + 1, s.len() as int)),
{
    assert(s.subrange(k, s.len() as int).drop_first() =~= s.subrange(k + 1, s.len() as int));
}

fn rfind_com(cs: &Vec<char>) -> (r: Option<usize>)
    ensures
        match r {
            Some(i) => rfind_text(cs@, "(COM"@, cs@.len() - 4) == Some(i as int) && i + 4 <= cs@.len(),
            None => rfind_text(cs@, "(COM"@, cs@.len() - 4) is None,
        },
{
    proof {
        reveal_strlit("(COM");
    }
    let ghost pat = seq!['(', 'C', 'O', 'M'];
    assert("(COM"@ =~= pat);
    let n = cs.len();
    if n < 4 {
        assert(rfind_text(cs@, "(COM"@, n - 4) is None);
        return None;
    }
    let mut j: usize = n - 3;
    while j > 0
        invariant
            n == cs@.len(),
            n >= 4,
            j <= n - 3,
            "(COM"@ == pat,
            pat == seq!['(', 'C', 'O', 'M'],
            rfind_text(cs@, "(COM"@, n - 4) == rfind_text(cs@, "(COM"@, j - 1),
        decreases j,
    {
        let i = j - 1;
        if cs[i] == '(' && cs[i + 1] == 'C' && cs[i + 2] == 'O' && cs[i + 3] == 'M' {
            assert(cs@.subrange(i as int, i + 4) =~= pat);
            return Some(i);
        }
        assert(cs@.subrange(i as int, i + 4) != pat) by {
            if cs@.subrange(i as int, i + 4) == pat {
                assert(cs@.subrange(i as int, i + 4)[0] == pat[0]);
                assert(cs@.subrange(i as int, i + 4)[1] == pat[1]);
                assert(cs@.subrange(i as int, i + 4)[2] == pat[2]);
                assert(cs@.subrange(i as int, i + 4)[3] == pat[3]);
            }
        }
        j = j - 1;
    }
    None
}

/// A port description without the trailing `(COMn)`.
pub fn clean_desc(desc: &str) -> (r: String)
    ensures
        r@ == cleaned_description(desc@),
{
    let s = str_trim(desc);
    let cs = chars_of(s);
    let n = cs.len();
    let start = match rfind_com(&cs) {
        Some(f) => f,
        None => return to_owned_string(s),
    };
    let ghost after = cs@.subrange(start + 4, n as int);
    let mut k: usize = start + 4;
    while k < n && '0' <= cs[k] && cs[k] <= '9'
        invariant
            start + 4 <= k <= n,
            n == cs@.len(),
            digit_run(after) == (k - (start + 4)) + digit_run(cs@.subrange(k as int, n as int)),
            after == cs@.subrange(start + 4, n as int),
        decreases n - k,
    {
        proof {
            assert(cs@.subrange(k as int, n as int)[0] == cs@[k as int]);
            lemma_digit_run_step(cs@, k as int);
        }
        k = k + 1;
    }
    proof {
        if k < n {
            assert(cs@.subrange(k as int, n as int)[0] == cs@[k as int]);
        }
        assert(digit_run(cs@.subrange(k as int, n as int)) == 0);
    }
    let digits = k - (start + 4);
    if digits > 0 {
        let rest = string_of_chars(&cs, k, n);
        assert(after.subrange(digits as int, after.len() as int) =~= cs@.subrange(k as int, n as int));
        if str_eq(str_trim(rest.as_str()), ")") {
            let mut end: usize = start;
            while end > 0 && crate::text::is_white_space(cs[end - 1])
                invariant
                    end <= start <= n,
                    n == cs@.len(),
                    trim_end_ws(cs@.subrange(0, start as int)) == trim_end_ws(cs@.subrange(0, end as int)),
                decreases end,
            {
                assert(cs@.subrange(0, end as int).drop_last() =~= cs@.subrange(0, end - 1));
                end = end - 1;
            }
            proof {
                if end > 0 {
                    assert(cs@.subrange(0, end as int).last() == cs@[end - 1]);
                }
            }
            return string_of_chars(&cs, 0, end);
        }
    }
    to_owned_string(s)
}

proof fn lemma_groups_with_edl_all(gs: Seq<GroupView>, edl: bool)
    ensures
        forall|i: int|
            0 <= i < groups_with_edl(gs, edl).len() ==> has_edl(#[trigger] groups_with_edl(gs, edl)[i]) == edl,
    decreases gs.len(),
{
    if gs.len() > 0 {
        lemma_groups_with_edl_all(gs.drop_last(), edl);
        let r = groups_with_edl(gs.drop_last(), edl);
        if has_edl(gs.last()) == edl {
            assert forall|i: int| 0 <= i < groups_with_edl(gs, edl).len() implies has_edl(
                #[trigger] groups_with_edl(gs, edl)[i],
            ) == edl by {
                if i < r.len() {
                    assert(groups_with_edl(gs, edl)[i] == r[i]);
                }
            }
        }
    }
}

/// In a device listing every group with an EDL port comes before every
/// group without one.
pub proof fn lemma_listing_edl_first(devs: Seq<DeviceInfo>, i: int, j: int)
    requires
        0 <= i < j < listing(devs).len(),
        has_edl(listing(devs)[j]),
    ensures
        has_edl(listing(devs)[i]),
{
    let gs = serial_groups(devs);
    let a = groups_with_edl(gs, true);
    let b = groups_with_edl(gs, false);
    lemma_groups_with_edl_all(gs, true);
    lemma_groups_with_edl_all(gs, false);
    if j >= a.len() {
        assert(listing(devs)[j] == b[j - a.len()]);
    }
    assert(listing(devs)[i] == a[i]);
}

} // verus!
