//! Device selection among the Qualcomm serial ports, and the classification
//! of USB interfaces into operating modes.

use crate::base::types::{
    is_edl_pid, clone_opt_string, device_is_diag, device_is_edl, DeviceInfo, DeviceMode, QUALCOMM_VID,
};
use crate::text::{
    contains_text, lowercased, opt_view, str_contains, str_eq, str_starts_with, str_to_lowercase,
    str_trim, str_trim_end_matches, strip_end, to_owned_string, trimmed,
};
use crate::transport::error::TransportError;
use vstd::prelude::*;

verus! {

/// The PID of Qualcomm EDL (9008) mode.
pub const QUALCOMM_9008_PID: u16 = 0x9008;

/// Whether `pid` is a known EDL PID.
pub fn edl_pid(pid: u16) -> (r: bool)
    ensures
        r == is_edl_pid(pid),
{
    pid == 0x9008 || pid == 0x900E || pid == 0x900D
}

/// Whether `pid` is a known DIAG PID.
pub fn diag_pid(pid: u16) -> (r: bool)
    ensures
        r == crate::base::types::is_diag_pid(pid),
{
    pid == 0x90B8 || pid == 0x9091 || pid == 0x90E8
}

/// The mode of a USB interface, from its class, subclass and protocol, from
/// whether the device's PID is an EDL PID, and from its interface string:
/// vendor class with subclass and protocol 0xFF is EDL on an EDL PID;
/// subclass 0x42 is ADB; CDC classes are modems; other vendor 0xFF/0xFF
/// interfaces are DIAG, or NMEA when their string names NMEA or GPS.
pub open spec fn interface_mode(class: u8, subclass: u8, protocol: u8, edl: bool, label: Option<Seq<char>>) -> DeviceMode {
    if class == 0xFF && subclass == 0xFF && protocol == 0xFF && edl {
        DeviceMode::Edl
    } else if class == 0xFF && subclass == 0x42 {
        DeviceMode::Adb
    } else if class == 0x02 || class == 0x0A {
        DeviceMode::Modem
    } else if class == 0xFF && subclass == 0xFF {
        match label {
            Some(s) => if contains_text(lowercased(s), "nmea"@) || contains_text(lowercased(s), "gps"@) {
                DeviceMode::Nmea
            } else {
                DeviceMode::Diag
            },
            None => DeviceMode::Diag,
        }
    } else {
        DeviceMode::Unknown
    }
}

/// Classifies one USB interface.
pub fn classify_interface(class: u8, subclass: u8, protocol: u8, edl: bool, label: Option<&str>) -> (m: DeviceMode)
    ensures
        m == interface_mode(class, subclass, protocol, edl, match label {
            Some(s) => Some(s@),
            None => None,
        }),
{
    if class == 0xFF && subclass == 0xFF && protocol == 0xFF && edl {
        DeviceMode::Edl
    } else if class == 0xFF && subclass == 0x42 {
        DeviceMode::Adb
    } else if class == 0x02 || class == 0x0A {
        DeviceMode::Modem
    } else if class == 0xFF && subclass == 0xFF {
        match label {
            Some(s) => {
                let lower = str_to_lowercase(s);
                if str_contains(lower.as_str(), "nmea") || str_contains(lower.as_str(), "gps") {
                    DeviceMode::Nmea
                } else {
                    DeviceMode::Diag
                }
            },
            None => DeviceMode::Diag,
        }
    } else {
        DeviceMode::Unknown
    }
}

/// One USB interface of a device: its number, its mode and its interface
/// string.
pub type InterfaceMode = (u8, DeviceMode, Option<String>);

/// The interface string `label` names the port whose product string is
/// `prod`: it equals the product string trimmed and without trailing `)`,
/// or begins it.
pub open spec fn label_matches(label: Seq<char>, prod: Seq<char>) -> bool {
    label == strip_end(trimmed(prod), ')') || (label.len() <= prod.len() && prod.subrange(
        0,
        label.len() as int,
    ) == label)
}

/// The first interface from `i` on whose string names the product `prod`.
pub open spec fn first_labelled(ifaces: Seq<InterfaceMode>, prod: Seq<char>, i: int) -> Option<int>
    decreases ifaces.len() - i,
{
    if i < 0 || i >= ifaces.len() {
        None
    } else if ifaces[i].2 is Some && label_matches(ifaces[i].2.unwrap()@, prod) {
        Some(i)
    } else {
        first_labelled(ifaces, prod, i + 1)
    }
}

/// The mode of a Qualcomm port, and the next sequential interface index:
/// the interface whose string names the port's product, else the next
/// interface in order, else unknown.
pub open spec fn qualcomm_port_mode(prod: Option<Seq<char>>, ifaces: Seq<InterfaceMode>, idx: nat) -> (DeviceMode, nat) {
    let by_label = match prod {
        Some(p) => first_labelled(ifaces, p, 0),
        None => None,
    };
    match by_label {
        Some(j) => (ifaces[j].1, idx),
        None => if idx < ifaces.len() {
            (ifaces[idx as int].1, idx + 1)
        } else {
            (DeviceMode::Unknown, idx)
        },
    }
}

/// The mode of a Qualcomm port among those of one physical device, given the
/// device's interfaces and the number of its ports seen before.
pub fn port_mode(product: &Option<String>, ifaces: &Vec<InterfaceMode>, idx: usize) -> (r: (DeviceMode, usize))
    ensures
        (r.0, r.1 as nat) == qualcomm_port_mode(opt_view(*product), ifaces@, idx as nat),
{
    match product {
        Some(prod) => {
            let cleaned = str_trim_end_matches(str_trim(prod.as_str()), ')');
            let mut j: usize = 0;
            while j < ifaces.len()
                invariant
                    j <= ifaces@.len(),
                    first_labelled(ifaces@, prod@, 0) == first_labelled(ifaces@, prod@, j as int),
                    cleaned@ == strip_end(trimmed(prod@), ')'),
                    *product == Some(*prod),
                decreases ifaces@.len() - j,
            {
                match &ifaces[j].2 {
                    Some(label) => {
                        if str_eq(label.as_str(), cleaned) || str_starts_with(prod.as_str(), label.as_str()) {
                            assert(label_matches(ifaces@[j as int].2.unwrap()@, prod@));
                            assert(first_labelled(ifaces@, prod@, j as int) == Some(j as int));
                            assert(opt_view(*product) == Some(prod@));
                            return (ifaces[j].1, idx);
                        }
                        assert(!label_matches(ifaces@[j as int].2.unwrap()@, prod@));
                    },
                    None => {},
                }
                assert(first_labelled(ifaces@, prod@, j as int) == first_labelled(ifaces@, prod@, j + 1));
                j = j + 1;
            }
        },
        None => {},
    }
    if idx < ifaces.len() {
        (ifaces[idx].1, idx + 1)
    } else {
        (DeviceMode::Unknown, idx)
    }
}

/// The mode of a port when every port is listed: a Qualcomm port takes the
/// next interface in order (unknown past the last), any other port is
/// unknown; the index advances for every Qualcomm port whose device has
/// interfaces.
pub open spec fn any_port_mode(vid: u16, ifaces: Seq<InterfaceMode>, idx: nat) -> (DeviceMode, nat) {
    if vid != QUALCOMM_VID || ifaces.len() == 0 {
        (DeviceMode::Unknown, idx)
    } else if idx < ifaces.len() {
        (ifaces[idx as int].1, idx + 1)
    } else {
        (DeviceMode::Unknown, idx + 1)
    }
}

/// The mode of a port in the list of every port.
pub fn any_port_mode_of(vid: u16, ifaces: &Vec<InterfaceMode>, idx: usize) -> (r: (DeviceMode, usize))
    requires
        idx < usize::MAX,
    ensures
        (r.0, r.1 as nat) == any_port_mode(vid, ifaces@, idx as nat),
{
    if vid != QUALCOMM_VID || ifaces.len() == 0 {
        (DeviceMode::Unknown, idx)
    } else if idx < ifaces.len() {
        (ifaces[idx].1, idx + 1)
    } else {
        (DeviceMode::Unknown, idx + 1)
    }
}

/// The description of a Qualcomm port without a product string.
pub open spec fn mode_description(m: DeviceMode) -> Seq<char> {
    match m {
        DeviceMode::Edl => "Qualcomm 9008 (EDL)"@,
        DeviceMode::Diag => "Qualcomm DIAG"@,
        DeviceMode::Modem => "Qualcomm Modem"@,
        DeviceMode::Nmea => "Qualcomm NMEA"@,
        DeviceMode::Adb => "Qualcomm ADB"@,
        DeviceMode::Unknown => "Qualcomm"@,
    }
}

/// The description of a Qualcomm port: its product string, else one
/// named after its mode.
pub fn port_description(product: &Option<String>, mode: DeviceMode) -> (r: String)
    ensures
        r@ == match opt_view(*product) {
            Some(p) => p,
            None => mode_description(mode),
        },
{
    match product {
        Some(p) => p.clone(),
        None => match mode {
            DeviceMode::Edl => to_owned_string("Qualcomm 9008 (EDL)"),
            DeviceMode::Diag => to_owned_string("Qualcomm DIAG"),
            DeviceMode::Modem => to_owned_string("Qualcomm Modem"),
            DeviceMode::Nmea => to_owned_string("Qualcomm NMEA"),
            DeviceMode::Adb => to_owned_string("Qualcomm ADB"),
            DeviceMode::Unknown => to_owned_string("Qualcomm"),
        },
    }
}

/// The serial number of a device as text.
pub open spec fn serial_key(d: DeviceInfo) -> Option<Seq<char>> {
    opt_view(d.serial)
}

/// The distinct serial numbers of `devs` (absent counts as one), in order of
/// first appearance.
pub open spec fn serial_keys(devs: Seq<DeviceInfo>) -> Seq<Option<Seq<char>>>
    decreases devs.len(),
{
    if devs.len() == 0 {
        seq![]
    } else {
        let k = serial_keys(devs.drop_last());
        if k.contains(serial_key(devs.last())) {
            k
        } else {
            k.push(serial_key(devs.last()))
        }
    }
}

/// The devices of `devs` with serial `key`, in order.
pub open spec fn with_serial(devs: Seq<DeviceInfo>, key: Option<Seq<char>>) -> Seq<DeviceInfo>
    decreases devs.len(),
{
    if devs.len() == 0 {
        seq![]
    } else {
        let r = with_serial(devs.drop_last(), key);
        if serial_key(devs.last()) == key {
            r.push(devs.last())
        } else {
            r
        }
    }
}

/// The DIAG devices of `devs`, in order.
pub open spec fn diag_devices(devs: Seq<DeviceInfo>) -> Seq<DeviceInfo>
    decreases devs.len(),
{
    if devs.len() == 0 {
        seq![]
    } else {
        let r = diag_devices(devs.drop_last());
        if device_is_diag(devs.last()) {
            r.push(devs.last())
        } else {
            r
        }
    }
}

/// The EDL devices of `devs`, in order, keeping of several with one known
/// serial number only the first; devices without a serial are all kept.
pub open spec fn edl_candidates(devs: Seq<DeviceInfo>) -> Seq<DeviceInfo>
    decreases devs.len(),
{
    if devs.len() == 0 {
        seq![]
    } else {
        let acc = edl_candidates(devs.drop_last());
        let d = devs.last();
        if !device_is_edl(d) {
            acc
        } else if d.serial is Some && exists|j: int| 0 <= j < acc.len() && serial_key(#[trigger] acc[j]) == serial_key(d) {
            acc
        } else {
            acc.push(d)
        }
    }
}

/// The description of `d` names `name`.
pub open spec fn described_as(d: DeviceInfo, name: Seq<char>) -> bool {
    d.description is Some && contains_text(d.description.unwrap()@, name)
}

/// The first device from `i` on whose description names `name`.
pub open spec fn first_described(g: Seq<DeviceInfo>, name: Seq<char>, i: int) -> Option<int>
    decreases g.len() - i,
{
    if i < 0 || i >= g.len() {
        None
    } else if described_as(g[i], name) {
        Some(i)
    } else {
        first_described(g, name, i + 1)
    }
}

/// The DIAG port preferred among the ports of one device: the first named
/// "MSM Diagnostics", else the first named "Diagnostics", else the first
/// named "MDM Diagnostics", else the first port.
pub open spec fn preferred_diag(g: Seq<DeviceInfo>) -> DeviceInfo {
    match first_described(g, "MSM Diagnostics"@, 0) {
        Some(i) => g[i],
        None => match first_described(g, "Diagnostics"@, 0) {
            Some(i) => g[i],
            None => match first_described(g, "MDM Diagnostics"@, 0) {
                Some(i) => g[i],
                None => g[0],
            },
        },
    }
}

/// The first device from `i` on whose port is `port`.
pub open spec fn first_on_port(devs: Seq<DeviceInfo>, port: Seq<char>, i: int) -> Option<int>
    decreases devs.len() - i,
{
    if i < 0 || i >= devs.len() {
        None
    } else if devs[i].port@ == port {
        Some(i)
    } else {
        first_on_port(devs, port, i + 1)
    }
}

/// The first device from `i` on whose serial number is `serial`.
pub open spec fn first_with_serial(devs: Seq<DeviceInfo>, serial: Seq<char>, i: int) -> Option<int>
    decreases devs.len() - i,
{
    if i < 0 || i >= devs.len() {
        None
    } else if serial_key(devs[i]) == Some(serial) {
        Some(i)
    } else {
        first_with_serial(devs, serial, i + 1)
    }
}

/// `d` is the device awaited on `port` (any port if absent) with serial
/// `serial` (any if absent): a Qualcomm device in EDL or DIAG mode.
pub open spec fn awaited(d: DeviceInfo, port: Option<Seq<char>>, serial: Option<Seq<char>>) -> bool {
    &&& (port is None || d.port@ == port.unwrap())
    &&& (serial is None || serial_key(d) == serial)
    &&& d.vid == QUALCOMM_VID
    &&& (device_is_edl(d) || device_is_diag(d))
}

/// The first device from `i` on that is the one awaited.
pub open spec fn first_awaited(devs: Seq<DeviceInfo>, port: Option<Seq<char>>, serial: Option<Seq<char>>, i: int) -> Option<int>
    decreases devs.len() - i,
{
    if i < 0 || i >= devs.len() {
        None
    } else if awaited(devs[i], port, serial) {
        Some(i)
    } else {
        first_awaited(devs, port, serial, i + 1)
    }
}

/// The ports of the EDL devices of `devs`, in order.
pub open spec fn edl_ports(devs: Seq<DeviceInfo>) -> Seq<Seq<char>>
    decreases devs.len(),
{
    if devs.len() == 0 {
        seq![]
    } else if device_is_edl(devs.last()) {
        edl_ports(devs.drop_last()).push(devs.last().port@)
    } else {
        edl_ports(devs.drop_last())
    }
}

/// What automatic selection yields: the EDL device if exactly one (by
/// serial) is present, an error if several are; otherwise the preferred port
/// of the one DIAG device, not found if there is none, an error if several
/// (by serial) are present.
pub open spec fn auto_selection(devs: Seq<DeviceInfo>) -> Result<DeviceInfo, Option<nat>> {
    let edl = edl_candidates(devs);
    if edl.len() == 1 {
        Ok(edl[0])
    } else if edl.len() > 1 {
        Err(Some(edl.len()))
    } else {
        let diag = diag_devices(devs);
        let keys = serial_keys(diag);
        if keys.len() == 0 {
            Err(None)
        } else if keys.len() == 1 {
            Ok(preferred_diag(diag))
        } else {
            Err(Some(keys.len()))
        }
    }
}

proof fn lemma_edl_candidates(devs: Seq<DeviceInfo>)
    ensures
        forall|k: int|
            0 <= k < edl_candidates(devs).len() ==> device_is_edl(#[trigger] edl_candidates(devs)[k])
                && devs.contains(edl_candidates(devs)[k]),
        (exists|i: int| 0 <= i < devs.len() && device_is_edl(#[trigger] devs[i])) ==> edl_candidates(devs).len()
            > 0,
    decreases devs.len(),
{
    if devs.len() > 0 {
        let p = devs.drop_last();
        lemma_edl_candidates(p);
        let acc = edl_candidates(p);
        assert forall|k: int| 0 <= k < edl_candidates(devs).len() implies device_is_edl(
            #[trigger] edl_candidates(devs)[k],
        ) && devs.contains(edl_candidates(devs)[k]) by {
            if k < acc.len() {
                assert(edl_candidates(devs)[k] == acc[k]);
                let j = choose|j: int| 0 <= j < p.len() && p[j] == acc[k];
                assert(devs[j] == p[j]);
            } else {
                assert(devs[devs.len() - 1] == devs.last());
            }
        }
        if exists|i: int| 0 <= i < devs.len() && device_is_edl(#[trigger] devs[i]) {
            let i = choose|i: int| 0 <= i < devs.len() && device_is_edl(#[trigger] devs[i]);
            if i < devs.len() - 1 {
                assert(p[i] == devs[i]);
            }
        }
    }
}

proof fn lemma_diag_devices(devs: Seq<DeviceInfo>)
    ensures
        forall|k: int|
            0 <= k < diag_devices(devs).len() ==> device_is_diag(#[trigger] diag_devices(devs)[k])
                && devs.contains(diag_devices(devs)[k]),
    decreases devs.len(),
{
    if devs.len() > 0 {
        let p = devs.drop_last();
        lemma_diag_devices(p);
        let acc = diag_devices(p);
        assert forall|k: int| 0 <= k < diag_devices(devs).len() implies device_is_diag(
            #[trigger] diag_devices(devs)[k],
        ) && devs.contains(diag_devices(devs)[k]) by {
            if k < acc.len() {
                assert(diag_devices(devs)[k] == acc[k]);
                let j = choose|j: int| 0 <= j < p.len() && p[j] == acc[k];
                assert(devs[j] == p[j]);
            } else {
                assert(devs[devs.len() - 1] == devs.last());
            }
        }
    }
}

proof fn lemma_serial_keys_empty(devs: Seq<DeviceInfo>)
    ensures
        serial_keys(devs).len() == 0 ==> devs.len() == 0,
    decreases devs.len(),
{
    if devs.len() > 0 {
        lemma_serial_keys_empty(devs.drop_last());
    }
}

proof fn lemma_first_described_in(g: Seq<DeviceInfo>, name: Seq<char>, i: int)
    ensures
        first_described(g, name, i) matches Some(k) ==> 0 <= k < g.len(),
    decreases g.len() - i,
{
    if 0 <= i < g.len() && !described_as(g[i], name) {
        lemma_first_described_in(g, name, i + 1);
    }
}

/// Automatic selection picks one of the listed devices, in EDL or DIAG mode;
/// and where an EDL device is listed, it never picks a DIAG one: the result
/// is then an EDL device, or the count of EDL devices when several are
/// listed.
pub proof fn lemma_auto_selection(devs: Seq<DeviceInfo>)
    ensures
        auto_selection(devs) matches Ok(d) ==> devs.contains(d) && (device_is_edl(d) || device_is_diag(d)),
        (exists|i: int| 0 <= i < devs.len() && device_is_edl(#[trigger] devs[i])) ==> match auto_selection(devs) {
            Ok(d) => device_is_edl(d),
            Err(n) => n matches Some(c) && c > 1,
        },
{
    lemma_edl_candidates(devs);
    lemma_diag_devices(devs);
    let edl = edl_candidates(devs);
    if edl.len() == 1 {
        assert(device_is_edl(edl[0]));
    } else if edl.len() == 0 {
        let diag = diag_devices(devs);
        lemma_serial_keys_empty(diag);
        if serial_keys(diag).len() == 1 {
            lemma_first_described_in(diag, "MSM Diagnostics"@, 0);
            lemma_first_described_in(diag, "Diagnostics"@, 0);
            lemma_first_described_in(diag, "MDM Diagnostics"@, 0);
            let d = preferred_diag(diag);
            assert(exists|k: int| 0 <= k < diag.len() && diag[k] == d);
            let k = choose|k: int| 0 <= k < diag.len() && diag[k] == d;
            assert(device_is_diag(diag[k]));
        }
    }
}

/// The devices of `s` in order, dropping a device whose known serial number
/// an earlier kept device already has.
pub open spec fn first_by_serial(s: Seq<DeviceInfo>) -> Seq<DeviceInfo>
    decreases s.len(),
{
    if s.len() == 0 {
        s
    } else {
        let acc = first_by_serial(s.drop_last());
        let d = s.last();
        if d.serial is Some && exists|j: int| 0 <= j < acc.len() && serial_key(#[trigger] acc[j]) == serial_key(d) {
            acc
        } else {
            acc.push(d)
        }
    }
}

/// Selection's lists are the device list filtered: the EDL candidates are
/// the EDL devices with repeats of a known serial number dropped, and the
/// DIAG devices are the DIAG devices, both in list order.
pub proof fn lemma_selection_lists(devs: Seq<DeviceInfo>)
    ensures
        edl_candidates(devs) == first_by_serial(devs.filter(|d: DeviceInfo| device_is_edl(d))),
        diag_devices(devs) == devs.filter(|d: DeviceInfo| device_is_diag(d)),
    decreases devs.len(),
{
    reveal_with_fuel(Seq::filter, 2);
    if devs.len() > 0 {
        lemma_selection_lists(devs.drop_last());
        let fe = devs.drop_last().filter(|d: DeviceInfo| device_is_edl(d));
        if device_is_edl(devs.last()) {
            assert(devs.filter(|d: DeviceInfo| device_is_edl(d)) == fe.push(devs.last()));
            assert(fe.push(devs.last()).drop_last() =~= fe);
        }
    }
}

pub open spec fn opt_str_view(s: Option<&str>) -> Option<Seq<char>> {
    match s {
        Some(x) => Some(x@),
        None => None,
    }
}

/// What the system reports of a USB serial port.
#[derive(Debug, Clone)]
pub struct UsbInfo {
    pub vid: u16,
    pub pid: u16,
    pub serial_number: Option<String>,
    pub product: Option<String>,
}

/// A serial port as the system lists it: its name, and its USB identity
/// when it is a USB port.
#[derive(Debug, Clone)]
pub struct PortRecord {
    pub port_name: String,
    pub usb: Option<UsbInfo>,
}

/// The interfaces that the USB device with these IDs and serial reported.
#[derive(Debug, Clone)]
pub struct InterfaceSet {
    pub vid: u16,
    pub pid: u16,
    pub serial: Option<String>,
    pub interfaces: Vec<InterfaceMode>,
}

/// A physical USB device: IDs and serial.
pub type UsbKey = (u16, u16, Option<Seq<char>>);

/// A device as plain values.
pub struct DeviceView {
    pub port: Seq<char>,
    pub serial: Option<Seq<char>>,
    pub product: Option<Seq<char>>,
    pub pid: u16,
    pub vid: u16,
    pub description: Option<Seq<char>>,
    pub mode: DeviceMode,
}

pub open spec fn device_view(d: DeviceInfo) -> DeviceView {
    DeviceView {
        port: d.port@,
        serial: opt_view(d.serial),
        product: opt_view(d.product),
        pid: d.pid,
        vid: d.vid,
        description: opt_view(d.description),
        mode: d.mode,
    }
}

/// The interfaces reported for `key`: those of the first set with these
/// IDs and serial, none when there is no such set.
pub open spec fn interfaces_for(sets: Seq<InterfaceSet>, key: UsbKey) -> Seq<InterfaceMode>
    decreases sets.len(),
{
    if sets.len() == 0 {
        seq![]
    } else if (sets[0].vid, sets[0].pid, opt_view(sets[0].serial)) == key {
        sets[0].interfaces@
    } else {
        interfaces_for(sets.drop_first(), key)
    }
}

/// How many ports of each device have taken an interface by order so far,
/// one entry per device in order of first appearance.
pub type PortCounters = Seq<(UsbKey, nat)>;

/// The first entry from `i` on for `k`.
pub open spec fn counter_index(c: PortCounters, k: UsbKey, i: int) -> Option<int>
    decreases c.len() - i,
{
    if i < 0 || i >= c.len() {
        None
    } else if c[i].0 == k {
        Some(i)
    } else {
        counter_index(c, k, i + 1)
    }
}

/// The count for `k`, zero before its first port.
pub open spec fn counter(c: PortCounters, k: UsbKey) -> nat {
    match counter_index(c, k, 0) {
        Some(i) => c[i].1,
        None => 0,
    }
}

/// The counters with `k` counted at `n`.
pub open spec fn counter_set(c: PortCounters, k: UsbKey, n: nat) -> PortCounters {
    match counter_index(c, k, 0) {
        Some(i) => c.update(i, (k, n)),
        None => c.push((k, n)),
    }
}

/// The Qualcomm devices among the first `n` ports, and the counters after
/// them: each Qualcomm USB port takes its mode as `qualcomm_port_mode`
/// gives it, and its product string (or a name after its mode) as product
/// and description.
pub open spec fn qualcomm_listing(ports: Seq<PortRecord>, sets: Seq<InterfaceSet>, n: nat) -> (Seq<DeviceView>, PortCounters)
    decreases n,
{
    if n == 0 || n > ports.len() {
        (seq![], seq![])
    } else {
        let (devs, c) = qualcomm_listing(ports, sets, (n - 1) as nat);
        let p = ports[n - 1];
        match p.usb {
            None => (devs, c),
            Some(u) => if u.vid != QUALCOMM_VID {
                (devs, c)
            } else {
                let key = (u.vid, u.pid, opt_view(u.serial_number));
                let (mode, idx) = qualcomm_port_mode(opt_view(u.product), interfaces_for(sets, key), counter(c, key));
                let desc = match opt_view(u.product) {
                    Some(s) => s,
                    None => mode_description(mode),
                };
                (
                    devs.push(
                        DeviceView {
                            port: p.port_name@,
                            serial: opt_view(u.serial_number),
                            product: Some(desc),
                            pid: u.pid,
                            vid: u.vid,
                            description: Some(desc),
                            mode,
                        },
                    ),
                    counter_set(c, key, idx),
                )
            },
        }
    }
}

/// Every port among the first `n`, and the counters after them: Qualcomm
/// ports take their mode by order (`any_port_mode`), others are unknown;
/// a port without USB identity has IDs zero.
pub open spec fn port_listing(ports: Seq<PortRecord>, sets: Seq<InterfaceSet>, n: nat) -> (Seq<DeviceView>, PortCounters)
    decreases n,
{
    if n == 0 || n > ports.len() {
        (seq![], seq![])
    } else {
        let (devs, c) = port_listing(ports, sets, (n - 1) as nat);
        let p = ports[n - 1];
        let (v, pd, serial, product) = match p.usb {
            Some(u) => (u.vid, u.pid, opt_view(u.serial_number), opt_view(u.product)),
            None => (0u16, 0u16, None, None),
        };
        let key = (v, pd, serial);
        let (mode, c2) = if v == QUALCOMM_VID {
            let (m, idx) = any_port_mode(v, interfaces_for(sets, key), counter(c, key));
            (m, counter_set(c, key, idx))
        } else {
            (DeviceMode::Unknown, c)
        };
        (
            devs.push(
                DeviceView { port: p.port_name@, serial, product, pid: pd, vid: v, description: product, mode },
            ),
            c2,
        )
    }
}

fn find_set<'a>(sets: &'a Vec<InterfaceSet>, vid: u16, pid: u16, serial: &Option<String>) -> (r: Option<&'a Vec<InterfaceMode>>)
    ensures
        match r {
            Some(v) => v@ == interfaces_for(sets@, (vid, pid, opt_view(*serial))),
            None => interfaces_for(sets@, (vid, pid, opt_view(*serial))) == Seq::<InterfaceMode>::empty(),
        },
{
    let ghost key = (vid, pid, opt_view(*serial));
    let mut i: usize = 0;
    assert(sets@.subrange(0, sets@.len() as int) =~= sets@);
    while i < sets.len()
        invariant
            i <= sets@.len(),
            key == (vid, pid, opt_view(*serial)),
            interfaces_for(sets@, key) == interfaces_for(sets@.subrange(i as int, sets@.len() as int), key),
        decreases sets@.len() - i,
    {
        let ghost rest = sets@.subrange(i as int, sets@.len() as int);
        assert(rest[0] == sets@[i as int]);
        if sets[i].vid == vid && sets[i].pid == pid && opt_eq(&sets[i].serial, serial) {
            return Some(&sets[i].interfaces);
        }
        assert(rest.drop_first() =~= sets@.subrange(i + 1, sets@.len() as int));
        i = i + 1;
    }
    None
}

/// Counters as kept while listing.
struct Counters {
    entries: Vec<(u16, u16, Option<String>, usize)>,
}

/// The counters as plain values.
spec fn counters_view(e: Seq<(u16, u16, Option<String>, usize)>) -> PortCounters {
    e.map_values(|x: (u16, u16, Option<String>, usize)| ((x.0, x.1, opt_view(x.2)), x.3 as nat))
}

impl Counters {
    fn get(&self, vid: u16, pid: u16, serial: &Option<String>) -> (r: usize)
        ensures
            r == counter(counters_view(self.entries@), (vid, pid, opt_view(*serial))),
    {
        let ghost key = (vid, pid, opt_view(*serial));
        let ghost cv = counters_view(self.entries@);
        let mut i: usize = 0;
        while i < self.entries.len()
            invariant
                i <= self.entries@.len(),
                key == (vid, pid, opt_view(*serial)),
                cv == counters_view(self.entries@),
                counter_index(cv, key, 0) == counter_index(cv, key, i as int),
            decreases self.entries@.len() - i,
        {
            let e = &self.entries[i];
            assert(cv[i as int] == ((e.0, e.1, opt_view(e.2)), e.3 as nat));
            if e.0 == vid && e.1 == pid && opt_eq(&e.2, serial) {
                return e.3;
            }
            i = i + 1;
        }
        0
    }

    fn set(&mut self, vid: u16, pid: u16, serial: &Option<String>, n: usize)
        ensures
            counters_view(final(self).entries@) == counter_set(
                counters_view(old(self).entries@),
                (vid, pid, opt_view(*serial)),
                n as nat,
            ),
    {
        let ghost key = (vid, pid, opt_view(*serial));
        let ghost cv = counters_view(self.entries@);
        let mut i: usize = 0;
        while i < self.entries.len()
            invariant
                i <= self.entries@.len(),
                key == (vid, pid, opt_view(*serial)),
                cv == counters_view(self.entries@),
                cv == counters_view(old(self).entries@),
                counter_index(cv, key, 0) == counter_index(cv, key, i as int),
            decreases self.entries@.len() - i,
        {
            assert(cv[i as int] == ((self.entries@[i as int].0, self.entries@[i as int].1, opt_view(self.entries@[i as int].2)), self.entries@[i as int].3 as nat));
            if self.entries[i].0 == vid && self.entries[i].1 == pid && opt_eq(&self.entries[i].2, serial) {
                let s2 = clone_opt_string(serial);
                self.entries.set(i, (vid, pid, s2, n));
                assert(counters_view(self.entries@) =~= cv.update(i as int, (key, n as nat)));
                return;
            }
            i = i + 1;
        }
        let s2 = clone_opt_string(serial);
        self.entries.push((vid, pid, s2, n));
        assert(counters_view(self.entries@) =~= cv.push((key, n as nat)));
    }
}

proof fn lemma_counter_index_in_range(c: PortCounters, k: UsbKey, i: int)
    requires
        0 <= i,
    ensures
        counter_index(c, k, i) matches Some(j) ==> i <= j < c.len() && c[j].0 == k,
    decreases c.len() - i,
{
    if i < c.len() && c[i].0 != k {
        lemma_counter_index_in_range(c, k, i + 1);
    }
}

proof fn lemma_counters_bounded(
    before: Seq<(u16, u16, Option<String>, usize)>,
    after: Seq<(u16, u16, Option<String>, usize)>,
    key: UsbKey,
    n: usize,
    bound: nat,
)
    requires
        forall|t: int| 0 <= t < before.len() ==> before[t].3 < bound,
        n <= bound,
        counters_view(after) == counter_set(counters_view(before), key, n as nat),
    ensures
        forall|t: int| 0 <= t < after.len() ==> after[t].3 <= bound,
{
    let cb = counters_view(before);
    let ca = counters_view(after);
    lemma_counter_index_in_range(cb, key, 0);
    assert(ca.len() == after.len());
    assert forall|t: int| 0 <= t < after.len() implies after[t].3 <= bound by {
        assert(ca[t] == ((after[t].0, after[t].1, opt_view(after[t].2)), after[t].3 as nat));
        match counter_index(cb, key, 0) {
            Some(j) => {
                assert(ca == cb.update(j, (key, n as nat)));
                if t != j {
                    assert(ca[t] == cb[t]);
                    assert(cb[t].1 == before[t].3 as nat);
                } else {
                    assert(ca[t].1 == n as nat);
                }
            },
            None => {
                assert(ca == cb.push((key, n as nat)));
                if t < before.len() {
                    assert(ca[t] == cb[t]);
                    assert(cb[t].1 == before[t].3 as nat);
                } else {
                    assert(ca[t].1 == n as nat);
                }
            },
        }
    }
}

/// Lists and selects devices; the listing itself reads the system's serial
/// ports, which an application does.
pub trait DeviceEnumeratorTrait {
    /// Every Qualcomm device (by vendor ID).
    fn list(&self) -> Result<Vec<DeviceInfo>, TransportError>;

    /// Every serial port.
    fn list_all(&self) -> Result<Vec<DeviceInfo>, TransportError>;

    /// The best device.
    fn auto_select(&self) -> Result<DeviceInfo, TransportError>;

    /// The device on port `port`.
    fn find_by_port(&self, port: &str) -> Result<DeviceInfo, TransportError>;

    /// The device with serial number `serial`.
    fn find_by_serial(&self, serial: &str) -> Result<DeviceInfo, TransportError>;

    /// Waits for a device to appear.
    fn wait_for_device(
        &self,
        port: Option<&str>,
        serial: Option<&str>,
        timeout_secs: Option<u64>,
        poll_interval_ms: u64,
    ) -> Result<DeviceInfo, TransportError>;

    /// Switches a DIAG device to EDL mode.
    fn switch_diag_to_edl(&self, port_name: &str, timeout_secs: u64) -> Result<(), TransportError>;
}

/// Device selection over a listing of the serial ports.
pub struct DeviceEnumerator;

fn opt_eq(a: &Option<String>, b: &Option<String>) -> (r: bool)
    ensures
        r == (opt_view(*a) == opt_view(*b)),
{
    match (a, b) {
        (Some(x), Some(y)) => str_eq(x.as_str(), y.as_str()),
        (None, None) => true,
        _ => false,
    }
}

proof fn lemma_keys_cover(devs: Seq<DeviceInfo>, i: int)
    requires
        0 <= i < devs.len(),
    ensures
        serial_keys(devs).contains(serial_key(devs[i])),
    decreases devs.len(),
{
    if i < devs.len() - 1 {
        lemma_keys_cover(devs.drop_last(), i);
        assert(devs.drop_last()[i] == devs[i]);
        let k = serial_keys(devs.drop_last());
        let j = choose|j: int| 0 <= j < k.len() && k[j] == serial_key(devs[i]);
        if !k.contains(serial_key(devs.last())) {
            assert(k.push(serial_key(devs.last()))[j] == serial_key(devs[i]));
        }
    } else {
        let k = serial_keys(devs.drop_last());
        if !k.contains(serial_key(devs.last())) {
            assert(k.push(serial_key(devs.last()))[k.len() as int] == serial_key(devs[i]));
        }
    }
}

proof fn lemma_one_key_selects_all(devs: Seq<DeviceInfo>, key: Option<Seq<char>>)
    requires
        serial_keys(devs) == seq![key],
    ensures
        with_serial(devs, key) == devs,
    decreases devs.len(),
{
    if devs.len() > 0 {
        lemma_keys_cover(devs, devs.len() - 1);
        assert(serial_key(devs.last()) == key);
        let k = serial_keys(devs.drop_last());
        if k.len() == 0 {
            assert(devs.drop_last().len() == 0) by {
                if devs.drop_last().len() > 0 {
                    lemma_keys_cover(devs.drop_last(), 0);
                }
            }
            assert(with_serial(devs.drop_last(), key) =~= devs.drop_last());
        } else {
            assert(k == seq![key]);
            lemma_one_key_selects_all(devs.drop_last(), key);
        }
        assert(devs.drop_last().push(devs.last()) =~= devs);
    }
}

/// The group of every serial that occurs has a device.
pub proof fn lemma_keyed_group_nonempty(devs: Seq<DeviceInfo>, k: int)
    requires
        0 <= k < serial_keys(devs).len(),
    ensures
        with_serial(devs, serial_keys(devs)[k]).len() > 0,
    decreases devs.len(),
{
    let key = serial_keys(devs)[k];
    let pre = serial_keys(devs.drop_last());
    if pre.contains(serial_key(devs.last())) {
        lemma_keyed_group_nonempty(devs.drop_last(), k);
        lemma_with_serial_grows(devs, key);
    } else if k < pre.len() {
        assert(serial_keys(devs)[k] == pre[k]);
        lemma_keyed_group_nonempty(devs.drop_last(), k);
        lemma_with_serial_grows(devs, key);
    } else {
        assert(key == serial_key(devs.last()));
    }
}

proof fn lemma_with_serial_grows(devs: Seq<DeviceInfo>, key: Option<Seq<char>>)
    requires
        devs.len() > 0,
    ensures
        with_serial(devs, key).len() >= with_serial(devs.drop_last(), key).len(),
{
}

impl DeviceEnumerator {
    /// The distinct serial numbers of `devices`, in order of first
    /// appearance.
    fn serials_of(devices: &Vec<DeviceInfo>) -> (keys: Vec<Option<String>>)
        ensures
            keys@.map_values(|k: Option<String>| opt_view(k)) == serial_keys(devices@),
    {
        let mut keys: Vec<Option<String>> = Vec::new();
        let mut i: usize = 0;
        while i < devices.len()
            invariant
                i <= devices@.len(),
                keys@.map_values(|k: Option<String>| opt_view(k)) == serial_keys(devices@.subrange(0, i as int)),
            decreases devices@.len() - i,
        {
            let ghost pre = devices@.subrange(0, i as int);
            let ghost next = devices@.subrange(0, i + 1);
            assert(next.drop_last() =~= pre);
            let ghost kv = keys@.map_values(|k: Option<String>| opt_view(k));
            let mut found = false;
            let mut j: usize = 0;
            while j < keys.len()
                invariant
                    j <= keys@.len(),
                    kv == keys@.map_values(|k: Option<String>| opt_view(k)),
                    !found ==> forall|t: int| 0 <= t < j ==> kv[t] != serial_key(devices@[i as int]),
                    found ==> kv.contains(serial_key(devices@[i as int])),
                    i < devices@.len(),
                decreases keys@.len() - j,
            {
                if !found && opt_eq(&keys[j], &devices[i].serial) {
                    found = true;
                    assert(kv[j as int] == serial_key(devices@[i as int]));
                }
                j = j + 1;
            }
            if !found {
                keys.push(clone_opt_string(&devices[i].serial));
                assert(keys@.map_values(|k: Option<String>| opt_view(k)) =~= kv.push(serial_key(devices@[i as int])));
            }
            i = i + 1;
        }
        assert(devices@.subrange(0, devices@.len() as int) =~= devices@);
        keys
    }

    /// The devices of `devices` whose serial is `key`.
    fn devices_with_serial(devices: &Vec<DeviceInfo>, key: &Option<String>) -> (g: Vec<DeviceInfo>)
        ensures
            g@ == with_serial(devices@, opt_view(*key)),
    {
        let mut g: Vec<DeviceInfo> = Vec::new();
        let mut i: usize = 0;
        while i < devices.len()
            invariant
                i <= devices@.len(),
                g@ == with_serial(devices@.subrange(0, i as int), opt_view(*key)),
            decreases devices@.len() - i,
        {
            assert(devices@.subrange(0, i + 1).drop_last() =~= devices@.subrange(0, i as int));
            if opt_eq(&devices[i].serial, key) {
                g.push(devices[i].clone());
            }
            i = i + 1;
        }
        assert(devices@.subrange(0, devices@.len() as int) =~= devices@);
        g
    }

    /// Groups devices by serial number: ports with one serial are the ports
    /// of one physical composite device. Groups come in order of first
    /// appearance, each in input order.
    pub fn group_by_serial(devices: &Vec<DeviceInfo>) -> (groups: Vec<Vec<DeviceInfo>>)
        ensures
            groups@.len() == serial_keys(devices@).len(),
            forall|k: int|
                0 <= k < groups@.len() ==> #[trigger] groups@[k]@ == with_serial(devices@, serial_keys(devices@)[k]),
    {
        let keys = DeviceEnumerator::serials_of(devices);
        let ghost kv = keys@.map_values(|k: Option<String>| opt_view(k));
        let mut groups: Vec<Vec<DeviceInfo>> = Vec::new();
        let mut k: usize = 0;
        while k < keys.len()
            invariant
                k <= keys@.len(),
                kv == serial_keys(devices@),
                kv == keys@.map_values(|k: Option<String>| opt_view(k)),
                groups@.len() == k,
                forall|t: int| 0 <= t < k ==> #[trigger] groups@[t]@ == with_serial(devices@, kv[t]),
            decreases keys@.len() - k,
        {
            let g = DeviceEnumerator::devices_with_serial(devices, &keys[k]);
            groups.push(g);
            k = k + 1;
        }
        groups
    }

    /// The first device of `group` whose description names `name`.
    fn first_described_in(group: &Vec<DeviceInfo>, name: &str) -> (r: Option<usize>)
        ensures
            match r {
                Some(i) => first_described(group@, name@, 0) == Some(i as int) && i < group@.len(),
                None => first_described(group@, name@, 0) is None,
            },
    {
        let mut i: usize = 0;
        while i < group.len()
            invariant
                i <= group@.len(),
                first_described(group@, name@, 0) == first_described(group@, name@, i as int),
            decreases group@.len() - i,
        {
            match &group[i].description {
                Some(d) => {
                    if str_contains(d.as_str(), name) {
                        return Some(i);
                    }
                },
                None => {},
            }
            i = i + 1;
        }
        None
    }

    /// Picks the DIAG port of a device with several ports: "MSM
    /// Diagnostics" first (an MDM port may not switch modes).
    pub fn select_diag_port(group: &Vec<DeviceInfo>) -> (d: DeviceInfo)
        requires
            group@.len() > 0,
        ensures
            d == preferred_diag(group@),
    {
        match DeviceEnumerator::first_described_in(group, "MSM Diagnostics") {
            Some(i) => group[i].clone(),
            None => match DeviceEnumerator::first_described_in(group, "Diagnostics") {
                Some(i) => group[i].clone(),
                None => match DeviceEnumerator::first_described_in(group, "MDM Diagnostics") {
                    Some(i) => group[i].clone(),
                    None => group[0].clone(),
                },
            },
        }
    }

    fn edl_devices(devices: &Vec<DeviceInfo>) -> (r: Vec<DeviceInfo>)
        ensures
            r@ == edl_candidates(devices@),
    {
        let mut acc: Vec<DeviceInfo> = Vec::new();
        let mut i: usize = 0;
        while i < devices.len()
            invariant
                i <= devices@.len(),
                acc@ == edl_candidates(devices@.subrange(0, i as int)),
            decreases devices@.len() - i,
        {
            assert(devices@.subrange(0, i + 1).drop_last() =~= devices@.subrange(0, i as int));
            let d = &devices[i];
            if d.is_9008() {
                let mut dup = false;
                if d.serial.is_some() {
                    let mut j: usize = 0;
                    while j < acc.len()
                        invariant
                            j <= acc@.len(),
                            i < devices@.len(),
                            d == devices@[i as int],
                            !dup ==> forall|t: int| 0 <= t < j ==> serial_key(#[trigger] acc@[t]) != serial_key(*d),
                            dup ==> exists|t: int| 0 <= t < acc@.len() && serial_key(#[trigger] acc@[t]) == serial_key(*d),
                        decreases acc@.len() - j,
                    {
                        if !dup && opt_eq(&acc[j].serial, &d.serial) {
                            dup = true;
                            assert(serial_key(acc@[j as int]) == serial_key(*d));
                        }
                        j = j + 1;
                    }
                }
                if !dup {
                    acc.push(d.clone());
                }
            }
            i = i + 1;
        }
        assert(devices@.subrange(0, devices@.len() as int) =~= devices@);
        acc
    }

    fn diag_of(devices: &Vec<DeviceInfo>) -> (r: Vec<DeviceInfo>)
        ensures
            r@ == diag_devices(devices@),
    {
        let mut r: Vec<DeviceInfo> = Vec::new();
        let mut i: usize = 0;
        while i < devices.len()
            invariant
                i <= devices@.len(),
                r@ == diag_devices(devices@.subrange(0, i as int)),
            decreases devices@.len() - i,
        {
            assert(devices@.subrange(0, i + 1).drop_last() =~= devices@.subrange(0, i as int));
            if devices[i].is_diag() {
                r.push(devices[i].clone());
            }
            i = i + 1;
        }
        assert(devices@.subrange(0, devices@.len() as int) =~= devices@);
        r
    }

    /// Selects the device to work with among the Qualcomm devices listed:
    /// EDL is preferred over DIAG, to avoid a mode switch.
    pub fn auto_select(devices: &Vec<DeviceInfo>) -> (r: Result<DeviceInfo, TransportError>)
        ensures
            match auto_selection(devices@) {
                Ok(d) => r == Ok::<DeviceInfo, TransportError>(d),
                Err(None) => r matches Err(TransportError::NotFound),
                Err(Some(n)) => r matches Err(TransportError::MultipleFound { count }) && count == n,
            },
    {
        let edl = DeviceEnumerator::edl_devices(devices);
        if edl.len() == 1 {
            return Ok(edl[0].clone());
        } else if edl.len() > 1 {
            return Err(TransportError::MultipleFound { count: edl.len() });
        }
        let diag = DeviceEnumerator::diag_of(devices);
        let groups = DeviceEnumerator::group_by_serial(&diag);
        if groups.len() == 0 {
            Err(TransportError::NotFound)
        } else if groups.len() == 1 {
            proof {
                let keys = serial_keys(diag@);
                assert(keys =~= seq![keys[0]]);
                lemma_one_key_selects_all(diag@, keys[0]);
                assert(groups@[0]@ == with_serial(diag@, keys[0]));
                lemma_keys_cover(diag@, 0);
            }
            if groups[0].len() == 0 {
                proof {
                    assert(false);
                }
            }
            Ok(DeviceEnumerator::select_diag_port(&groups[0]))
        } else {
            Err(TransportError::MultipleFound { count: groups.len() })
        }
    }

    /// The device on port `port`, from the list of every port.
    pub fn find_by_port(devices: &Vec<DeviceInfo>, port: &str) -> (r: Result<DeviceInfo, TransportError>)
        ensures
            match first_on_port(devices@, port@, 0) {
                Some(i) => 0 <= i < devices@.len() && r == Ok::<DeviceInfo, TransportError>(devices@[i]),
                None => r matches Err(TransportError::InvalidPort(p)) && p@ == port@,
            },
    {
        let mut i: usize = 0;
        while i < devices.len()
            invariant
                i <= devices@.len(),
                first_on_port(devices@, port@, 0) == first_on_port(devices@, port@, i as int),
            decreases devices@.len() - i,
        {
            if str_eq(devices[i].port.as_str(), port) {
                return Ok(devices[i].clone());
            }
            i = i + 1;
        }
        Err(TransportError::InvalidPort(to_owned_string(port)))
    }

    /// The device with serial number `serial`, from the list of Qualcomm
    /// devices.
    pub fn find_by_serial(devices: &Vec<DeviceInfo>, serial: &str) -> (r: Result<DeviceInfo, TransportError>)
        ensures
            match first_with_serial(devices@, serial@, 0) {
                Some(i) => 0 <= i < devices@.len() && r == Ok::<DeviceInfo, TransportError>(devices@[i]),
                None => r matches Err(TransportError::NotFound),
            },
    {
        let mut i: usize = 0;
        while i < devices.len()
            invariant
                i <= devices@.len(),
                first_with_serial(devices@, serial@, 0) == first_with_serial(devices@, serial@, i as int),
            decreases devices@.len() - i,
        {
            match &devices[i].serial {
                Some(s) => {
                    if str_eq(s.as_str(), serial) {
                        return Ok(devices[i].clone());
                    }
                },
                None => {},
            }
            i = i + 1;
        }
        Err(TransportError::NotFound)
    }

    /// The device awaited on `port` and with `serial`, if it is listed.
    pub fn find_awaited(devices: &Vec<DeviceInfo>, port: Option<&str>, serial: Option<&str>) -> (r: Option<DeviceInfo>)
        ensures
            match first_awaited(devices@, opt_str_view(port), opt_str_view(serial), 0) {
                Some(i) => 0 <= i < devices@.len() && r == Some(devices@[i]),
                None => r is None,
            },
    {
        let mut i: usize = 0;
        while i < devices.len()
            invariant
                i <= devices@.len(),
                first_awaited(devices@, opt_str_view(port), opt_str_view(serial), 0) == first_awaited(
                    devices@,
                    opt_str_view(port),
                    opt_str_view(serial),
                    i as int,
                ),
            decreases devices@.len() - i,
        {
            let d = &devices[i];
            let port_ok = match port {
                Some(p) => str_eq(d.port.as_str(), p),
                None => true,
            };
            let serial_ok = match serial {
                Some(s) => match &d.serial {
                    Some(ds) => str_eq(ds.as_str(), s),
                    None => false,
                },
                None => true,
            };
            let qualcomm = d.vid == QUALCOMM_VID && (d.is_9008() || d.is_diag());
            if port_ok && serial_ok && qualcomm {
                return Some(d.clone());
            }
            i = i + 1;
        }
        None
    }

    /// The ports of the EDL devices listed.
    pub fn edl_port_names(devices: &Vec<DeviceInfo>) -> (r: Vec<String>)
        ensures
            r@.map_values(|p: String| p@) == edl_ports(devices@),
    {
        let mut r: Vec<String> = Vec::new();
        let mut i: usize = 0;
        while i < devices.len()
            invariant
                i <= devices@.len(),
                r@.map_values(|p: String| p@) == edl_ports(devices@.subrange(0, i as int)),
            decreases devices@.len() - i,
        {
            assert(devices@.subrange(0, i + 1).drop_last() =~= devices@.subrange(0, i as int));
            if devices[i].is_9008() {
                let ghost before = r@;
                r.push(devices[i].port.clone());
                assert(r@.map_values(|p: String| p@) =~= before.map_values(|p: String| p@).push(devices@[i as int].port@));
            }
            i = i + 1;
        }
        assert(devices@.subrange(0, devices@.len() as int) =~= devices@);
        r
    }

    /// Whether an EDL device appears on a port that had none before the
    /// mode switch (`before`: the EDL ports listed then).
    pub fn has_new_edl(devices: &Vec<DeviceInfo>, before: &Vec<String>) -> (r: bool)
        ensures
            r == exists|i: int|
                0 <= i < devices@.len() && device_is_edl(#[trigger] devices@[i]) && !before@.map_values(
                    |p: String| p@,
                ).contains(devices@[i].port@),
    {
        let ghost bv = before@.map_values(|p: String| p@);
        let mut i: usize = 0;
        while i < devices.len()
            invariant
                i <= devices@.len(),
                bv == before@.map_values(|p: String| p@),
                forall|t: int| 0 <= t < i ==> !(device_is_edl(#[trigger] devices@[t]) && !bv.contains(devices@[t].port@)),
            decreases devices@.len() - i,
        {
            if devices[i].is_9008() {
                let mut seen = false;
                let mut j: usize = 0;
                while j < before.len()
                    invariant
                        j <= before@.len(),
                        i < devices@.len(),
                        bv == before@.map_values(|p: String| p@),
                        seen ==> bv.contains(devices@[i as int].port@),
                        !seen ==> forall|t: int| 0 <= t < j ==> bv[t] != devices@[i as int].port@,
                    decreases before@.len() - j,
                {
                    if !seen && str_eq(before[j].as_str(), devices[i].port.as_str()) {
                        seen = true;
                        assert(bv[j as int] == devices@[i as int].port@);
                    }
                    j = j + 1;
                }
                if !seen {
                    assert(!bv.contains(devices@[i as int].port@));
                    return true;
                }
            }
            i = i + 1;
        }
        false
    }

    /// The Qualcomm devices among the system's serial ports, given the
    /// interfaces each physical device reported (`sets`).
    pub fn qualcomm_devices(ports: &Vec<PortRecord>, sets: &Vec<InterfaceSet>) -> (r: Vec<DeviceInfo>)
        ensures
            r@.map_values(|d: DeviceInfo| device_view(d)) == qualcomm_listing(ports@, sets@, ports@.len()).0,
    {
        let mut counters = Counters { entries: Vec::new() };
        let mut out: Vec<DeviceInfo> = Vec::new();
        let mut i: usize = 0;
        assert(counters_view(counters.entries@) =~= Seq::<(UsbKey, nat)>::empty());
        assert(out@.map_values(|d: DeviceInfo| device_view(d)) =~= Seq::<DeviceView>::empty());
        while i < ports.len()
            invariant
                i <= ports@.len(),
                (out@.map_values(|d: DeviceInfo| device_view(d)), counters_view(counters.entries@))
                    == qualcomm_listing(ports@, sets@, i as nat),
            decreases ports@.len() - i,
        {
            let p = &ports[i];
            match &p.usb {
                None => {},
                Some(u) => {
                    if u.vid == QUALCOMM_VID {
                        let empty: Vec<InterfaceMode> = Vec::new();
                        let ifaces = match find_set(sets, u.vid, u.pid, &u.serial_number) {
                            Some(v) => v,
                            None => &empty,
                        };
                        assert(ifaces@ == interfaces_for(sets@, (u.vid, u.pid, opt_view(u.serial_number))));
                        let idx = counters.get(u.vid, u.pid, &u.serial_number);
                        let (mode, next) = port_mode(&u.product, ifaces, idx);
                        counters.set(u.vid, u.pid, &u.serial_number, next);
                        let desc = port_description(&u.product, mode);
                        let ghost before = out@;
                        let d = DeviceInfo {
                            port: p.port_name.clone(),
                            serial: clone_opt_string(&u.serial_number),
                            product: Some(desc.clone()),
                            pid: u.pid,
                            vid: u.vid,
                            description: Some(desc),
                            mode,
                        };
                        out.push(d);
                        assert(out@.map_values(|d: DeviceInfo| device_view(d)) =~= before.map_values(
                            |d: DeviceInfo| device_view(d),
                        ).push(device_view(d)));
                    }
                },
            }
            i = i + 1;
        }
        out
    }

    /// Every serial port, with the mode of Qualcomm ports taken by order
    /// from the interfaces each physical device reported (`sets`).
    pub fn all_devices(ports: &Vec<PortRecord>, sets: &Vec<InterfaceSet>) -> (r: Vec<DeviceInfo>)
        requires
            ports@.len() < usize::MAX,
        ensures
            r@.map_values(|d: DeviceInfo| device_view(d)) == port_listing(ports@, sets@, ports@.len()).0,
    {
        let mut counters = Counters { entries: Vec::new() };
        let mut out: Vec<DeviceInfo> = Vec::new();
        let mut i: usize = 0;
        assert(counters_view(counters.entries@) =~= Seq::<(UsbKey, nat)>::empty());
        assert(out@.map_values(|d: DeviceInfo| device_view(d)) =~= Seq::<DeviceView>::empty());
        while i < ports.len()
            invariant
                i <= ports@.len(),
                ports@.len() < usize::MAX,
                (out@.map_values(|d: DeviceInfo| device_view(d)), counters_view(counters.entries@))
                    == port_listing(ports@, sets@, i as nat),
                forall|t: int| 0 <= t < counters.entries@.len() ==> counters.entries@[t].3 <= i,
            decreases ports@.len() - i,
        {
            let p = &ports[i];
            let (v, pd, serial, product): (u16, u16, Option<String>, Option<String>) = match &p.usb {
                Some(u) => (u.vid, u.pid, clone_opt_string(&u.serial_number), clone_opt_string(&u.product)),
                None => (0, 0, None, None),
            };
            let mode = if v == QUALCOMM_VID {
                let empty: Vec<InterfaceMode> = Vec::new();
                let ifaces = match find_set(sets, v, pd, &serial) {
                    Some(x) => x,
                    None => &empty,
                };
                let idx = counters.get(v, pd, &serial);
                proof {
                    let cv = counters_view(counters.entries@);
                    match counter_index(cv, (v, pd, opt_view(serial)), 0) {
                        Some(k) => {
                            lemma_counter_index_in_range(cv, (v, pd, opt_view(serial)), 0);
                            assert(cv[k].1 == counters.entries@[k].3);
                        },
                        None => {},
                    }
                }
                let (m, next) = any_port_mode_of(v, ifaces, idx);
                let ghost before = counters.entries@;
                counters.set(v, pd, &serial, next);
                proof {
                    lemma_counters_bounded(before, counters.entries@, (v, pd, opt_view(serial)), next, (i + 1) as nat);
                }
                m
            } else {
                DeviceMode::Unknown
            };
            let ghost before = out@;
            let d = DeviceInfo {
                port: p.port_name.clone(),
                serial,
                product: clone_opt_string(&product),
                pid: pd,
                vid: v,
                description: product,
                mode,
            };
            out.push(d);
            assert(out@.map_values(|d: DeviceInfo| device_view(d)) =~= before.map_values(|d: DeviceInfo| device_view(d)).push(
                device_view(d),
            ));
            i = i + 1;
        }
        out
    }
}

} // verus!
