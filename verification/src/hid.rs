//! Controller activity over hidraw, for the Steam launcher.
//!
//! In the launcher Steam reads the controller itself and there are no input
//! events to see. The raw report is dominated by a packet counter and by motion
//! sensors that churn even when the controller lies still. A handful of
//! orientation bytes are silent at rest and change as soon as the controller is
//! handled: those are the signal.

use crate::config::Config;
use crate::dev::{device_nodes, device_paths};
use crate::input::Reaction;
use crate::text::{
    after, before, find_line, first_with_prefix, has_prefix, in_order, law_first_line_is_found,
    law_lines_add_up, law_lines_are_what_was_joined, law_split_at_the_first, parse_hex, spec_lines,
    spec_parse_hex, spec_trim, split_once, texts, trim, without_cr,
};
use crate::time::{Instant, Throttle};
use crate::watch::WatchList;
use vstd::prelude::*;

verus! {

/// Whether controllers are watched over hidraw at all, as the settings say.
pub fn is_watching(cfg: &Config) -> (r: bool)
    ensures
        r == cfg.watch_hidraw,
{
    cfg.watch_hidraw
}

/// A known controller's report layout.
#[derive(Debug)]
pub struct Profile {
    pub name: &'static str,
    /// USB vendor.
    pub vendor: u16,
    /// First byte of the status report.
    pub report_id: u8,
    /// Shortest report that holds all the motion bytes.
    pub min_len: usize,
    /// Offsets of the bytes that are silent while the controller is still.
    pub motion_bytes: Vec<usize>,
}

/// The offsets of the Valve controller's motion bytes.
pub open spec fn valve_motion_bytes() -> Seq<usize> {
    seq![8, 18, 19, 20, 21, 22, 23, 24, 25, 26, 27, 28, 29, 35, 37, 39]
}

impl Profile {
    /// This is the profile of the Valve Steam Controller.
    pub open spec fn is_valve_steam(self) -> bool {
        &&& self.name@ == "Valve Steam Controller"@
        &&& self.vendor == 0x28DE
        &&& self.report_id == 0x42
        &&& self.min_len == 40
        &&& self.motion_bytes@ == valve_motion_bytes()
    }

    /// The Valve Steam Controller, over the air as well as on a cable.
    pub fn valve_steam() -> (p: Profile)
        ensures
            p.is_valve_steam(),
    {
        let motion_bytes: Vec<usize> = vec![
            8, 18, 19, 20, 21, 22, 23, 24, 25, 26, 27, 28, 29, 35, 37, 39
        ];
        assert(motion_bytes@ =~= valve_motion_bytes());
        Profile {
            name: "Valve Steam Controller",
            vendor: 0x28DE,
            report_id: 0x42,
            min_len: 40,
            motion_bytes,
        }
    }

    /// `report` is a status report of this controller.
    pub open spec fn accepts(self, report: Seq<u8>) -> bool {
        report.len() >= self.min_len && report.len() > 0 && report[0] == self.report_id
    }

    /// Some motion byte that both reports hold differs between them.
    pub open spec fn moved(self, prev: Seq<u8>, report: Seq<u8>) -> bool {
        exists|k: int|
            0 <= k < self.motion_bytes@.len() && differs_at(
                prev,
                report,
                #[trigger] self.motion_bytes@[k],
            )
    }

    /// Whether some motion byte differs between two reports.
    pub fn has_moved(&self, prev: &Vec<u8>, report: &[u8]) -> (r: bool)
        ensures
            r == self.moved(prev@, report@),
    {
        let mut k: usize = 0;
        while k < self.motion_bytes.len()
            invariant
                k <= self.motion_bytes@.len(),
                forall|j: int|
                    0 <= j < k ==> !differs_at(prev@, report@, #[trigger] self.motion_bytes@[j]),
            decreases self.motion_bytes@.len() - k,
        {
            let i: usize = self.motion_bytes[k];
            if i < report.len() && i < prev.len() && report[i] != prev[i] {
                assert(differs_at(prev@, report@, self.motion_bytes@[k as int]));
                return true;
            }
            k = k + 1;
        }
        false
    }
}

/// Both reports hold a byte at `i`, and not the same one.
pub open spec fn differs_at(prev: Seq<u8>, report: Seq<u8>, i: usize) -> bool {
    i < report.len() && i < prev.len() && report[i as int] != prev[i as int]
}

/// The vendor that a device's `uevent` text names. The line is
/// `HID_ID=<bus>:<vendor>:<product>`, all hexadecimal; a vendor is 16 bits wide.
pub open spec fn spec_vendor(uevent: Seq<char>) -> Option<u16> {
    match first_with_prefix(spec_lines(uevent), "HID_ID="@) {
        None => None,
        Some(hid_id) => match after(hid_id, ':') {
            None => None,
            Some(rest) => match spec_parse_hex(spec_trim(before(rest, ':'))) {
                None => None,
                Some(n) => Some((n % 0x10000) as u16),
            },
        },
    }
}

/// Reads the vendor off a device's `uevent` text.
pub fn vendor_of(uevent: &str) -> (r: Option<u16>)
    ensures
        r == spec_vendor(uevent@),
{
    let hid_id: String = match find_line(uevent, "HID_ID=") {
        Some(s) => s,
        None => {
            return None;
        },
    };
    let rest: &str = match split_once(hid_id.as_str(), ':').1 {
        Some(s) => s,
        None => {
            return None;
        },
    };
    let field: &str = split_once(rest, ':').0;
    match parse_hex(trim(field)) {
        Some(n) => Some((n % 0x10000) as u16),
        None => None,
    }
}

/// Matches a hidraw node to a known controller by the vendor in its `uevent` text.
pub fn profile_for(uevent: &str) -> (r: Option<Profile>)
    ensures
        match r {
            Some(p) => p.is_valve_steam() && spec_vendor(uevent@) == Some(p.vendor),
            None => spec_vendor(uevent@) != Some(0x28DEu16),
        },
{
    let valve = Profile::valve_steam();
    match vendor_of(uevent) {
        Some(vendor) => {
            if vendor == valve.vendor {
                Some(valve)
            } else {
                None
            }
        },
        None => None,
    }
}

/// The `/dev/hidraw*` nodes among the entries of `/dev`, in order.
pub fn hidraw_nodes(names: &Vec<String>) -> (nodes: Vec<String>)
    ensures
        in_order(texts(nodes@)),
        texts(nodes@).to_multiset() == device_paths(texts(names@), "hidraw"@).to_multiset(),
{
    device_nodes(names, "hidraw")
}

/// Look at a hidraw node that a scan found, with its `uevent` text if that could
/// be read, and say whether to start a watcher for it. A node that matches no
/// known controller is looked at again at the next scan.
pub fn consider(watched: &mut WatchList, path: &Vec<u8>, uevent: Option<&str>) -> (r: Option<Profile>)
    requires
        old(watched).wf(),
    ensures
        final(watched).wf(),
        r is Some <==> !old(watched)@.contains(path@) && uevent is Some && spec_vendor(
            uevent->0@,
        ) == Some(0x28DEu16),
        r matches Some(p) ==> p.is_valve_steam(),
        final(watched)@ == if r is Some {
            old(watched)@.insert(path@)
        } else {
            old(watched)@
        },
{
    if watched.contains(path) {
        return None;
    }
    let text: &str = match uevent {
        Some(s) => s,
        None => {
            return None;
        },
    };
    match profile_for(text) {
        Some(p) => {
            watched.insert(path.clone());
            Some(p)
        },
        None => None,
    }
}

/// The watcher of one controller.
pub struct ReportWatch {
    /// The last status report, empty before the first one.
    pub prev: Vec<u8>,
    pub throttle: Throttle,
}

impl ReportWatch {
    /// The report shows that the controller is being handled.
    pub open spec fn signals(self, profile: Profile, report: Seq<u8>) -> bool {
        profile.accepts(report) && self.prev@.len() > 0 && profile.moved(self.prev@, report)
    }

    /// A watcher that has seen nothing yet.
    pub fn new() -> (w: ReportWatch)
        ensures
            w.prev@ == Seq::<u8>::empty(),
            w.throttle.last is None,
    {
        ReportWatch { prev: Vec::new(), throttle: Throttle::new() }
    }

    /// React to what was read from the node. Reading nothing means that the
    /// device is gone, and there is no reaction. Other reports of the device are
    /// passed over.
    pub fn on_read(&mut self, profile: &Profile, report: &[u8], now: Instant, debug: bool) -> (r:
        Option<Reaction>)
        ensures
            r is None <==> report@.len() == 0,
            r matches Some(x) ==> {
                &&& x.signal == old(self).signals(*profile, report@)
                &&& x.log == (x.signal && debug && old(self).throttle.open_at(now))
            },
            final(self).prev@ == if profile.accepts(report@) {
                report@
            } else {
                old(self).prev@
            },
            final(self).throttle.last == if r is Some && r->0.log {
                Some(now)
            } else {
                old(self).throttle.last
            },
    {
        if report.len() == 0 {
            return None;
        }
        if report.len() < profile.min_len || report[0] != profile.report_id {
            return Some(Reaction { signal: false, log: false });
        }
        let signal: bool = self.prev.len() > 0 && profile.has_moved(&self.prev, report);
        let log: bool = if signal && debug {
            self.throttle.pass(now)
        } else {
            false
        };
        self.prev.clear();
        self.prev.extend_from_slice(report);
        assert(self.prev@ =~= report@);
        Some(Reaction { signal, log })
    }
}

/// Every status report of the Valve controller is long enough to hold all of its
/// motion bytes, and its packet counter at offset 1 is not among them.
pub proof fn law_motion_bytes_are_in_the_report(p: Profile, report: Seq<u8>)
    requires
        p.is_valve_steam(),
        p.accepts(report),
    ensures
        forall|k: int|
            0 <= k < p.motion_bytes@.len() ==> 1 < #[trigger] p.motion_bytes@[k] < report.len(),
{
}

/// A resting controller is quiet: as long as the motion bytes stay the same,
/// nothing is signalled, however much the rest of the report churns.
pub proof fn law_resting_controller_is_quiet(w: ReportWatch, p: Profile, report: Seq<u8>)
    requires
        forall|k: int|
            0 <= k < p.motion_bytes@.len() ==> !differs_at(
                w.prev@,
                report,
                #[trigger] p.motion_bytes@[k],
            ),
    ensures
        !w.signals(p, report),
{
}

/// A handled controller is noticed: when one motion byte differs from the last
/// status report, activity is signalled.
pub proof fn law_handled_controller_signals(w: ReportWatch, p: Profile, report: Seq<u8>, k: int)
    requires
        p.is_valve_steam(),
        p.accepts(w.prev@),
        p.accepts(report),
        0 <= k < p.motion_bytes@.len(),
        report[p.motion_bytes@[k] as int] != w.prev@[p.motion_bytes@[k] as int],
    ensures
        w.signals(p, report),
{
    law_motion_bytes_are_in_the_report(p, w.prev@);
    law_motion_bytes_are_in_the_report(p, report);
    assert(differs_at(w.prev@, report, p.motion_bytes@[k]));
}

/// The motion bytes of the Valve controller are those at offset 8, from 18 to 29, and
/// at 35, 37 and 39, and no others.
pub proof fn law_motion_bytes_are_those_measured(i: usize)
    ensures
        valve_motion_bytes().contains(i) <==> i == 8 || 18 <= i <= 29 || i == 35 || i == 37 || i
            == 39,
{
    let m = valve_motion_bytes();
    if i == 8 {
        assert(m[0] == i);
    } else if 18 <= i <= 29 {
        assert(m[i - 17] == i);
    } else if i == 35 {
        assert(m[13] == i);
    } else if i == 37 {
        assert(m[14] == i);
    } else if i == 39 {
        assert(m[15] == i);
    }
}

/// A status report of the Valve controller is any that is long enough and starts with
/// its number; what else it holds plays no part.
pub proof fn law_status_reports_are_accepted(p: Profile, report: Seq<u8>)
    requires
        p.is_valve_steam(),
    ensures
        p.accepts(report) <==> report.len() >= 40 && report[0] == 0x42,
{
}

/// The first status report is a baseline, and other reports are none of the
/// controller's motion: neither signals.
pub proof fn law_nothing_to_compare_is_quiet(w: ReportWatch, p: Profile, report: Seq<u8>)
    requires
        w.prev@.len() == 0 || report.len() < p.min_len || report.len() == 0 || report[0]
            != p.report_id,
    ensures
        !w.signals(p, report),
{
}

/// A status report after another one signals if and only if a motion byte has changed
/// between them.
pub proof fn law_signal_is_a_change_of_motion(w: ReportWatch, p: Profile, report: Seq<u8>)
    requires
        p.is_valve_steam(),
        p.accepts(w.prev@),
        p.accepts(report),
    ensures
        w.signals(p, report) <==> exists|i: int|
            0 <= i < 40 && valve_motion_bytes().contains(i as usize) && #[trigger] report[i]
                != w.prev@[i],
        p.moved(w.prev@, report) == p.moved(report, w.prev@),
{
    let m = p.motion_bytes@;
    law_motion_bytes_are_in_the_report(p, w.prev@);
    law_motion_bytes_are_in_the_report(p, report);
    if w.signals(p, report) {
        let k = choose|k: int| 0 <= k < m.len() && differs_at(w.prev@, report, #[trigger] m[k]);
        let i = m[k] as int;
        assert(valve_motion_bytes().contains(i as usize));
        law_motion_bytes_are_those_measured(i as usize);
        assert(report[i] != w.prev@[i]);
    }
    if exists|i: int|
        0 <= i < 40 && valve_motion_bytes().contains(i as usize) && #[trigger] report[i]
            != w.prev@[i] {
        let i = choose|i: int|
            0 <= i < 40 && valve_motion_bytes().contains(i as usize) && #[trigger] report[i]
                != w.prev@[i];
        let k = choose|k: int| 0 <= k < m.len() && m[k] == i as usize;
        assert(differs_at(w.prev@, report, m[k]));
    }
    if p.moved(w.prev@, report) {
        let k = choose|k: int| 0 <= k < m.len() && differs_at(w.prev@, report, #[trigger] m[k]);
        assert(differs_at(report, w.prev@, m[k]));
    }
    if p.moved(report, w.prev@) {
        let k = choose|k: int| 0 <= k < m.len() && differs_at(report, w.prev@, #[trigger] m[k]);
        assert(differs_at(w.prev@, report, m[k]));
    }
}

/// The vendor is read off the first `HID_ID=` line, wherever in the text that line
/// stands and however it ends: it is the hexadecimal number in the second of the
/// fields, of which the lowest sixteen bits count.
pub proof fn law_vendor_is_the_second_field(
    whole: Seq<char>,
    bus: Seq<char>,
    vendor: Seq<char>,
    product: Seq<char>,
    rest: Seq<char>,
)
    requires
        whole.len() == 0 || whole.last() == '\n',
        forall|i: int|
            0 <= i < spec_lines(whole).len() ==> !has_prefix(
                #[trigger] spec_lines(whole)[i],
                "HID_ID="@,
            ),
        forall|k: int| 0 <= k < bus.len() ==> #[trigger] bus[k] != ':' && bus[k] != '\n',
        forall|k: int| 0 <= k < vendor.len() ==> #[trigger] vendor[k] != ':' && vendor[k] != '\n',
        forall|k: int| 0 <= k < product.len() ==> #[trigger] product[k] != '\n',
    ensures
        ({
            let fields = bus + seq![':'] + vendor + seq![':'] + product;
            let text = whole + ("HID_ID="@ + fields + seq!['\n'] + rest);
            &&& spec_parse_hex(spec_trim(vendor)) is None ==> spec_vendor(text) is None
            &&& spec_parse_hex(spec_trim(vendor)) matches Some(n) ==> spec_vendor(text) == Some(
                (n % 0x10000) as u16,
            )
        }),
        spec_vendor(whole) is None,
{
    let key = "HID_ID="@;
    let fields = bus + seq![':'] + vendor + seq![':'] + product;
    let line = key + fields;
    let text = whole + (line + seq!['\n'] + rest);
    reveal_strlit("HID_ID=");
    assert forall|k: int| 0 <= k < line.len() implies #[trigger] line[k] != '\n' by {
        if k >= key.len() {
            let j = k - key.len();
            assert(line[k] == fields[j]);
            if j < bus.len() {
                assert(fields[j] == bus[j]);
            } else if bus.len() < j < bus.len() + 1 + vendor.len() {
                assert(fields[j] == vendor[j - bus.len() - 1]);
            } else if j > bus.len() + 1 + vendor.len() {
                assert(fields[j] == product[j - bus.len() - vendor.len() - 2]);
            }
        }
    }
    law_lines_add_up(whole, line + seq!['\n'] + rest);
    law_lines_are_what_was_joined(line, rest);
    let last = without_cr(product);
    let kept = bus + seq![':'] + (vendor + seq![':'] + last);
    assert(without_cr(line) =~= key + kept) by {
        if product.len() > 0 {
            assert(line.last() == product.last());
        } else {
            assert(line.last() == ':');
        }
    }
    law_first_line_is_found(spec_lines(whole), key, kept, spec_lines(rest));
    assert(spec_lines(whole) + (seq![key + kept] + spec_lines(rest)) =~= spec_lines(whole) + seq![
        key + kept,
    ] + spec_lines(rest));
    law_split_at_the_first(bus, ':', vendor + seq![':'] + last);
    law_split_at_the_first(vendor, ':', last);
}

} // verus!
