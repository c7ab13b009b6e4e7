//! HDMI-CEC, by way of the `cec-ctl` program.
//!
//! With an adapter the TV goes into real standby when the screen is blanked, and
//! is woken on activity. Without one the black overlay alone protects the panel.

use crate::config::{CecMode, Config};
use crate::dev::{
    device_paths, first_device, is_first_device, law_nodes_are_the_entries_with_the_prefix,
};
use crate::text::{has_prefix, texts};
use vstd::prelude::*;

verus! {

/// The CEC adapter to use, if any.
pub struct Cec {
    pub device: Option<String>,
}

/// What can be told about the adapter when the daemon starts.
#[derive(Debug, Clone, Copy, PartialEq, Eq, Structural)]
pub enum Status {
    /// The adapter is there.
    Enabled,
    /// An adapter was chosen, but it is not there.
    Missing,
    /// There is no adapter; overlay only.
    NoAdapter,
}

/// Whether the choice of an adapter depends on what is in `/dev`.
pub fn needs_listing(mode: CecMode, configured_exists: bool) -> (r: bool)
    ensures
        r == (mode == CecMode::Auto && !configured_exists),
{
    mode == CecMode::Auto && !configured_exists
}

/// Whether an adapter that is not there is an error: it is where CEC is forced on.
pub fn missing_is_error(mode: CecMode) -> (r: bool)
    ensures
        r == (mode == CecMode::On),
{
    mode == CecMode::On
}

/// The first of the `/dev/cec*` devices, in order, among the entries of `/dev`.
pub fn first_cec_device(names: &Vec<String>) -> (r: Option<String>)
    ensures
        match r {
            Some(path) => is_first_device(path@, texts(names@), "cec"@),
            None => device_paths(texts(names@), "cec"@).len() == 0,
        },
{
    first_device(names, "cec")
}

impl Cec {
    /// `device` is what the settings and the entries of `/dev` call for.
    pub open spec fn is_choice(
        device: Option<String>,
        cfg: Config,
        configured_exists: bool,
        listing: Option<Vec<String>>,
    ) -> bool {
        match cfg.cec {
            CecMode::Off => device is None,
            CecMode::On => device matches Some(d) && d@ == cfg.cec_device@,
            CecMode::Auto => if configured_exists {
                device matches Some(d) && d@ == cfg.cec_device@
            } else {
                match (device, listing) {
                    (Some(d), Some(names)) => is_first_device(d@, texts(names@), "cec"@),
                    (Some(d), None) => false,
                    (None, Some(names)) => device_paths(texts(names@), "cec"@).len() == 0,
                    (None, None) => true,
                }
            },
        }
    }

    /// Decide, from the settings and from what is there, which adapter is in play.
    /// `configured_exists` tells whether the configured device is there, and
    /// `listing` holds the names in `/dev` if those could be read.
    pub fn new(cfg: &Config, configured_exists: bool, listing: &Option<Vec<String>>) -> (c: Cec)
        ensures
            Cec::is_choice(c.device, *cfg, configured_exists, *listing),
    {
        let device: Option<String> = match cfg.cec {
            CecMode::Off => None,
            CecMode::On => Some(cfg.cec_device.clone()),
            CecMode::Auto => {
                if configured_exists {
                    Some(cfg.cec_device.clone())
                } else {
                    match listing {
                        Some(names) => first_cec_device(names),
                        None => None,
                    }
                }
            },
        };
        Cec { device }
    }

    /// What to tell about the adapter, where `present` tells whether the chosen
    /// device is there.
    pub fn status(&self, present: bool) -> (r: Status)
        ensures
            r == match self.device {
                Some(_) => if present {
                    Status::Enabled
                } else {
                    Status::Missing
                },
                None => Status::NoAdapter,
            },
    {
        match &self.device {
            Some(_) => {
                if present {
                    Status::Enabled
                } else {
                    Status::Missing
                }
            },
            None => Status::NoAdapter,
        }
    }

    /// The adapter to talk to, where `present` tells whether the chosen device is
    /// there at this moment.
    pub fn active_device(&self, present: bool) -> (r: Option<&str>)
        ensures
            match (self.device, r) {
                (Some(d), Some(s)) => present && s@ == d@,
                (Some(d), None) => !present,
                (None, None) => true,
                (None, Some(_)) => false,
            },
    {
        match &self.device {
            Some(d) => {
                if present {
                    Some(d.as_str())
                } else {
                    None
                }
            },
            None => None,
        }
    }

    /// The arguments that address the adapter, before those of a command.
    pub open spec fn call(device: Seq<char>, args: Seq<Seq<char>>) -> Seq<Seq<char>> {
        seq!["-d"@, device] + args
    }

    /// The `cec-ctl` calls that put the TV into standby.
    pub open spec fn standby_calls(self, present: bool) -> Seq<Seq<Seq<char>>> {
        match self.device {
            Some(d) => if present {
                seq![Cec::call(d@, seq!["--to"@, "0"@, "--standby"@])]
            } else {
                Seq::empty()
            },
            None => Seq::empty(),
        }
    }

    /// The `cec-ctl` calls that wake the TV: turn its picture on, then become its
    /// active source.
    pub open spec fn wake_calls(self, present: bool) -> Seq<Seq<Seq<char>>> {
        match self.device {
            Some(d) => if present {
                seq![
                    Cec::call(d@, seq!["--to"@, "0"@, "--image-view-on"@]),
                    Cec::call(d@, seq!["--active-source"@, "phys-addr=0.0.0.0"@]),
                ]
            } else {
                Seq::empty()
            },
            None => Seq::empty(),
        }
    }

    /// Put the TV into standby: the `cec-ctl` calls to make, in order.
    pub fn standby(&self, present: bool) -> (calls: Vec<Vec<String>>)
        ensures
            call_texts(calls@) == self.standby_calls(present),
    {
        let mut calls: Vec<Vec<String>> = Vec::new();
        if let Some(dev) = self.active_device(present) {
            let mut one: Vec<String> = address(dev);
            one.push("--to".to_owned());
            one.push("0".to_owned());
            one.push("--standby".to_owned());
            assert(texts(one@) =~= Cec::call(dev@, seq!["--to"@, "0"@, "--standby"@]));
            calls.push(one);
        }
        assert(call_texts(calls@) =~= self.standby_calls(present));
        calls
    }

    /// Wake the TV: the `cec-ctl` calls to make, in order.
    pub fn wake(&self, present: bool) -> (calls: Vec<Vec<String>>)
        ensures
            call_texts(calls@) == self.wake_calls(present),
    {
        let mut calls: Vec<Vec<String>> = Vec::new();
        if let Some(dev) = self.active_device(present) {
            let mut one: Vec<String> = address(dev);
            one.push("--to".to_owned());
            one.push("0".to_owned());
            one.push("--image-view-on".to_owned());
            assert(texts(one@) =~= Cec::call(dev@, seq!["--to"@, "0"@, "--image-view-on"@]));
            calls.push(one);
            let mut two: Vec<String> = address(dev);
            two.push("--active-source".to_owned());
            two.push("phys-addr=0.0.0.0".to_owned());
            assert(texts(two@) =~= Cec::call(dev@, seq!["--active-source"@, "phys-addr=0.0.0.0"@]));
            calls.push(two);
        }
        assert(call_texts(calls@) =~= self.wake_calls(present));
        calls
    }
}

/// The arguments of a list of calls.
pub open spec fn call_texts(calls: Seq<Vec<String>>) -> Seq<Seq<Seq<char>>> {
    calls.map_values(|args: Vec<String>| texts(args@))
}

/// The arguments that address an adapter.
fn address(device: &str) -> (args: Vec<String>)
    ensures
        texts(args@) == seq!["-d"@, device@],
{
    let mut args: Vec<String> = Vec::new();
    args.push("-d".to_owned());
    args.push(device.to_owned());
    assert(texts(args@) =~= seq!["-d"@, device@]);
    args
}

/// With CEC off, the TV is never touched.
pub proof fn law_off_never_touches_the_tv(
    c: Cec,
    cfg: Config,
    configured_exists: bool,
    listing: Option<Vec<String>>,
    present: bool,
)
    requires
        cfg.cec == CecMode::Off,
        Cec::is_choice(c.device, cfg, configured_exists, listing),
    ensures
        c.standby_calls(present).len() == 0,
        c.wake_calls(present).len() == 0,
{
}

/// Without an adapter that is there, nothing is called, in any mode.
pub proof fn law_absent_adapter_is_left_alone(c: Cec)
    ensures
        c.standby_calls(false).len() == 0,
        c.wake_calls(false).len() == 0,
{
}

/// The adapter that is chosen: none with CEC off; the configured one with CEC on,
/// whether or not it is there; and in between the configured one if it is there, or
/// else the first that the listing shows.
pub proof fn law_choice_of_adapter(
    d: Option<String>,
    cfg: Config,
    configured_exists: bool,
    listing: Option<Vec<String>>,
)
    requires
        Cec::is_choice(d, cfg, configured_exists, listing),
    ensures
        cfg.cec == CecMode::Off ==> d is None,
        cfg.cec == CecMode::On ==> d is Some && d->0@ == cfg.cec_device@,
        cfg.cec == CecMode::Auto && configured_exists ==> d is Some && d->0@ == cfg.cec_device@,
        cfg.cec == CecMode::Auto && !configured_exists && listing is None ==> d is None,
        cfg.cec == CecMode::Auto && !configured_exists && listing is Some ==> {
            let names = texts(listing->0@);
            &&& d is Some ==> is_first_device(d->0@, names, "cec"@)
            &&& d is None <==> forall|i: int|
                0 <= i < names.len() ==> !has_prefix(#[trigger] names[i], "cec"@)
        },
{
    if listing is Some {
        let names = texts(listing->0@);
        let paths = device_paths(names, "cec"@);
        if exists|i: int| 0 <= i < names.len() && has_prefix(#[trigger] names[i], "cec"@) {
            let i = choose|i: int| 0 <= i < names.len() && has_prefix(#[trigger] names[i], "cec"@);
            law_nodes_are_the_entries_with_the_prefix(names, "cec"@, "/dev/"@ + names[i]);
            assert(paths.len() > 0);
        } else if paths.len() > 0 {
            law_nodes_are_the_entries_with_the_prefix(names, "cec"@, paths[0]);
            assert(paths.contains(paths[0]));
        }
        if d is Some {
            assert(is_first_device(d->0@, names, "cec"@) ==> paths.len() > 0);
        }
    }
}

/// Where the listing is not needed, it does not matter what it holds.
pub proof fn law_listing_matters_only_where_it_is_needed(
    d: Option<String>,
    cfg: Config,
    configured_exists: bool,
    listing: Option<Vec<String>>,
    other: Option<Vec<String>>,
)
    requires
        cfg.cec != CecMode::Auto || configured_exists,
    ensures
        Cec::is_choice(d, cfg, configured_exists, listing) == Cec::is_choice(
            d,
            cfg,
            configured_exists,
            other,
        ),
{
}

/// Every call addresses the adapter that was chosen. Standby is one call, to the TV;
/// waking is two, of which the first turns the picture on and the second makes this
/// the active source.
pub proof fn law_calls_address_the_adapter(c: Cec, i: int)
    requires
        c.device is Some,
    ensures
        ({
            let off = c.standby_calls(true);
            let on = c.wake_calls(true);
            &&& off.len() == 1
            &&& on.len() == 2
            &&& off[0].take(2) == seq!["-d"@, c.device->0@]
            &&& 0 <= i < 2 ==> on[i].take(2) == seq!["-d"@, c.device->0@]
            &&& off[0].skip(2) == seq!["--to"@, "0"@, "--standby"@]
            &&& on[0].skip(2) == seq!["--to"@, "0"@, "--image-view-on"@]
            &&& on[1].skip(2) == seq!["--active-source"@, "phys-addr=0.0.0.0"@]
        }),
{
    let off = c.standby_calls(true);
    let on = c.wake_calls(true);
    let address = seq!["-d"@, c.device->0@];
    assert(off[0].take(2) =~= address);
    assert(on[0].take(2) =~= address);
    assert(on[1].take(2) =~= address);
    assert(off[0].skip(2) =~= seq!["--to"@, "0"@, "--standby"@]);
    assert(on[0].skip(2) =~= seq!["--to"@, "0"@, "--image-view-on"@]);
    assert(on[1].skip(2) =~= seq!["--active-source"@, "phys-addr=0.0.0.0"@]);
}

/// The arguments of a list of calls are those of its calls, one by one.
pub proof fn law_arguments_are_one_by_one(calls: Seq<Vec<String>>, i: int, k: int)
    requires
        0 <= i < calls.len(),
        0 <= k < calls[i]@.len(),
    ensures
        call_texts(calls).len() == calls.len(),
        call_texts(calls)[i].len() == calls[i]@.len(),
        call_texts(calls)[i][k] == calls[i]@[k]@,
{
    assert(call_texts(calls)[i] == texts(calls[i]@));
}

} // verus!
