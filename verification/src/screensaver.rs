//! The inhibit half of the session bus's `org.freedesktop.ScreenSaver` service.
//!
//! Browsers and media players ask this service to keep the display awake while
//! they play. Each request gets a cookie, which is given back to release it. The
//! cookies of a client that drops off the bus are released as well, so that a
//! crash does not pin the screen on.

use std::collections::HashMap;
use vstd::prelude::*;

verus! {

/// Who holds an inhibitor, and why.
pub struct Holder {
    pub app: String,
    pub reason: String,
    /// The bus name of the client.
    pub sender: Option<String>,
}

/// What a [`Holder`] says.
pub struct HolderView {
    pub app: Seq<char>,
    pub reason: Seq<char>,
    pub sender: Option<Seq<char>>,
}

impl View for Holder {
    type V = HolderView;

    open spec fn view(&self) -> HolderView {
        HolderView {
            app: self.app@,
            reason: self.reason@,
            sender: match self.sender {
                Some(s) => Some(s@),
                None => None,
            },
        }
    }
}

impl HolderView {
    /// The holder in words.
    pub open spec fn description(self) -> Seq<char> {
        self.app + ": "@ + self.reason
    }
}

/// The inhibitors that are held.
pub struct State {
    pub next_cookie: u32,
    pub holders: HashMap<u32, Holder>,
}

/// The inhibitors that are held, by their cookies, and the last cookie given.
pub struct StateView {
    pub last_cookie: u32,
    pub holders: Map<u32, HolderView>,
}

impl View for State {
    type V = StateView;

    open spec fn view(&self) -> StateView {
        StateView {
            last_cookie: self.next_cookie,
            holders: self.holders@.map_values(|h: Holder| h@),
        }
    }
}

/// The cookie after `last`: the next number, but never zero.
pub open spec fn cookie_after(last: u32) -> u32 {
    if last == u32::MAX {
        1
    } else {
        (last + 1) as u32
    }
}

impl StateView {
    /// `holder` has taken an inhibitor.
    pub open spec fn inhibited_by(self, holder: HolderView) -> StateView {
        StateView {
            last_cookie: cookie_after(self.last_cookie),
            holders: self.holders.insert(cookie_after(self.last_cookie), holder),
        }
    }

    /// The inhibitor `cookie` is released.
    pub open spec fn released(self, cookie: u32) -> StateView {
        StateView { holders: self.holders.remove(cookie), ..self }
    }

    /// Every inhibitor of the client `name` is released.
    pub open spec fn without(self, name: Seq<char>) -> StateView {
        StateView {
            holders: self.holders.restrict(
                Set::new(
                    |c: u32| self.holders.contains_key(c) && self.holders[c].sender != Some(name),
                ),
            ),
            ..self
        }
    }

    /// Someone holds an inhibitor.
    pub open spec fn is_inhibited(self) -> bool {
        exists|c: u32| self.holders.contains_key(c)
    }
}

/// The service.
pub struct ScreenSaver {
    pub state: State,
}

impl View for ScreenSaver {
    type V = StateView;

    open spec fn view(&self) -> StateView {
        self.state@
    }
}

impl ScreenSaver {
    /// A service without inhibitors.
    pub fn new() -> (s: ScreenSaver)
        ensures
            s@.last_cookie == 0,
            s@.holders == Map::<u32, HolderView>::empty(),
    {
        let s = ScreenSaver { state: State { next_cookie: 0, holders: HashMap::new() } };
        assert(s@.holders =~= Map::<u32, HolderView>::empty());
        s
    }

    /// Take an inhibitor; returns the cookie that releases it.
    pub fn inhibit(
        &mut self,
        application_name: String,
        reason_for_inhibit: String,
        sender: Option<String>,
    ) -> (cookie: u32)
        ensures
            cookie == cookie_after(old(self)@.last_cookie),
            final(self)@ == old(self)@.inhibited_by(
                HolderView {
                    app: application_name@,
                    reason: reason_for_inhibit@,
                    sender: match sender {
                        Some(s) => Some(s@),
                        None => None,
                    },
                },
            ),
    {
        self.state.next_cookie = self.state.next_cookie.wrapping_add(1);
        if self.state.next_cookie == 0 {
            self.state.next_cookie = 1;
        }
        let cookie: u32 = self.state.next_cookie;
        let holder = Holder { app: application_name, reason: reason_for_inhibit, sender };
        let ghost shown = holder@;
        self.state.holders.insert(cookie, holder);
        assert(self@.holders =~= old(self)@.holders.insert(cookie, shown));
        cookie
    }

    /// Release an inhibitor. A cookie that is not held releases nothing.
    pub fn un_inhibit(&mut self, cookie: u32)
        ensures
            final(self)@ == old(self)@.released(cookie),
            !final(self).state.holders@.contains_key(cookie),
            forall|c: u32|
                c != cookie ==> (#[trigger] final(self).state.holders@.contains_key(c)
                    <==> old(self).state.holders@.contains_key(c)),
    {
        self.state.holders.remove(&cookie);
        assert(self@.holders =~= old(self)@.holders.remove(cookie));
    }

    /// There is no screensaver, so it is never active.
    pub fn get_active(&self) -> (r: bool)
        ensures
            !r,
    {
        false
    }

    /// There is no screensaver to switch on or off.
    pub fn set_active(&self, activate: bool) -> (r: bool)
        ensures
            !r,
    {
        false
    }

    /// How long the screensaver has been active: never.
    pub fn get_active_time(&self) -> (r: u32)
        ensures
            r == 0,
    {
        0
    }

    /// How long the session has been idle, which this service does not track.
    pub fn get_session_idle_time(&self) -> (r: u32)
        ensures
            r == 0,
    {
        0
    }

    /// There is nothing to lock.
    pub fn lock(&self) {
    }

    /// There is no screensaver to keep away.
    pub fn simulate_user_activity(&self) {
    }

    /// The bus name `name` changed hands. If it has no new owner, its client is
    /// gone, and with it the inhibitors that it held. Returns how many those were.
    pub fn name_owner_changed(&mut self, name: &str, has_new_owner: bool) -> (dropped: usize)
        ensures
            has_new_owner ==> final(self)@ == old(self)@ && dropped == 0,
            !has_new_owner ==> final(self)@ == old(self)@.without(name@),
            dropped == old(self)@.holders.dom().len() - final(self)@.holders.dom().len(),
    {
        if has_new_owner {
            return 0;
        }
        let name: String = name.to_owned();
        let cookies: Vec<u32> = self.state.cookies();
        let ghost holders = self.state.holders@;
        let mut dropped: usize = 0;
        let mut i: usize = 0;
        assert forall|k: int| 0 <= k < cookies@.len() implies holders.contains_key(
            #[trigger] cookies@[k],
        ) by {
            assert(cookies@.contains(cookies@[k]));
        }
        while i < cookies.len()
            invariant
                i <= cookies@.len(),
                cookies@.no_duplicates(),
                forall|c: u32| #[trigger] cookies@.contains(c) <==> holders.contains_key(c),
                self.state.next_cookie == old(self).state.next_cookie,
                self.state.holders@.submap_of(holders),
                forall|k: int|
                    0 <= k < i ==> (self.state.holders@.contains_key(#[trigger] cookies@[k])
                        <==> holders[cookies@[k]]@.sender != Some(name@)),
                forall|k: int|
                    i <= k < cookies@.len() ==> self.state.holders@.contains_key(
                        #[trigger] cookies@[k],
                    ),
                holders.dom().finite(),
                dropped <= i,
                dropped == holders.dom().len() - self.state.holders@.dom().len(),
            decreases cookies@.len() - i,
        {
            let cookie: u32 = cookies[i];
            assert(cookies@.contains(cookie));
            let mut is_gone: bool = false;
            if let Some(holder) = self.state.holders.get(&cookie) {
                if let Some(sender) = &holder.sender {
                    is_gone = *sender == name;
                }
            }
            assert(is_gone <==> holders[cookie]@.sender == Some(name@));
            if is_gone {
                self.state.holders.remove(&cookie);
                dropped = dropped + 1;
            }
            i = i + 1;
        }
        proof {
            let want = old(self)@.without(name@).holders;
            assert forall|c: u32| self@.holders.contains_key(c) <==> want.contains_key(c) by {
                if holders.contains_key(c) {
                    assert(cookies@.contains(c));
                    let k = choose|k: int| 0 <= k < cookies@.len() && cookies@[k] == c;
                    assert(self.state.holders@.contains_key(cookies@[k]) <==> holders[cookies@[k]]@.sender
                        != Some(name@));
                }
            }
            assert(self@.holders =~= want);
            assert(self@.holders.dom() =~= self.state.holders@.dom());
            assert(old(self)@.holders.dom() =~= holders.dom());
        }
        dropped
    }

    /// A look at the inhibitors that are held.
    pub fn watch(&self) -> (w: ScreenSaverWatch<'_>)
        ensures
            w@ == self@,
    {
        ScreenSaverWatch { state: &self.state }
    }
}

impl State {
    /// The cookies that are held, in no particular order.
    fn cookies(&self) -> (v: Vec<u32>)
        ensures
            v@.no_duplicates(),
            forall|c: u32| #[trigger] v@.contains(c) <==> self.holders@.contains_key(c),
            self.holders@.dom().finite(),
    {
        let mut v: Vec<u32> = Vec::new();
        for cookie in it: self.holders.keys()
            invariant
                it.seq() == vstd::std_specs::iter::IteratorSpec::remaining(
            &vstd::std_specs::hash::spec_keys_iter(&self.holders),
        ),
                v@ == it.seq().unref().take(it.index()),
        {
            v.push(*cookie);
            assert(v@ =~= it.seq().unref().take(it.index() + 1));
        }
        let ghost keys = vstd::std_specs::iter::IteratorSpec::remaining(
            &vstd::std_specs::hash::spec_keys_iter(&self.holders),
        );
        proof {
            assert(v@ =~= keys.unref());
            assert forall|c: u32| #[trigger] v@.contains(c) <==> self.holders@.contains_key(c) by {
                assert(keys.unref().to_set().contains(c) <==> self.holders@.dom().contains(c));
            }
            assert(self.holders@.dom() =~= v@.to_set());
        }
        v
    }
}

/// The order in which inhibitors are listed: each cookie once.
pub open spec fn is_listing(list: Seq<String>, holders: Map<u32, HolderView>, order: Seq<u32>) -> bool {
    &&& order.no_duplicates()
    &&& order.len() == list.len()
    &&& forall|c: u32| #[trigger] order.contains(c) <==> holders.contains_key(c)
    &&& forall|i: int|
        0 <= i < list.len() ==> (#[trigger] list[i])@ == holders[order[i]].description()
}

/// A look at the inhibitors that are held.
pub struct ScreenSaverWatch<'a> {
    pub state: &'a State,
}

impl<'a> View for ScreenSaverWatch<'a> {
    type V = StateView;

    open spec fn view(&self) -> StateView {
        self.state@
    }
}

impl<'a> ScreenSaverWatch<'a> {
    /// True while any client holds an inhibitor.
    pub fn inhibited(&self) -> (r: bool)
        ensures
            r == self@.is_inhibited(),
    {
        let cookies: Vec<u32> = self.state.cookies();
        proof {
            if cookies@.len() > 0 {
                assert(cookies@.contains(cookies@[0]));
                assert(self@.holders.contains_key(cookies@[0]));
            }
            if self@.is_inhibited() {
                let c = choose|c: u32| self@.holders.contains_key(c);
                assert(cookies@.contains(c));
            }
        }
        cookies.len() > 0
    }

    /// Descriptions of the holders, one for each inhibitor, in no particular order.
    pub fn inhibitors(&self) -> (list: Vec<String>)
        ensures
            exists|order: Seq<u32>| is_listing(list@, self@.holders, order),
    {
        let cookies: Vec<u32> = self.state.cookies();
        let mut list: Vec<String> = Vec::new();
        let mut i: usize = 0;
        while i < cookies.len()
            invariant
                i <= cookies@.len(),
                list@.len() == i,
                forall|c: u32|
                    #[trigger] cookies@.contains(c) <==> self.state.holders@.contains_key(c),
                forall|k: int|
                    0 <= k < i ==> (#[trigger] list@[k])@ == self@.holders[cookies@[k]].description(),
            decreases cookies@.len() - i,
        {
            let cookie: u32 = cookies[i];
            assert(cookies@.contains(cookie));
            if let Some(holder) = self.state.holders.get(&cookie) {
                list.push(holder.app.clone().concat(": ").concat(holder.reason.as_str()));
            }
            i = i + 1;
        }
        assert(is_listing(list@, self@.holders, cookies@));
        list
    }
}

/// The cookie that comes `n` requests after `last`.
pub open spec fn cookie_after_n(last: u32, n: nat) -> u32
    decreases n,
{
    if n == 0 {
        last
    } else {
        cookie_after(cookie_after_n(last, (n - 1) as nat))
    }
}

/// A cookie is never zero.
pub proof fn law_cookie_is_not_zero(last: u32)
    ensures
        cookie_after(last) != 0,
{
}

/// Counting cookies is counting around a circle that leaves out zero.
proof fn lemma_cookie_after_n(last: u32, n: nat)
    requires
        last != 0,
    ensures
        cookie_after_n(last, n) == (last - 1 + n) % (u32::MAX as int) + 1,
    decreases n,
{
    let m = u32::MAX as int;
    if n > 0 {
        lemma_cookie_after_n(last, (n - 1) as nat);
        let before = last - 1 + (n - 1);
        assert((before + 1) % m == if before % m == m - 1 {
            0
        } else {
            before % m + 1
        });
    } else {
        assert((last - 1) % m == last - 1);
    }
}

/// Cookies are unique for all practical purposes: of any two requests that are
/// fewer than 4294967295 apart, each gets a cookie of its own.
pub proof fn law_cookies_differ(last: u32, n: nat)
    requires
        last != 0,
        0 < n < u32::MAX,
    ensures
        cookie_after_n(last, n) != last,
{
    lemma_cookie_after_n(last, n);
    let m = u32::MAX as int;
    let sum = last - 1 + n;
    if sum < m {
        assert(sum % m == sum);
    } else {
        assert(sum % m == sum - m);
    }
}

/// Something that happens to the service.
pub enum Happening {
    Inhibit(HolderView),
    Release(u32),
    Gone(Seq<char>),
}

/// The service after a run of happenings.
pub open spec fn after_all(s: StateView, run: Seq<Happening>) -> StateView
    decreases run.len(),
{
    if run.len() == 0 {
        s
    } else {
        let before = after_all(s, run.drop_last());
        match run.last() {
            Happening::Inhibit(holder) => before.inhibited_by(holder),
            Happening::Release(cookie) => before.released(cookie),
            Happening::Gone(name) => before.without(name),
        }
    }
}

/// How many of the happenings take an inhibitor.
pub open spec fn requests(run: Seq<Happening>) -> nat
    decreases run.len(),
{
    if run.len() == 0 {
        0
    } else if run.last() is Inhibit {
        requests(run.drop_last()) + 1
    } else {
        requests(run.drop_last())
    }
}

/// An inhibitor keeps the screen awake for as long as it is held: whatever other
/// clients take, release or leave behind, it stands until its own cookie is
/// released or its own client is gone. After 4294967295 further requests the
/// cookies begin anew; the law reaches up to there.
pub proof fn law_inhibitor_holds(s: StateView, holder: HolderView, run: Seq<Happening>)
    requires
        forall|i: int|
            0 <= i < run.len() ==> match #[trigger] run[i] {
                Happening::Inhibit(_) => true,
                Happening::Release(cookie) => cookie != cookie_after(s.last_cookie),
                Happening::Gone(name) => holder.sender != Some(name),
            },
        requests(run) < u32::MAX,
    ensures
        after_all(s.inhibited_by(holder), run).is_inhibited(),
        after_all(s.inhibited_by(holder), run).holders.contains_key(cookie_after(s.last_cookie)),
        after_all(s.inhibited_by(holder), run).holders[cookie_after(s.last_cookie)] == holder,
        after_all(s.inhibited_by(holder), run).last_cookie == cookie_after_n(
            cookie_after(s.last_cookie),
            requests(run),
        ),
    decreases run.len(),
{
    let own = cookie_after(s.last_cookie);
    let start = s.inhibited_by(holder);
    if run.len() > 0 {
        let shorter = run.drop_last();
        assert forall|i: int| 0 <= i < shorter.len() implies match #[trigger] shorter[i] {
            Happening::Inhibit(_) => true,
            Happening::Release(cookie) => cookie != own,
            Happening::Gone(name) => holder.sender != Some(name),
        } by {
            assert(shorter[i] == run[i]);
        }
        law_inhibitor_holds(s, holder, shorter);
        assert(run.last() == run[run.len() - 1]);
        if run.last() is Inhibit {
            law_cookies_differ(own, requests(run));
        }
    }
    assert(after_all(start, run).holders.contains_key(own));
}

/// A release takes effect at any time, for every cookie that is held: the cookie is
/// held no more, and every other one is held as before, by the same holder.
pub proof fn law_release_takes_effect(s: StateView, cookie: u32, other: u32)
    ensures
        !s.released(cookie).holders.contains_key(cookie),
        other != cookie ==> s.released(cookie).holders.contains_key(other)
            == s.holders.contains_key(other),
        other != cookie && s.holders.contains_key(other) ==> s.released(cookie).holders[other]
            == s.holders[other],
        s.released(cookie).last_cookie == s.last_cookie,
{
}

/// A new inhibitor is held under its cookie, and every other one as before.
pub proof fn law_inhibit_adds_one(s: StateView, holder: HolderView, other: u32)
    ensures
        ({
            let own = cookie_after(s.last_cookie);
            let after = s.inhibited_by(holder);
            &&& after.last_cookie == own
            &&& after.holders.contains_key(own)
            &&& after.holders[own] == holder
            &&& other != own ==> after.holders.contains_key(other) == s.holders.contains_key(other)
            &&& other != own && s.holders.contains_key(other) ==> after.holders[other]
                == s.holders[other]
        }),
{
}

/// Cookies count up from one, and after the last one from one again.
pub proof fn law_cookies_count_up(last: u32)
    ensures
        last < u32::MAX ==> cookie_after(last) == last + 1,
        last == u32::MAX ==> cookie_after(last) == 1,
{
}

/// The screen is held awake if and only if there is an inhibitor.
pub proof fn law_inhibited_iff_held(s: StateView, c: u32)
    ensures
        s.holders.contains_key(c) ==> s.is_inhibited(),
        s.holders == Map::<u32, HolderView>::empty() ==> !s.is_inhibited(),
        !s.is_inhibited() ==> s.holders == Map::<u32, HolderView>::empty(),
{
    if !s.is_inhibited() {
        assert(s.holders =~= Map::<u32, HolderView>::empty());
    }
}

/// What the service holds is what its table holds, name for name.
pub proof fn law_holders_are_the_table(s: ScreenSaver, c: u32)
    ensures
        s@.last_cookie == s.state.next_cookie,
        s@.holders.contains_key(c) <==> s.state.holders@.contains_key(c),
        s.state.holders@.contains_key(c) ==> {
            let h = s.state.holders@[c];
            &&& s@.holders[c].app == h.app@
            &&& s@.holders[c].reason == h.reason@
            &&& s@.holders[c].sender is Some <==> h.sender is Some
            &&& h.sender matches Some(name) ==> s@.holders[c].sender == Some(name@)
        },
{
}

/// The cookie that the `i`-th of a run of happenings gives, if it takes an inhibitor.
pub open spec fn cookie_given(s: StateView, run: Seq<Happening>, i: int) -> u32 {
    cookie_after(after_all(s, run.take(i)).last_cookie)
}

/// After its request at `i` of the run, the cookie is released at `j`.
pub open spec fn released_at(s: StateView, run: Seq<Happening>, i: int, j: int) -> bool {
    i < j < run.len() && run[j] == Happening::Release(cookie_given(s, run, i))
}

/// A cookie that is held after a run was given during it and not released since, or
/// was held before it and not released during it.
proof fn lemma_held_was_given(s: StateView, run: Seq<Happening>, c: u32)
    requires
        after_all(s, run).holders.contains_key(c),
    ensures
        (exists|i: int|
            0 <= i < run.len() && (#[trigger] run[i]) is Inhibit && cookie_given(s, run, i) == c
                && forall|j: int| i < j < run.len() ==> #[trigger] run[j] != Happening::Release(c))
            || s.holders.contains_key(c),
    decreases run.len(),
{
    if run.len() > 0 {
        let shorter = run.drop_last();
        let n = run.len() - 1;
        let before = after_all(s, shorter);
        assert(run.take(n) =~= shorter);
        if run.last() is Inhibit && cookie_after(before.last_cookie) == c {
            assert(run[n] is Inhibit && cookie_given(s, run, n) == c);
        } else {
            assert(before.holders.contains_key(c));
            lemma_held_was_given(s, shorter, c);
            if !s.holders.contains_key(c) {
                let i = choose|i: int|
                    0 <= i < shorter.len() && (#[trigger] shorter[i]) is Inhibit && cookie_given(
                        s,
                        shorter,
                        i,
                    ) == c && forall|j: int|
                        i < j < shorter.len() ==> #[trigger] shorter[j] != Happening::Release(c);
                assert(shorter.take(i) =~= run.take(i));
                assert(run[i] == shorter[i]);
                assert(cookie_given(s, run, i) == c);
                assert forall|j: int| i < j < run.len() implies #[trigger] run[j]
                    != Happening::Release(c) by {
                    if j < n {
                        assert(shorter[j] == run[j]);
                    }
                }
            }
        }
    }
}

/// Once every cookie that was given has been released, in whatever order, nothing is
/// inhibited any more, and the screen may blank.
pub proof fn law_all_released_is_free(s: StateView, run: Seq<Happening>)
    requires
        s.holders == Map::<u32, HolderView>::empty(),
        forall|i: int|
            0 <= i < run.len() && (#[trigger] run[i]) is Inhibit ==> exists|j: int|
                released_at(s, run, i, j),
    ensures
        !after_all(s, run).is_inhibited(),
{
    assert forall|c: u32| !after_all(s, run).holders.contains_key(c) by {
        if after_all(s, run).holders.contains_key(c) {
            lemma_held_was_given(s, run, c);
            let i = choose|i: int|
                0 <= i < run.len() && (#[trigger] run[i]) is Inhibit && cookie_given(s, run, i) == c
                    && forall|j: int|
                    i < j < run.len() ==> #[trigger] run[j] != Happening::Release(c);
            let j = choose|j: int| released_at(s, run, i, j);
            assert(run[j] == Happening::Release(c));
        }
    }
}

/// A holder is described by what it calls itself and by its reason, in full.
pub proof fn law_description_names_both(h: HolderView)
    ensures
        h.description().take(h.app.len() as int) == h.app,
        h.description().skip(h.app.len() as int + 2) == h.reason,
        h.description().subrange(h.app.len() as int, h.app.len() as int + 2) == ": "@,
{
    reveal_strlit(": ");
    assert(h.description().take(h.app.len() as int) =~= h.app);
    assert(h.description().skip(h.app.len() as int + 2) =~= h.reason);
    assert(h.description().subrange(h.app.len() as int, h.app.len() as int + 2) =~= ": "@);
}

/// A list of descriptions holds one for each inhibitor that is held, and no more.
pub proof fn law_every_holder_is_listed(
    list: Seq<String>,
    holders: Map<u32, HolderView>,
    order: Seq<u32>,
    c: u32,
)
    requires
        is_listing(list, holders, order),
    ensures
        holders.contains_key(c) ==> exists|i: int|
            0 <= i < list.len() && (#[trigger] list[i])@ == holders[c].description(),
        holders.dom().finite(),
        list.len() == holders.dom().len(),
{
    assert(holders.dom() =~= order.to_set());
    order.unique_seq_to_set();
    if holders.contains_key(c) {
        assert(order.contains(c));
        let i = choose|i: int| 0 <= i < order.len() && order[i] == c;
        assert(list[i]@ == holders[order[i]].description());
    }
}

/// Releasing an inhibitor undoes taking it: the holders are those there were
/// before, as long as the cookie was not in use already.
pub proof fn law_release_undoes_inhibit(s: StateView, holder: HolderView)
    requires
        !s.holders.contains_key(cookie_after(s.last_cookie)),
    ensures
        s.inhibited_by(holder).released(cookie_after(s.last_cookie)).holders == s.holders,
{
    assert(s.inhibited_by(holder).released(cookie_after(s.last_cookie)).holders =~= s.holders);
}

/// A client that is gone holds nothing any more, and no other client loses
/// anything.
pub proof fn law_gone_client_holds_nothing(s: StateView, name: Seq<char>, c: u32)
    ensures
        s.without(name).holders.contains_key(c) <==> s.holders.contains_key(c)
            && s.holders[c].sender != Some(name),
        s.without(name).holders.contains_key(c) ==> s.without(name).holders[c] == s.holders[c],
        s.without(name).last_cookie == s.last_cookie,
{
}

/// A crash does not pin the screen on: if every inhibitor belongs to the client
/// that is gone, nothing is inhibited any more.
pub proof fn law_crash_does_not_pin_the_screen(s: StateView, name: Seq<char>)
    requires
        forall|c: u32| #[trigger] s.holders.contains_key(c) ==> s.holders[c].sender == Some(name),
    ensures
        !s.without(name).is_inhibited(),
{
    assert forall|c: u32| !s.without(name).holders.contains_key(c) by {
        assert(s.holders.contains_key(c) ==> s.holders[c].sender == Some(name));
    }
}

} // verus!
