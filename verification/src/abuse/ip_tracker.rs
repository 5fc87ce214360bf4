//! A ceiling on the connections that one address holds at a time.

use crate::net::IpAddr;
use crate::table::Table;
use crate::table::TableKey;
use crate::text;
use vstd::prelude::*;

verus! {

/// The open connections of each address.
pub struct IpConnectionTracker {
    connections: Table<IpAddr, u32>,
    max_per_ip: u32,
}

/// The connections that an address holds after it tried to open one more.
pub open spec fn opened(held: int, ceiling: int) -> int {
    if held < ceiling {
        held + 1
    } else {
        held
    }
}

/// The connections that an address holds after one was closed.
pub open spec fn closed_one(held: int) -> int {
    if held > 0 {
        held - 1
    } else {
        held
    }
}

impl IpConnectionTracker {
    /// What holds of every tracker.
    pub closed spec fn wf(&self) -> bool {
        self.connections.wf()
    }

    /// The connections that an address may hold.
    pub closed spec fn ceiling(&self) -> u32 {
        self.max_per_ip
    }

    /// The connections that an address holds.
    pub closed spec fn held(&self, ip: IpAddr) -> u32 {
        if self.connections@.contains_key(ip) {
            self.connections@[ip]
        } else {
            0
        }
    }

    /// A tracker without connections.
    pub fn new(max_per_ip: u32) -> (t: IpConnectionTracker)
        ensures
            t.wf(),
            t.ceiling() == max_per_ip,
            forall|ip: IpAddr| #[trigger] t.held(ip) == 0,
    {
        IpConnectionTracker { connections: Table::new(), max_per_ip }
    }

    /// A tracker whose ceiling is the given setting, ten where it is absent or
    /// no number.
    pub fn from_env(max_connections_per_ip: Option<&str>) -> (t: IpConnectionTracker)
        ensures
            t.wf(),
            t.ceiling() == text::setting(max_connections_per_ip, u32::MAX as nat, 10),
            forall|ip: IpAddr| #[trigger] t.held(ip) == 0,
    {
        IpConnectionTracker::new(text::u32_setting(max_connections_per_ip, 10))
    }

    /// The connections that an address may hold.
    pub fn max_per_ip(&self) -> (n: u32)
        ensures
            n == self.ceiling(),
    {
        self.max_per_ip
    }

    /// Sets the ceiling. Connections that are open stay.
    pub fn set_max_per_ip(&mut self, max: u32)
        requires
            old(self).wf(),
        ensures
            final(self).wf(),
            final(self).ceiling() == max,
            forall|ip: IpAddr| #[trigger] final(self).held(ip) == old(self).held(ip),
    {
        self.max_per_ip = max;
    }

    /// Opens a connection if the address is under the ceiling, and says whether
    /// it was.
    pub fn try_add(&mut self, ip: IpAddr) -> (ok: bool)
        requires
            old(self).wf(),
        ensures
            final(self).wf(),
            final(self).ceiling() == old(self).ceiling(),
            ok == (old(self).held(ip) < old(self).ceiling()),
            final(self).held(ip) == opened(old(self).held(ip) as int, old(self).ceiling() as int),
            forall|other: IpAddr|
                other != ip ==> #[trigger] final(self).held(other) == old(self).held(other),
    {
        let max: u32 = self.max_per_ip;
        let count = self.connections.entry_mut(ip, 0);
        if *count < max {
            *count = *count + 1;
            true
        } else {
            false
        }
    }

    /// Closes a connection of an address, if it holds one.
    pub fn remove(&mut self, ip: IpAddr)
        requires
            old(self).wf(),
        ensures
            final(self).wf(),
            final(self).ceiling() == old(self).ceiling(),
            final(self).held(ip) == closed_one(old(self).held(ip) as int),
            forall|other: IpAddr|
                other != ip ==> #[trigger] final(self).held(other) == old(self).held(other),
    {
        let last: bool = match self.connections.get(&ip) {
            None => {
                return ;
            },
            Some(count) => *count <= 1,
        };
        if last {
            let _ = self.connections.remove(&ip);
        } else {
            let count = self.connections.at_mut(&ip);
            *count = *count - 1;
        }
    }

    /// The connections that an address holds.
    pub fn count(&self, ip: IpAddr) -> (n: u32)
        requires
            self.wf(),
        ensures
            n == self.held(ip),
    {
        match self.connections.get(&ip) {
            Some(count) => *count,
            None => 0,
        }
    }
}

/// The connections after `n` tries to open one, from `held` on.
pub open spec fn opened_times(held: int, ceiling: int, n: nat) -> int
    decreases n,
{
    if n == 0 {
        held
    } else {
        opened(opened_times(held, ceiling, (n - 1) as nat), ceiling)
    }
}

/// The connections after `n` were closed, from `held` on.
pub open spec fn closed_times(held: int, n: nat) -> int
    decreases n,
{
    if n == 0 {
        held
    } else {
        closed_one(closed_times(held, (n - 1) as nat))
    }
}

/// An address opens as many connections as the ceiling allows and no more; those
/// that it closes come off the count, and make room again.
pub proof fn law_opened_less_closed(ceiling: int, n: nat, m: nat)
    requires
        0 <= ceiling,
    ensures
        opened_times(0, ceiling, n) == (if n <= ceiling {
            n as int
        } else {
            ceiling
        }),
        n <= ceiling && m <= n ==> closed_times(opened_times(0, ceiling, n), m) == n - m,
        ceiling > 0 && n >= ceiling ==> opened(
            closed_one(opened_times(0, ceiling, n)),
            ceiling,
        ) == ceiling,
    decreases n, m,
{
    if n > 0 {
        law_opened_less_closed(ceiling, (n - 1) as nat, 0);
    }
    if m > 0 {
        law_opened_less_closed(ceiling, n, (m - 1) as nat);
    }
}

/// What the answers show: a connection is opened exactly below the ceiling and
/// then counts, one that is refused does not, closing it takes it off again, and
/// no other address sees any of this. A new ceiling closes nothing.
pub proof fn law_connections_are_counted(
    opening: &mut IpConnectionTracker,
    closing: &mut IpConnectionTracker,
    setting: &mut IpConnectionTracker,
    open: &IpConnectionTracker,
    closed: &IpConnectionTracker,
    fresh: IpConnectionTracker,
    max: u32,
    ip: IpAddr,
    other: IpAddr,
    ok: bool,
    while_open: u32,
    of_other: u32,
    once_closed: u32,
)
    requires
        call_ensures(IpConnectionTracker::new, (max,), fresh),
        call_ensures(IpConnectionTracker::try_add, (opening, ip), ok),
        *open == *final(opening),
        call_ensures(IpConnectionTracker::count, (open, ip), while_open),
        call_ensures(IpConnectionTracker::count, (open, other), of_other),
        *old(closing) == *final(opening),
        call_ensures(IpConnectionTracker::remove, (closing, ip), ()),
        *closed == *final(closing),
        call_ensures(IpConnectionTracker::count, (closed, ip), once_closed),
        call_ensures(IpConnectionTracker::set_max_per_ip, (setting, max), ()),
    ensures
        fresh.ceiling() == max && fresh.held(ip) == 0,
        ok <==> old(opening).held(ip) < old(opening).ceiling(),
        ok ==> while_open == old(opening).held(ip) + 1 && once_closed == old(opening).held(ip),
        !ok ==> while_open == old(opening).held(ip),
        other != ip ==> of_other == old(opening).held(other),
        final(setting).ceiling() == max && final(setting).held(ip) == old(setting).held(ip),
{
}

} // verus!
