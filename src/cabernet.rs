use vstd::prelude::*;
use vstd::string::*;

use crate::addr::{addr_of_text, ipv4_text, ipv4_to_string, parse_ipv4, Ipv4};
use crate::error::{CabernetError, Result};
use crate::frame::{destination_of, frame_destination, ipv4_header_ok};
use crate::provision::{netns_for_ip, netns_name};

verus! {

/// Where a UE sits in a `Cabernet`: in its list of UEs, or in the gateway place.
#[derive(Clone, Copy, Debug, PartialEq, Eq, Structural)]
pub enum Slot {
    Ue(usize),
    Gateway,
}

/// The addresses that a router holds: those of its UEs, in the order of their creation, and that
/// of its gateway, if it has one.
pub struct Roster {
    pub ues: Seq<Ipv4>,
    pub gateway: Option<Ipv4>,
}

impl Roster {
    /// No address is held twice, and each UE has a place that a `usize` numbers.
    pub open spec fn wf(self) -> bool {
        &&& self.ues.len() <= usize::MAX
        &&& forall|i: int, j: int| 0 <= i < j < self.ues.len() ==> self.ues[i] != self.ues[j]
        &&& forall|i: int| 0 <= i < self.ues.len() ==> Some(self.ues[i]) != self.gateway
    }

    pub open spec fn holds_ue(self, x: Ipv4) -> bool {
        exists|i: int| 0 <= i < self.ues.len() && self.ues[i] == x
    }

    /// The position of the UE at `x`, where `holds_ue(x)`.
    pub open spec fn ue_index(self, x: Ipv4) -> int {
        choose|i: int| 0 <= i < self.ues.len() && self.ues[i] == x
    }

    /// Neither a UE nor the gateway holds `x`.
    pub open spec fn free(self, x: Ipv4) -> bool {
        !self.holds_ue(x) && self.gateway != Some(x)
    }

    /// The place of the holder of `x`: the UEs are searched first, then the gateway.
    pub open spec fn slot_of(self, x: Ipv4) -> Option<Slot> {
        if self.holds_ue(x) {
            Some(Slot::Ue(self.ue_index(x) as usize))
        } else if self.gateway == Some(x) {
            Some(Slot::Gateway)
        } else {
            None
        }
    }

    /// Where a frame for `x` goes: to its holder, else to the gateway, if there is one.
    pub open spec fn route(self, x: Ipv4) -> Option<Slot> {
        if self.slot_of(x) is Some {
            self.slot_of(x)
        } else if self.gateway is Some {
            Some(Slot::Gateway)
        } else {
            None
        }
    }

    /// The roster after a UE is created at `x`; nothing changes when `x` is taken.
    pub open spec fn create(self, x: Ipv4) -> Roster {
        if self.free(x) {
            Roster { ues: self.ues.push(x), gateway: self.gateway }
        } else {
            self
        }
    }

    /// The roster after the UE at `x` is deleted; the gateway is never deleted.
    pub open spec fn delete(self, x: Ipv4) -> Roster {
        if self.holds_ue(x) {
            Roster { ues: self.ues.remove(self.ue_index(x)), gateway: self.gateway }
        } else {
            self
        }
    }

    /// The holder of `a` may move to `b`: it exists, and `b` is free or is its own address.
    pub open spec fn may_change(self, a: Ipv4, b: Ipv4) -> bool {
        &&& self.slot_of(a) is Some
        &&& (self.free(b) || self.slot_of(b) == self.slot_of(a))
    }

    /// The roster after the holder of `a` moves to `b`; nothing changes when it may not.
    pub open spec fn change(self, a: Ipv4, b: Ipv4) -> Roster {
        if self.may_change(a, b) {
            if self.holds_ue(a) {
                Roster { ues: self.ues.update(self.ue_index(a), b), gateway: self.gateway }
            } else {
                Roster { ues: self.ues, gateway: Some(b) }
            }
        } else {
            self
        }
    }
}

proof fn lemma_index_unique(r: Roster, x: Ipv4, i: int)
    requires
        r.wf(),
        0 <= i < r.ues.len(),
        r.ues[i] == x,
    ensures
        r.holds_ue(x),
        r.ue_index(x) == i,
        r.slot_of(x) == Some(Slot::Ue(i as usize)),
{
    let j = r.ue_index(x);
    assert(r.ues[j] == x);
}

/// Creating, deleting and moving UEs keeps every address held at most once.
pub proof fn lemma_steps_keep_wf(r: Roster, x: Ipv4, b: Ipv4)
    requires
        r.wf(),
    ensures
        r.ues.len() < usize::MAX ==> r.create(x).wf(),
        r.delete(x).wf(),
        r.change(x, b).wf(),
{
    if r.holds_ue(x) {
        let j = r.ue_index(x);
        assert(r.ues[j] == x);
        let d = r.delete(x);
        assert forall|i: int, k: int| 0 <= i < k < d.ues.len() implies d.ues[i] != d.ues[k] by {
            let i2 = if i < j { i } else { i + 1 };
            let k2 = if k < j { k } else { k + 1 };
            assert(d.ues[i] == r.ues[i2]);
            assert(d.ues[k] == r.ues[k2]);
        }
        assert forall|i: int| 0 <= i < d.ues.len() implies Some(d.ues[i]) != d.gateway by {
            let i2 = if i < j { i } else { i + 1 };
            assert(d.ues[i] == r.ues[i2]);
        }
    }
    if r.may_change(x, b) {
        if r.holds_ue(b) {
            let j = r.ue_index(b);
            assert(r.ues[j] == b);
        }
        if r.holds_ue(x) {
            let j = r.ue_index(x);
            assert(r.ues[j] == x);
        }
    }
}

/// Creating a UE at `x`, deleting the UE at `x`, and creating one at `x` again succeeds: the
/// deletion frees the address, so the names derived from it are free again too.
pub proof fn lemma_create_delete_create(r: Roster, x: Ipv4)
    requires
        r.wf(),
        r.ues.len() < usize::MAX,
        r.gateway != Some(x),
    ensures
        r.create(x).holds_ue(x),
        r.create(x).delete(x).free(x),
{
    lemma_steps_keep_wf(r, x, x);
    let r1 = r.create(x);
    if r.free(x) {
        assert(r1.ues[r.ues.len() as int] == x);
    }
    let j = r1.ue_index(x);
    assert(r1.ues[j] == x);
    let r2 = r1.delete(x);
    assert forall|i: int| 0 <= i < r2.ues.len() implies r2.ues[i] != x by {
        let i2 = if i < j { i } else { i + 1 };
        assert(r2.ues[i] == r1.ues[i2]);
    }
}

/// Moving the UE at `a` to `b` and then back to `a` succeeds twice and leaves the roster as it
/// was, with the UE reachable at `a` in its former place.
pub proof fn lemma_change_round_trip(r: Roster, a: Ipv4, b: Ipv4)
    requires
        r.wf(),
        r.may_change(a, b),
    ensures
        r.change(a, b).may_change(b, a),
        r.change(a, b).change(b, a) == r,
        r.change(a, b).change(b, a).slot_of(a) == r.slot_of(a),
{
    lemma_steps_keep_wf(r, a, b);
    let r1 = r.change(a, b);
    if r.holds_ue(a) {
        let i = r.ue_index(a);
        assert(r.ues[i] == a);
        lemma_index_unique(r1, b, i);
        if r1.holds_ue(a) {
            let k = r1.ue_index(a);
            assert(r1.ues[k] == a);
            assert(k == i);
        }
        assert(r1.ues.update(i, a) =~= r.ues);
    } else {
        assert(r1.slot_of(b) == Some(Slot::Gateway));
        if r1.holds_ue(a) {
            let k = r1.ue_index(a);
            assert(r1.ues[k] == a);
            assert(r.ues[k] == a);
        }
    }
}

/// One emulated device as the router sees it: its current address, the name of its namespace
/// (fixed when it was created), and the handle of its device.
pub struct UE<D> {
    pub ip: String,
    pub addr: Ipv4,
    pub netns: String,
    pub dev: D,
}

impl<D> UE<D> {
    /// The text of the address is its canonical text.
    pub open spec fn wf(&self) -> bool {
        self.ip@ == ipv4_text(self.addr)
    }

    /// A UE at the address that `ip` writes, in the namespace `cab-<ip>`, with device `dev`.
    pub fn new(ip: &str, dev: D) -> (r: Result<UE<D>>)
        ensures
            match addr_of_text(ip@) {
                Some(x) => r matches Ok(u) && u.wf() && u.addr == x && u.ip@ == ip@ && u.netns@
                    == netns_name(ip@) && u.dev == dev,
                None => r matches Err(CabernetError::InvalidAddress(t)) && t@ == ip@,
            },
    {
        match parse_ipv4(ip) {
            Some(x) => Ok(UE { ip: String::from_str(ip), addr: x, netns: netns_for_ip(ip), dev }),
            None => Err(CabernetError::InvalidAddress(String::from_str(ip))),
        }
    }

    /// Moves the UE to the address that `new_ip` writes; its namespace and device stay.
    pub fn change_ip(&mut self, new_ip: &str) -> (r: Result<()>)
        ensures
            match addr_of_text(new_ip@) {
                Some(y) => {
                    &&& r is Ok
                    &&& final(self).wf()
                    &&& final(self).addr == y
                    &&& final(self).ip@ == new_ip@
                    &&& final(self).netns == old(self).netns
                    &&& final(self).dev == old(self).dev
                },
                None => {
                    &&& r matches Err(CabernetError::InvalidAddress(t)) && t@ == new_ip@
                    &&& *final(self) == *old(self)
                },
            },
    {
        match parse_ipv4(new_ip) {
            Some(y) => {
                self.ip = String::from_str(new_ip);
                self.addr = y;
                Ok(())
            },
            None => Err(CabernetError::InvalidAddress(String::from_str(new_ip))),
        }
    }
}

impl<D> Default for Cabernet<D> {
    fn default() -> (r: Self)
        ensures
            r.wf(),
            r.ue_list().len() == 0,
            r.gateway_ue() is None,
    {
        Self::new()
    }
}

/// The router: the UEs in the order of their creation, and an optional gateway UE that takes the
/// frames for addresses that no UE holds.
pub struct Cabernet<D> {
    ues: Vec<UE<D>>,
    gateway: Option<UE<D>>,
}

impl<D> Cabernet<D> {
    pub closed spec fn ue_list(&self) -> Seq<UE<D>> {
        self.ues@
    }

    pub closed spec fn gateway_ue(&self) -> Option<UE<D>> {
        self.gateway
    }

    /// The addresses held.
    pub open spec fn model(&self) -> Roster {
        Roster {
            ues: self.ue_list().map_values(|u: UE<D>| u.addr),
            gateway: match self.gateway_ue() {
                Some(g) => Some(g.addr),
                None => None,
            },
        }
    }

    pub open spec fn wf(&self) -> bool {
        &&& self.model().wf()
        &&& forall|i: int| 0 <= i < self.ue_list().len() ==> (#[trigger] self.ue_list()[i]).wf()
        &&& (self.gateway_ue() matches Some(g) ==> g.wf())
    }

    /// A router with no UE and no gateway.
    pub fn new() -> (r: Self)
        ensures
            r.wf(),
            r.ue_list().len() == 0,
            r.gateway_ue() is None,
    {
        Cabernet { ues: Vec::new(), gateway: None }
    }

    /// A router with no UE whose gateway is `dev` at the address that `gateway` writes.
    pub fn with_internet(gateway: &str, dev: D) -> (r: Result<Self>)
        ensures
            match addr_of_text(gateway@) {
                Some(x) => r matches Ok(c) && c.wf() && c.ue_list().len() == 0 && (c.gateway_ue()
                    matches Some(g) && g.addr == x && g.ip@ == gateway@ && g.netns@ == netns_name(
                    gateway@,
                ) && g.dev == dev),
                None => r matches Err(CabernetError::InvalidAddress(t)) && t@ == gateway@,
            },
    {
        let g = UE::new(gateway, dev)?;
        let c = Cabernet { ues: Vec::new(), gateway: Some(g) };
        proof {
            assert(c.model().ues =~= Seq::<Ipv4>::empty());
        }
        Ok(c)
    }

    fn find_ue(&self, x: Ipv4) -> (r: Option<usize>)
        requires
            self.wf(),
        ensures
            r == (if self.model().holds_ue(x) {
                Some(self.model().ue_index(x) as usize)
            } else {
                None
            }),
            r matches Some(i) ==> i < self.ue_list().len() && self.model().ues[i as int] == x
                && i as int == self.model().ue_index(x),
    {
        let ghost m = self.model();
        let mut i: usize = 0;
        while i < self.ues.len()
            invariant
                i <= self.ues@.len(),
                m == self.model(),
                self.wf(),
                forall|k: int| 0 <= k < i ==> m.ues[k] != x,
            decreases self.ues@.len() - i,
        {
            if self.ues[i].addr == x {
                proof {
                    assert(m.ues[i as int] == x);
                    let j = m.ue_index(x);
                    assert(m.ues[j] == x);
                }
                return Some(i);
            }
            i += 1;
        }
        None
    }

    fn find(&self, x: Ipv4) -> (r: Option<Slot>)
        requires
            self.wf(),
        ensures
            r == self.model().slot_of(x),
            r matches Some(Slot::Ue(i)) ==> i < self.ue_list().len() && self.model().ues[i as int]
                == x && i as int == self.model().ue_index(x),
    {
        match self.find_ue(x) {
            Some(i) => Some(Slot::Ue(i)),
            None => match &self.gateway {
                Some(g) => if g.addr == x {
                    Some(Slot::Gateway)
                } else {
                    None
                },
                None => None,
            },
        }
    }

    /// The place of the UE at the address that `ip` writes: the UEs are searched first, then the
    /// gateway.
    pub fn get_ue(&self, ip: &str) -> (r: Result<Slot>)
        requires
            self.wf(),
        ensures
            match addr_of_text(ip@) {
                Some(x) => match self.model().slot_of(x) {
                    Some(s) => r matches Ok(t) && t == s,
                    None => r matches Err(CabernetError::IPNotAssigned(t)) && t@ == ip@,
                },
                None => r matches Err(CabernetError::IPNotAssigned(t)) && t@ == ip@,
            },
    {
        match parse_ipv4(ip) {
            Some(x) => match self.find(x) {
                Some(s) => Ok(s),
                None => Err(CabernetError::IPNotAssigned(String::from_str(ip))),
            },
            None => Err(CabernetError::IPNotAssigned(String::from_str(ip))),
        }
    }

    /// The UE in place `s`, if there is one.
    pub fn ue(&self, s: Slot) -> (r: Option<&UE<D>>)
        ensures
            match s {
                Slot::Ue(i) => if i < self.ue_list().len() {
                    r matches Some(u) && *u == self.ue_list()[i as int]
                } else {
                    r is None
                },
                Slot::Gateway => match self.gateway_ue() {
                    Some(g) => r matches Some(u) && *u == g,
                    None => r is None,
                },
            },
    {
        match s {
            Slot::Ue(i) => if i < self.ues.len() {
                Some(&self.ues[i])
            } else {
                None
            },
            Slot::Gateway => match &self.gateway {
                Some(g) => Some(g),
                None => None,
            },
        }
    }

    /// The number of UEs, the gateway aside.
    pub fn ue_count(&self) -> (n: usize)
        ensures
            n == self.ue_list().len(),
    {
        self.ues.len()
    }

    /// Whether a UE may be created at the address that `ip` writes: it must be canonical
    /// dotted-quad text, and no UE nor the gateway may hold it.
    pub fn check_new_ip(&self, ip: &str) -> (r: Result<Ipv4>)
        requires
            self.wf(),
        ensures
            match addr_of_text(ip@) {
                Some(x) => if self.model().free(x) {
                    r matches Ok(y) && y == x
                } else {
                    r matches Err(CabernetError::IPAlreadyAssigned(t)) && t@ == ip@
                },
                None => r matches Err(CabernetError::InvalidAddress(t)) && t@ == ip@,
            },
    {
        match parse_ipv4(ip) {
            Some(x) => match self.find(x) {
                Some(_) => Err(CabernetError::IPAlreadyAssigned(String::from_str(ip))),
                None => Ok(x),
            },
            None => Err(CabernetError::InvalidAddress(String::from_str(ip))),
        }
    }

    /// Adds the UE with device `dev` at the address that `ip` writes, after all others.
    pub fn create_ue(&mut self, ip: &str, dev: D) -> (r: Result<()>)
        requires
            old(self).wf(),
            old(self).ue_list().len() < usize::MAX,
        ensures
            final(self).wf(),
            match addr_of_text(ip@) {
                Some(x) => if old(self).model().free(x) {
                    &&& r is Ok
                    &&& final(self).ue_list().len() == old(self).ue_list().len() + 1
                    &&& final(self).ue_list().drop_last() == old(self).ue_list()
                    &&& final(self).ue_list().last().addr == x
                    &&& final(self).ue_list().last().ip@ == ip@
                    &&& final(self).ue_list().last().netns@ == netns_name(ip@)
                    &&& final(self).ue_list().last().dev == dev
                    &&& final(self).gateway_ue() == old(self).gateway_ue()
                } else {
                    &&& r matches Err(CabernetError::IPAlreadyAssigned(t)) && t@ == ip@
                    &&& *final(self) == *old(self)
                },
                None => {
                    &&& r matches Err(CabernetError::InvalidAddress(t)) && t@ == ip@
                    &&& *final(self) == *old(self)
                },
            },
            match addr_of_text(ip@) {
                Some(x) => final(self).model() == old(self).model().create(x),
                None => final(self).model() == old(self).model(),
            },
    {
        let x = self.check_new_ip(ip)?;
        let u = UE::new(ip, dev)?;
        let ghost m = self.model();
        self.ues.push(u);
        proof {
            assert(self.model().ues =~= m.ues.push(x));
            assert(self.ue_list().drop_last() =~= old(self).ue_list());
        }
        Ok(())
    }

    /// Removes and drops the UE at the address that `ip` writes. The gateway is not deleted.
    pub fn delete_ue(&mut self, ip: &str) -> (r: Result<()>)
        requires
            old(self).wf(),
        ensures
            final(self).wf(),
            match addr_of_text(ip@) {
                Some(x) => if old(self).model().holds_ue(x) {
                    &&& r is Ok
                    &&& final(self).ue_list() == old(self).ue_list().remove(
                        old(self).model().ue_index(x),
                    )
                    &&& final(self).gateway_ue() == old(self).gateway_ue()
                    &&& final(self).model() == old(self).model().delete(x)
                    &&& !final(self).model().holds_ue(x)
                    &&& final(self).model().slot_of(x) is None
                } else {
                    &&& r matches Err(CabernetError::IPNotAssigned(t)) && t@ == ip@
                    &&& *final(self) == *old(self)
                },
                None => {
                    &&& r matches Err(CabernetError::IPNotAssigned(t)) && t@ == ip@
                    &&& *final(self) == *old(self)
                },
            },
    {
        let x = match parse_ipv4(ip) {
            Some(x) => x,
            None => {
                return Err(CabernetError::IPNotAssigned(String::from_str(ip)));
            },
        };
        let i = match self.find_ue(x) {
            Some(i) => i,
            None => {
                return Err(CabernetError::IPNotAssigned(String::from_str(ip)));
            },
        };
        let ghost m = self.model();
        proof {
            let j = m.ue_index(x);
            assert(0 <= j < m.ues.len() && m.ues[j] == x);
            assert(j == i as int);
        }
        let _ue = self.ues.remove(i);
        proof {
            assert(self.model().ues =~= m.ues.remove(i as int));
            assert forall|k: int| 0 <= k < self.model().ues.len() implies self.model().ues[k]
                != x by {
                if k < i {
                    assert(m.ues[k] != m.ues[i as int]);
                } else {
                    assert(m.ues[k + 1] != m.ues[i as int]);
                }
            }
        }
        Ok(())
    }

    /// Moves the UE at the address that `old_ip` writes (the UEs are searched first, then the
    /// gateway) to the address that `new_ip` writes, and reports its place. Its namespace keeps
    /// its name.
    pub fn change_ip(&mut self, old_ip: &str, new_ip: &str) -> (r: Result<Slot>)
        requires
            old(self).wf(),
        ensures
            final(self).wf(),
            match (addr_of_text(old_ip@), addr_of_text(new_ip@)) {
                (Some(a), Some(b)) => if old(self).model().may_change(a, b) {
                    &&& r matches Ok(s) && Some(s) == old(self).model().slot_of(a)
                    &&& final(self).model() == old(self).model().change(a, b)
                } else if old(self).model().slot_of(a) is None {
                    &&& r matches Err(CabernetError::IPNotAssigned(t)) && t@ == old_ip@
                    &&& *final(self) == *old(self)
                } else {
                    &&& r matches Err(CabernetError::IPAlreadyAssigned(t)) && t@ == new_ip@
                    &&& *final(self) == *old(self)
                },
                (Some(a), None) => if old(self).model().slot_of(a) is None {
                    &&& r matches Err(CabernetError::IPNotAssigned(t)) && t@ == old_ip@
                    &&& *final(self) == *old(self)
                } else {
                    &&& r matches Err(CabernetError::InvalidAddress(t)) && t@ == new_ip@
                    &&& *final(self) == *old(self)
                },
                (None, _) => {
                    &&& r matches Err(CabernetError::IPNotAssigned(t)) && t@ == old_ip@
                    &&& *final(self) == *old(self)
                },
            },
            r matches Ok(s) ==> match s {
                Slot::Ue(i) => {
                    &&& final(self).ue_list().len() == old(self).ue_list().len()
                    &&& forall|k: int|
                        0 <= k < final(self).ue_list().len() && k != i ==> final(self).ue_list()[k]
                            == old(self).ue_list()[k]
                    &&& final(self).ue_list()[i as int].ip@ == new_ip@
                    &&& final(self).ue_list()[i as int].netns == old(self).ue_list()[i as int].netns
                    &&& final(self).ue_list()[i as int].dev == old(self).ue_list()[i as int].dev
                    &&& final(self).gateway_ue() == old(self).gateway_ue()
                },
                Slot::Gateway => {
                    &&& final(self).ue_list() == old(self).ue_list()
                    &&& final(self).gateway_ue() is Some
                    &&& final(self).gateway_ue()->Some_0.ip@ == new_ip@
                    &&& final(self).gateway_ue()->Some_0.netns == old(self).gateway_ue()->Some_0.netns
                    &&& final(self).gateway_ue()->Some_0.dev == old(self).gateway_ue()->Some_0.dev
                },
            },
    {
        let ghost m = self.model();
        let a = match parse_ipv4(old_ip) {
            Some(a) => a,
            None => {
                return Err(CabernetError::IPNotAssigned(String::from_str(old_ip)));
            },
        };
        let s = match self.find(a) {
            Some(s) => s,
            None => {
                return Err(CabernetError::IPNotAssigned(String::from_str(old_ip)));
            },
        };
        let b = match parse_ipv4(new_ip) {
            Some(b) => b,
            None => {
                return Err(CabernetError::InvalidAddress(String::from_str(new_ip)));
            },
        };
        match self.find(b) {
            Some(t) => if t != s {
                return Err(CabernetError::IPAlreadyAssigned(String::from_str(new_ip)));
            },
            None => {},
        }
        proof {
            assert(m.free(b) || m.slot_of(b) == Some(s));
            if m.holds_ue(b) {
                let j = m.ue_index(b);
                assert(0 <= j < m.ues.len() && m.ues[j] == b);
            }
        }
        match s {
            Slot::Ue(i) => {
                let mut u = self.ues.remove(i);
                let _ = u.change_ip(new_ip);
                self.ues.insert(i, u);
                proof {
                    assert(self.model().ues =~= m.ues.update(i as int, b));
                    assert forall|k: int| 0 <= k < self.ue_list().len() && k != i implies
                        self.ue_list()[k] == old(self).ue_list()[k] by {
                        if k < i {
                        } else {
                        }
                    }
                }
            },
            Slot::Gateway => {
                let mut g = self.gateway.take().unwrap();
                let _ = g.change_ip(new_ip);
                self.gateway = Some(g);
            },
        }
        Ok(s)
    }

    /// Where the frame goes: to the UE at its destination address, else to the gateway, if there
    /// is one. A frame that does not start with a well-formed IPv4 header goes nowhere.
    pub fn route_frame(&self, frame: &[u8]) -> (r: Result<Slot>)
        requires
            self.wf(),
        ensures
            !ipv4_header_ok(frame@) ==> r matches Err(CabernetError::Ipv4HeaderParse(_)),
            ipv4_header_ok(frame@) ==> match self.model().route(destination_of(frame@)) {
                Some(s) => r matches Ok(t) && t == s,
                None => r matches Err(CabernetError::IPNotAssigned(t)) && t@ == ipv4_text(
                    destination_of(frame@),
                ),
            },
            frame@.len() < 20 || frame@[0] / 16 != 4 ==> r matches Err(
                CabernetError::Ipv4HeaderParse(_),
            ),
            ipv4_header_ok(frame@) && self.model().holds_ue(destination_of(frame@)) ==> (r matches Ok(
                Slot::Ue(i),
            ) && i < self.ue_list().len() && self.ue_list()[i as int].addr == destination_of(frame@)),
            ipv4_header_ok(frame@) && self.model().slot_of(destination_of(frame@)) is None
                && self.gateway_ue() is Some ==> r matches Ok(Slot::Gateway),
            ipv4_header_ok(frame@) && self.model().slot_of(destination_of(frame@)) is None
                && self.gateway_ue() is None ==> r matches Err(CabernetError::IPNotAssigned(_)),
    {
        let x = frame_destination(frame)?;
        match self.find(x) {
            Some(s) => Ok(s),
            None => if self.gateway.is_some() {
                Ok(Slot::Gateway)
            } else {
                Err(CabernetError::IPNotAssigned(ipv4_to_string(x)))
            },
        }
    }

    /// The order in which the devices are polled for frames: the UEs in the order of their
    /// creation, then the gateway.
    pub fn poll_order(&self) -> (r: Vec<Slot>)
        ensures
            r@.len() == self.ue_list().len() + if self.gateway_ue() is Some {
                1int
            } else {
                0
            },
            forall|i: int| 0 <= i < self.ue_list().len() ==> r@[i] == Slot::Ue(i as usize),
            self.gateway_ue() is Some ==> r@.last() == Slot::Gateway,
    {
        let mut r: Vec<Slot> = Vec::new();
        let mut i: usize = 0;
        while i < self.ues.len()
            invariant
                i <= self.ues@.len(),
                r@.len() == i,
                forall|k: int| 0 <= k < i ==> r@[k] == Slot::Ue(k as usize),
            decreases self.ues@.len() - i,
        {
            r.push(Slot::Ue(i));
            i += 1;
        }
        if self.gateway.is_some() {
            r.push(Slot::Gateway);
        }
        r
    }
}

} // verus!
