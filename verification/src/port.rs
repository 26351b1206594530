//! The port that the server listens on: picked from what the system has
//! free when it is first asked for, and the same at every query after.
//!
//! The port is kept in a cell that is filled once. Filling takes exclusive
//! access to the allocator, reading takes shared access: so the port is
//! settled by one caller at the start, before anything binds, and read by
//! everyone from then on, from whichever thread; and what an allocator
//! holds is a property of its value, which the contracts below speak of.

use vstd::prelude::*;
use crate::fault::StartupFault;

verus! {

/// `once_cell::sync::OnceCell`, carried as it is: what is inside a cell is
/// known only through the calls below.
#[verifier::external_type_specification]
#[verifier::external_body]
#[verifier::reject_recursive_types(T)]
pub struct ExOnceCell<T>(once_cell::sync::OnceCell<T>);

/// What a cell holds: the port that it was filled with, or nothing. This
/// library fills a cell through exclusive access alone, so a cell that is
/// lent out holds what it held.
pub uninterp spec fn held(cell: once_cell::sync::OnceCell<u16>) -> Option<u16>;

/// `once_cell::sync::OnceCell::new`. Claimed: the new cell holds nothing.
#[verifier::external_body]
fn cell_new() -> (cell: once_cell::sync::OnceCell<u16>)
    ensures
        held(cell) is None,
{
    once_cell::sync::OnceCell::new()
}

/// `once_cell::sync::OnceCell::get`. Claimed: what comes back is what the
/// cell holds.
#[verifier::external_body]
fn cell_get(cell: &once_cell::sync::OnceCell<u16>) -> (port: Option<u16>)
    ensures
        port == held(*cell),
{
    cell.get().copied()
}

/// `once_cell::sync::OnceCell::try_insert`, called with the cell to
/// oneself. Claimed: an empty cell takes `port`, holds it afterwards, and
/// hands it back as `Ok`; a full cell stays as it is and hands back, as
/// `Err`, what it holds.
#[verifier::external_body]
fn cell_fill(cell: &mut once_cell::sync::OnceCell<u16>, port: u16) -> (kept: Result<u16, u16>)
    ensures
        match kept {
            Ok(taken) => held(*old(cell)) is None && taken == port && held(*final(cell)) == Some(
                port,
            ),
            Err(earlier) => held(*old(cell)) == Some(earlier) && held(*final(cell)) == Some(
                earlier,
            ),
        },
{
    match cell.try_insert(port) {
        Ok(kept) => Ok(*kept),
        Err((kept, _)) => Err(*kept),
    }
}

/// `portpicker::pick_unused_port`: a port that was free on TCP and UDP a
/// moment ago, or `None` after twenty vain tries. Which port comes is up to
/// chance and the system, so nothing is claimed of it.
#[verifier::external_body]
fn pick_unused_port() -> Option<u16> {
    portpicker::pick_unused_port()
}

/// The address to listen on: every interface of the machine, `0.0.0.0`, at
/// the given port.
pub fn listen_address(port: u16) -> (address: ([u8; 4], u16))
    ensures
        address.0@ == seq![0u8, 0u8, 0u8, 0u8],
        address.1 == port,
{
    let address = ([0u8, 0u8, 0u8, 0u8], port);
    assert(address.0@ =~= seq![0u8, 0u8, 0u8, 0u8]);
    address
}

/// Where the listening port is kept. One allocator is made at the start of
/// the process; the port is settled in it once, and from then on it is lent
/// to whoever needs the port: the server to bind, the window to show it.
pub struct PortAllocator {
    cell: once_cell::sync::OnceCell<u16>,
}

/// What becomes of a probe for a free port, in an allocator that holds
/// `before`: the answer, and what the allocator holds afterwards. A probe
/// that found no port is the startup fault, and changes nothing. A probe
/// that found one settles it where nothing was settled, and is answered
/// with the settled port either way.
pub open spec fn settling(before: Option<u16>, probe: Option<u16>) -> (
    Result<u16, StartupFault>,
    Option<u16>,
) {
    match probe {
        None => (Err(StartupFault::NoFreePort), before),
        Some(found) => match before {
            Some(earlier) => (Ok(earlier), before),
            None => (Ok(found), Some(found)),
        },
    }
}

/// Whether `answer` answers a query for the port of an allocator that held
/// `before` and holds `after`. A settled port is the answer, and stays.
/// Where none is settled, either the answer is a port, settled from then
/// on, or it is the startup fault, and nothing is settled.
pub open spec fn answers(
    before: Option<u16>,
    answer: Result<u16, StartupFault>,
    after: Option<u16>,
) -> bool {
    match before {
        Some(port) => answer == Ok::<u16, StartupFault>(port) && after == before,
        None => match answer {
            Ok(port) => after == Some(port),
            Err(fault) => fault == StartupFault::NoFreePort && after is None,
        },
    }
}

impl PortAllocator {
    /// The port that is settled in this allocator, if one is.
    pub closed spec fn settled(&self) -> Option<u16> {
        held(self.cell)
    }

    /// An allocator in which no port is settled yet.
    pub fn new() -> (allocator: PortAllocator)
        ensures
            allocator.settled() is None,
    {
        PortAllocator { cell: cell_new() }
    }

    /// The settled port; `None` as long as none is settled. It takes shared
    /// access only, and two looks at one allocator see the same.
    pub fn peek(&self) -> (port: Option<u16>)
        ensures
            port == self.settled(),
    {
        cell_get(&self.cell)
    }

    /// Takes what a probe for a free port brought: the answer and what the
    /// allocator holds afterwards are those of [`settling`].
    pub fn settle(&mut self, probe: Option<u16>) -> (port: Result<u16, StartupFault>)
        ensures
            (port, final(self).settled()) == settling(old(self).settled(), probe),
    {
        match probe {
            None => Err(StartupFault::NoFreePort),
            Some(found) => match cell_fill(&mut self.cell, found) {
                Ok(kept) => Ok(kept),
                Err(kept) => Ok(kept),
            },
        }
    }

    /// The port. Where one is settled, it is the answer, and nothing is
    /// asked of the system. Where none is, the system is probed for a free
    /// port, and what the probe brings is settled: a port from then on, or
    /// the startup fault, after which the next query probes again.
    pub fn port(&mut self) -> (port: Result<u16, StartupFault>)
        ensures
            answers(old(self).settled(), port, final(self).settled()),
    {
        match cell_get(&self.cell) {
            Some(port) => Ok(port),
            None => {
                let probe = pick_unused_port();
                self.settle(probe)
            },
        }
    }
}

/// The port is stable: once a query has been answered with a port, every
/// later query of the same allocator is answered with the same port, and
/// the allocator holds it unchanged.
pub proof fn law_port_is_stable(
    before: Option<u16>,
    first: Result<u16, StartupFault>,
    between: Option<u16>,
    second: Result<u16, StartupFault>,
    after: Option<u16>,
)
    requires
        answers(before, first, between),
        answers(between, second, after),
        first is Ok,
    ensures
        second == first,
        after == between,
        between == Some(first->Ok_0),
{
}

/// A settled port is never replaced: neither a later probe nor a later
/// query changes what the allocator holds.
pub proof fn law_port_is_settled_once(
    port: u16,
    probe: Option<u16>,
    answer: Result<u16, StartupFault>,
    after: Option<u16>,
)
    ensures
        settling(Some(port), probe).1 == Some(port),
        probe is Some ==> settling(Some(port), probe).0 == Ok::<u16, StartupFault>(port),
        answers(Some(port), answer, after) ==> after == Some(port) && answer == Ok::<
            u16,
            StartupFault,
        >(port),
{
}

} // verus!
