//! Which clients are restricted, and how.

use std::collections::HashMap;
use vstd::prelude::*;

verus! {

broadcast use vstd::std_specs::hash::group_hash_axioms;

/// The address of a client, as a number.
#[derive(Clone, Copy, Debug, PartialEq, Eq, Structural)]
pub enum IpAddr {
    V4(u32),
    V6(u128),
}

/// The IPv6 address that stands for a client: its own, or the IPv4-mapped one `::ffff:a.b.c.d`.
pub open spec fn ipv6(client: IpAddr) -> u128 {
    match client {
        IpAddr::V4(address) => (0xffff_0000_0000 + address) as u128,
        IpAddr::V6(address) => address,
    }
}

impl IpAddr {
    /// The IPv6 address that stands for the client.
    pub fn to_ipv6(&self) -> (address: u128)
        ensures
            address == ipv6(*self),
            *self matches IpAddr::V6(own) ==> address == own,
            *self matches IpAddr::V4(own) ==> address == 0xffff_0000_0000 + own,
    {
        match *self {
            IpAddr::V4(address) => 0xffff_0000_0000 + address as u128,
            IpAddr::V6(address) => address,
        }
    }
}

/// How a client is restricted.
#[derive(Clone, Copy, Debug, PartialEq, Eq, Structural)]
pub enum BlocklistStatus {
    /// The client is turned away as if what it asks for did not exist.
    ShadowBanned,
    /// The client is turned away.
    Blocked,
    /// The client may play, but sees no server list entry.
    PingMasked,
}

/// The restricted clients, by the IPv6 address that stands for them.
#[derive(Debug)]
pub struct Blocklist {
    entries: HashMap<u128, BlocklistStatus>,
}

impl View for Blocklist {
    type V = Map<u128, BlocklistStatus>;

    closed spec fn view(&self) -> Map<u128, BlocklistStatus> {
        self.entries@
    }
}

/// How `entries` restrict `client`.
pub open spec fn listed(entries: Map<u128, BlocklistStatus>, client: IpAddr) -> Option<
    BlocklistStatus,
> {
    if entries.dom().contains(ipv6(client)) {
        Some(entries[ipv6(client)])
    } else {
        None
    }
}

impl Blocklist {
    /// A list that restricts nobody.
    pub fn new() -> (blocklist: Blocklist)
        ensures
            blocklist@ == Map::<u128, BlocklistStatus>::empty(),
    {
        Blocklist { entries: HashMap::new() }
    }

    /// How the list restricts `client`.
    pub fn status(&self, client: IpAddr) -> (status: Option<BlocklistStatus>)
        ensures
            status == listed(self@, client),
            client matches IpAddr::V6(own) ==> status == (if self@.dom().contains(own) {
                Some(self@[own])
            } else {
                None
            }),
    {
        let address: u128 = client.to_ipv6();
        match self.entries.get(&address) {
            Some(status) => Some(*status),
            None => None,
        }
    }

    /// Takes over the list that was fetched, and says whether there was one. If fetching or
    /// reading it failed, the list stays as it is.
    pub fn refresh(&mut self, fetched: Option<HashMap<u128, BlocklistStatus>>) -> (refreshed: bool)
        ensures
            refreshed == (fetched is Some),
            final(self)@ == (match fetched {
                Some(entries) => entries@,
                None => old(self)@,
            }),
    {
        match fetched {
            Some(entries) => {
                self.entries = entries;
                true
            },
            None => false,
        }
    }
}

/// An IPv4 client and the client with its IPv4-mapped address are restricted alike, and no two
/// IPv4 clients share an entry.
pub proof fn law_mapped_clients_are_one(
    entries: Map<u128, BlocklistStatus>,
    first: u32,
    second: u32,
)
    ensures
        listed(entries, IpAddr::V4(first)) == listed(entries, IpAddr::V6(ipv6(IpAddr::V4(first)))),
        ipv6(IpAddr::V4(first)) == ipv6(IpAddr::V4(second)) ==> first == second,
{
}

/// The entries in force after a series of attempts to fetch the list, from an empty list on.
pub open spec fn in_force(fetched: Seq<Option<Map<u128, BlocklistStatus>>>) -> Map<
    u128,
    BlocklistStatus,
>
    decreases fetched.len(),
{
    if fetched.len() == 0 {
        Map::empty()
    } else {
        match fetched.last() {
            Some(entries) => entries,
            None => in_force(fetched.drop_last()),
        }
    }
}

/// The list in force is the one that was fetched last: attempts that fail change nothing.
pub proof fn law_failed_fetches_change_nothing(
    fetched: Seq<Option<Map<u128, BlocklistStatus>>>,
    i: int,
)
    requires
        0 <= i < fetched.len(),
        fetched[i] is Some,
        forall|j: int| i < j < fetched.len() ==> fetched[j] is None,
    ensures
        in_force(fetched) == fetched[i]->0,
    decreases fetched.len(),
{
    if i < fetched.len() - 1 {
        let before = fetched.drop_last();
        assert(before[i] == fetched[i]);
        law_failed_fetches_change_nothing(before, i);
    }
}

/// An IPv6 client stands for itself, with every bit of its address. The address of an IPv4 client
/// is the low 32 bits of the one that stands for it, below the marker of a mapped address.
pub proof fn law_address_is_kept(v6: u128, v4: u32)
    ensures
        ipv6(IpAddr::V6(v6)) == v6,
        ipv6(IpAddr::V4(v4)) % 0x1_0000_0000 == v4,
        ipv6(IpAddr::V4(v4)) / 0x1_0000_0000 == 0xffff,
{
}

/// A client is restricted exactly if there is an entry under its own address, and then as that
/// entry says.
pub proof fn law_own_entry_decides(entries: Map<u128, BlocklistStatus>, v6: u128, v4: u32)
    ensures
        entries.dom().contains(v6) ==> listed(entries, IpAddr::V6(v6)) == Some(entries[v6]),
        !entries.dom().contains(v6) ==> listed(entries, IpAddr::V6(v6)) is None,
        ({
            let mapped = (0xffff_0000_0000 + v4) as u128;
            &&& entries.dom().contains(mapped) ==> listed(entries, IpAddr::V4(v4)) == Some(
                entries[mapped],
            )
            &&& !entries.dom().contains(mapped) ==> listed(entries, IpAddr::V4(v4)) is None
        }),
{
}

/// No two IPv6 clients share an entry: what the list says of one says nothing of another.
pub proof fn law_other_entries_do_not_matter(
    entries: Map<u128, BlocklistStatus>,
    client: u128,
    other: u128,
    status: BlocklistStatus,
)
    requires
        client != other,
    ensures
        ipv6(IpAddr::V6(client)) != ipv6(IpAddr::V6(other)),
        listed(entries.insert(other, status), IpAddr::V6(client)) == listed(
            entries,
            IpAddr::V6(client),
        ),
        listed(entries.insert(other, status), IpAddr::V6(other)) == Some(status),
        listed(entries.remove(other), IpAddr::V6(client)) == listed(entries, IpAddr::V6(client)),
        listed(entries.remove(other), IpAddr::V6(other)) is None,
{
}

/// Before a list was ever fetched nobody is restricted; after that, one attempt either takes over
/// what it fetched or leaves everything as it was.
pub proof fn law_one_attempt(
    fetched: Seq<Option<Map<u128, BlocklistStatus>>>,
    entries: Map<u128, BlocklistStatus>,
    client: IpAddr,
)
    ensures
        listed(in_force(Seq::empty()), client) is None,
        in_force(fetched.push(Some(entries))) == entries,
        in_force(fetched.push(None)) == in_force(fetched),
{
    assert(fetched.push(None).drop_last() =~= fetched);
}

} // verus!
