//! The address-resolution cache: an associative table keyed by
//! (protocol type, protocol address), mapping to a hardware address, with
//! the ARP merge rule — any observed sender pairing overwrites an existing
//! entry for that protocol address.

use vstd::prelude::*;
use crate::address::{ipv4_eq, IPv4, MAC};

verus! {

/// What an observation did to the table: overwrote an existing entry for
/// the key, or inserted a fresh one.
#[derive(Debug, PartialEq, Eq, Structural, Clone, Copy)]
pub enum MergeOutcome {
    Updated,
    Inserted,
}

/// One cached pairing.
struct TableEntry {
    protocol_type: u16,
    protocol_addr: IPv4,
    hardware_addr: MAC,
}

/// The key a pairing is cached under.
spec fn entry_key(e: TableEntry) -> (u16, Seq<u8>) {
    (e.protocol_type, e.protocol_addr@)
}

/// The mapping held by a sequence of entries; a later entry for a key
/// shadows an earlier one (the invariant below rules the case out).
spec fn entries_map(s: Seq<TableEntry>) -> Map<(u16, Seq<u8>), Seq<u8>>
    decreases s.len(),
{
    if s.len() == 0 {
        Map::empty()
    } else {
        entries_map(s.drop_last()).insert(entry_key(s.last()), s.last().hardware_addr@)
    }
}

/// No two entries share a key.
spec fn unique_keys(s: Seq<TableEntry>) -> bool {
    forall|i: int, j: int|
        0 <= i < j < s.len() ==> entry_key(s[i]) != entry_key(s[j])
}

/// An associative cache from (protocol type, protocol address) to hardware
/// address. Keys are unique; an observation with an existing key overwrites
/// its value (last observed wins).
pub struct AddressResolutionTable {
    entries: Vec<TableEntry>,
}

impl View for AddressResolutionTable {
    type V = Map<(u16, Seq<u8>), Seq<u8>>;

    closed spec fn view(&self) -> Map<(u16, Seq<u8>), Seq<u8>> {
        entries_map(self.entries@)
    }
}

/// A key nowhere among the entries is not in the mapping.
proof fn lemma_entries_map_absent(s: Seq<TableEntry>, k: (u16, Seq<u8>))
    requires
        forall|j: int| 0 <= j < s.len() ==> entry_key(s[j]) != k,
    ensures
        !entries_map(s).dom().contains(k),
    decreases s.len(),
{
    if s.len() > 0 {
        lemma_entries_map_absent(s.drop_last(), k);
    }
}

/// With unique keys, the entry at `i` gives exactly the mapping of its key.
proof fn lemma_entries_map_present(s: Seq<TableEntry>, i: int)
    requires
        unique_keys(s),
        0 <= i < s.len(),
    ensures
        entries_map(s).dom().contains(entry_key(s[i])),
        entries_map(s)[entry_key(s[i])] == s[i].hardware_addr@,
    decreases s.len(),
{
    if i < s.len() - 1 {
        assert(unique_keys(s.drop_last()));
        lemma_entries_map_present(s.drop_last(), i);
        assert(entry_key(s[i]) != entry_key(s.last()));
    }
}

/// Appending an entry inserts its pairing into the mapping.
proof fn lemma_entries_map_push(s: Seq<TableEntry>, e: TableEntry)
    ensures
        entries_map(s.push(e)) == entries_map(s).insert(entry_key(e), e.hardware_addr@),
{
    assert(s.push(e).drop_last() =~= s);
    assert(s.push(e).last() == e);
}

/// With unique keys, overwriting the entry at `i` with one of the same key
/// re-inserts that key in the mapping and touches nothing else.
proof fn lemma_entries_map_update(s: Seq<TableEntry>, i: int, e: TableEntry)
    requires
        unique_keys(s),
        0 <= i < s.len(),
        entry_key(e) == entry_key(s[i]),
    ensures
        entries_map(s.update(i, e)) =~= entries_map(s).insert(
            entry_key(e),
            e.hardware_addr@,
        ),
    decreases s.len(),
{
    let s2 = s.update(i, e);
    if i == s.len() - 1 {
        assert(s2.drop_last() =~= s.drop_last());
        assert(s2.last() == e);
    } else {
        assert(unique_keys(s.drop_last()));
        assert(s2.drop_last() =~= s.drop_last().update(i, e));
        assert(s2.last() == s.last());
        lemma_entries_map_update(s.drop_last(), i, e);
        assert(entry_key(s[i]) != entry_key(s.last()));
    }
}

impl AddressResolutionTable {
    #[verifier::type_invariant]
    spec fn wf(self) -> bool {
        unique_keys(self.entries@)
    }

    /// An empty cache.
    pub fn new() -> (r: Self)
        ensures
            r@ == Map::<(u16, Seq<u8>), Seq<u8>>::empty(),
    {
        AddressResolutionTable { entries: Vec::new() }
    }

    /// The position of the entry for the key, if the key is cached.
    fn find(&self, protocol_type: u16, protocol_addr: &IPv4) -> (r: Option<usize>)
        requires
            self.wf(),
        ensures
            r matches Some(i) ==> i < self.entries@.len() && entry_key(self.entries@[i as int])
                == (protocol_type, protocol_addr@),
            r is None ==> !self@.dom().contains((protocol_type, protocol_addr@))
                && (forall|j: int|
                0 <= j < self.entries@.len() ==> entry_key(self.entries@[j]) != (
                protocol_type,
                protocol_addr@,
                )),
    {
        let ghost k = (protocol_type, protocol_addr@);
        let n = self.entries.len();
        let mut i: usize = 0;
        while i < n
            invariant
                i <= n,
                n == self.entries@.len(),
                forall|j: int| 0 <= j < i ==> entry_key(self.entries@[j]) != k,
                k == (protocol_type, protocol_addr@),
            decreases n - i,
        {
            let e = &self.entries[i];
            if e.protocol_type == protocol_type && ipv4_eq(&e.protocol_addr, protocol_addr) {
                return Some(i);
            }
            i = i + 1;
        }
        proof {
            lemma_entries_map_absent(self.entries@, k);
        }
        None
    }

    /// Records that `protocol_addr` was observed paired with
    /// `hardware_addr`: an existing entry for the key is overwritten and the
    /// call reports `Updated`; otherwise the pairing is inserted and the
    /// call reports `Inserted`. Either way the key maps to `hardware_addr`
    /// afterwards.
    pub fn observe(
        &mut self,
        protocol_type: u16,
        protocol_addr: &IPv4,
        hardware_addr: &MAC,
    ) -> (r: MergeOutcome)
        ensures
            final(self)@ == old(self)@.insert((protocol_type, protocol_addr@), hardware_addr@),
            r == (if old(self)@.dom().contains((protocol_type, protocol_addr@)) {
                MergeOutcome::Updated
            } else {
                MergeOutcome::Inserted
            }),
    {
        proof {
            use_type_invariant(&*self);
        }
        let ghost k = (protocol_type, protocol_addr@);
        let found = self.find(protocol_type, protocol_addr);
        let entry = TableEntry {
            protocol_type,
            protocol_addr: *protocol_addr,
            hardware_addr: *hardware_addr,
        };
        let mut entries: Vec<TableEntry> = Vec::new();
        std::mem::swap(&mut entries, &mut self.entries);
        let ghost s = entries@;
        match found {
            Some(i) => {
                proof {
                    lemma_entries_map_present(s, i as int);
                    lemma_entries_map_update(s, i as int, entry);
                    assert(unique_keys(s.update(i as int, entry)));
                }
                entries.set(i, entry);
                self.entries = entries;
                MergeOutcome::Updated
            },
            None => {
                proof {
                    lemma_entries_map_push(s, entry);
                    lemma_entries_map_absent(s, k);
                    assert forall|p: int, q: int|
                        0 <= p < q < s.push(entry).len() implies entry_key(s.push(entry)[p])
                        != entry_key(s.push(entry)[q]) by {
                        if q == s.len() {
                            assert(entry_key(s[p]) != k);
                        }
                    }
                }
                entries.push(entry);
                self.entries = entries;
                MergeOutcome::Inserted
            },
        }
    }

    /// Looks the key up without mutating the cache.
    pub fn lookup(&self, protocol_type: u16, protocol_addr: &IPv4) -> (r: Option<MAC>)
        ensures
            self@.dom().contains((protocol_type, protocol_addr@)) ==> (r matches Some(m) && m@
                == self@[(protocol_type, protocol_addr@)]),
            !self@.dom().contains((protocol_type, protocol_addr@)) ==> r is None,
    {
        proof {
            use_type_invariant(&*self);
        }
        match self.find(protocol_type, protocol_addr) {
            Some(i) => {
                proof {
                    lemma_entries_map_present(self.entries@, i as int);
                }
                Some(self.entries[i].hardware_addr)
            },
            None => None,
        }
    }

    /// Whether the key is cached.
    pub fn contains(&self, protocol_type: u16, protocol_addr: &IPv4) -> (r: bool)
        ensures
            r <==> self@.dom().contains((protocol_type, protocol_addr@)),
    {
        proof {
            use_type_invariant(&*self);
        }
        match self.find(protocol_type, protocol_addr) {
            Some(i) => {
                proof {
                    lemma_entries_map_present(self.entries@, i as int);
                }
                true
            },
            None => false,
        }
    }
}

/// Observing a pairing is idempotent: a second identical observation maps
/// the key to the same value and leaves the table unchanged, and — the key
/// now being present — reports an update rather than an insertion.
pub proof fn lemma_observe_idempotent(
    m: Map<(u16, Seq<u8>), Seq<u8>>,
    k: (u16, Seq<u8>),
    v: Seq<u8>,
)
    ensures
        m.insert(k, v).insert(k, v) == m.insert(k, v),
        m.insert(k, v).dom().contains(k),
{
    assert(m.insert(k, v).insert(k, v) =~= m.insert(k, v));
}

} // verus!
