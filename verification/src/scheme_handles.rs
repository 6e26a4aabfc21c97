//! The open handles of the `hciN` scheme: which node each handle number
//! names, with the root at a fixed number.

use vstd::prelude::*;
use std::collections::BTreeMap;

verus! {

broadcast use {vstd::std_specs::btree::group_btree_axioms, vstd::laws_cmp::group_laws_cmp};

/// The handle number of the scheme's root directory.
pub const SCHEME_ROOT_ID: usize = 1;

/// The nodes of the scheme.
#[derive(Clone, Copy, Debug, PartialEq, Eq, Structural)]
pub enum HandleKind {
    Root,
    Status,
    Info,
    Command,
    Events,
    AclOut,
    AclIn,
    LeScan,
    LeScanResults,
    Connect,
    Disconnect,
    Connections,
    GattDiscoverServices,
    GattDiscoverChars,
    GattReadChar,
    GattServices,
    GattCharacteristics,
}

/// Handle numbers handed out so far and the node each open one names.
pub struct HandleTable {
    next_id: usize,
    handles: BTreeMap<usize, HandleKind>,
}

impl HandleTable {
    /// The open handles (the root's number aside).
    pub closed spec fn open_handles(&self) -> Map<usize, HandleKind> {
        self.handles@
    }

    /// The number the next handle gets.
    pub closed spec fn next(&self) -> usize {
        self.next_id
    }

    /// Numbers are handed out from 2 up, so every open handle lies between
    /// the root's number and the next one.
    #[verifier::type_invariant]
    spec fn numbers_below_next(&self) -> bool {
        &&& self.next_id >= 2
        &&& forall|k: usize| #[trigger] self.handles@.contains_key(k) ==> 2 <= k < self.next_id
    }

    /// What a handle number names: the root, an open handle's node, or
    /// nothing.
    pub open spec fn lookup(&self, id: usize) -> Option<HandleKind> {
        if id == SCHEME_ROOT_ID {
            Some(HandleKind::Root)
        } else if self.open_handles().contains_key(id) {
            Some(self.open_handles()[id])
        } else {
            None
        }
    }

    pub fn new() -> (r: Self)
        ensures
            r.open_handles() == Map::<usize, HandleKind>::empty(),
            r.next() == SCHEME_ROOT_ID + 1,
    {
        HandleTable { next_id: SCHEME_ROOT_ID + 1, handles: BTreeMap::new() }
    }

    /// Opens a handle on `kind`: it gets the next number, which no open
    /// handle has.
    pub fn open_handle(&mut self, kind: HandleKind) -> (id: usize)
        requires
            old(self).next() < usize::MAX,
        ensures
            id == old(self).next(),
            id != SCHEME_ROOT_ID,
            !old(self).open_handles().contains_key(id),
            final(self).open_handles() == old(self).open_handles().insert(id, kind),
            final(self).next() == id + 1,
    {
        proof {
            use_type_invariant(&*self);
        }
        let id = self.next_id;
        let mut handles = BTreeMap::new();
        std::mem::swap(&mut handles, &mut self.handles);
        handles.insert(id, kind);
        self.next_id = id + 1;
        self.handles = handles;
        id
    }

    /// The number the next handle gets.
    pub fn next_number(&self) -> (r: usize)
        ensures
            r == self.next(),
    {
        self.next_id
    }

    /// The node a handle number names.
    pub fn get(&self, id: usize) -> (r: Option<HandleKind>)
        ensures
            r == self.lookup(id),
    {
        if id == SCHEME_ROOT_ID {
            return Some(HandleKind::Root);
        }
        match self.handles.get(&id) {
            Some(kind) => Some(*kind),
            None => None,
        }
    }

    /// Closes a handle; the root stays.
    pub fn remove(&mut self, id: usize)
        ensures
            final(self).open_handles() == if id == SCHEME_ROOT_ID {
                old(self).open_handles()
            } else {
                old(self).open_handles().remove(id)
            },
            final(self).next() == old(self).next(),
    {
        proof {
            use_type_invariant(&*self);
        }
        if id != SCHEME_ROOT_ID {
            let mut handles = BTreeMap::new();
            std::mem::swap(&mut handles, &mut self.handles);
            handles.remove(&id);
            self.handles = handles;
        }
    }
}

/// A handle just opened names its node, and every handle open before keeps
/// naming what it named.
pub proof fn lemma_open_handle_lookup(
    before: Map<usize, HandleKind>,
    after: Map<usize, HandleKind>,
    id: usize,
    kind: HandleKind,
    other: usize,
)
    requires
        !before.contains_key(id),
        id != SCHEME_ROOT_ID,
        after == before.insert(id, kind),
        other != id,
    ensures
        after.contains_key(id) && after[id] == kind,
        after.contains_key(other) == before.contains_key(other),
        before.contains_key(other) ==> after[other] == before[other],
{
}

} // verus!
