//! The application's single native selection slot. Paths are written only
//! by the native entry point and never sent to the web view. There is at most
//! one open dialog or one grant; a grant is consumed once, bound to its
//! subscription, and expires five minutes after it was issued. Time arrives
//! as milliseconds on the caller's monotonic clock.

use crate::import::ScanOptions;
use vstd::prelude::*;

verus! {

/// How long a grant stays valid: five minutes.
pub const GRANT_TTL_MILLIS: u64 = 5 * 60 * 1000;

/// Explicit roots one selection may carry: as many as one scan accepts.
pub const MAX_NATIVE_IMPORT_ROOTS: usize = ScanOptions::MAX_ROOTS;

/// Path length units one selection may carry in total.
pub const MAX_PATH_UNITS: usize = 1024 * 1024;

/// One root the native dialog returned: the path, whether it is absolute,
/// and its length in the platform's native units.
#[derive(Debug)]
pub struct NativeRoot {
    pub path: String,
    pub absolute: bool,
    pub units: usize,
}

#[derive(Debug, Clone, Copy, PartialEq, Eq, Structural)]
pub enum IngressError {
    Closed,
    SelectionBusy,
    IdExhausted,
    StaleGrant,
    InvalidSelection,
}

/// What a completed selection hands the web view: an identifier and a count, no paths.
#[derive(Debug, Clone, Copy, PartialEq, Eq, Structural)]
pub struct NativeImportGrant {
    pub grant_id: u64,
    pub root_count: u32,
}

#[derive(Debug)]
pub enum Slot {
    Dialog { id: u64, session: u64 },
    Grant { id: u64, session: u64, roots: Vec<String>, expires: u64 },
}

/// The selection slot and its identifier counter.
#[derive(Debug)]
pub struct NativeImports {
    slot: Option<Slot>,
    next_id: u64,
    closed: bool,
}

/// The selection is refused: too many roots, a relative root, or too long in total.
pub open spec fn invalid_selection(roots: Seq<NativeRoot>) -> bool {
    ||| roots.len() > MAX_NATIVE_IMPORT_ROOTS
    ||| exists|i: int| 0 <= i < roots.len() && !(#[trigger] roots[i]).absolute
    ||| total_units(roots) > MAX_PATH_UNITS
}

/// The summed native length of the roots.
pub open spec fn total_units(roots: Seq<NativeRoot>) -> int
    decreases roots.len(),
{
    if roots.len() == 0 {
        0
    } else {
        total_units(roots.drop_last()) + roots.last().units
    }
}

/// A dialog holds the slot.
pub open spec fn dialog_open(slot: Option<Slot>) -> bool {
    slot matches Some(Slot::Dialog { .. })
}

/// The slot holds the dialog of this permit.
pub open spec fn dialog_of(slot: Option<Slot>, permit: u64) -> bool {
    slot matches Some(Slot::Dialog { id, .. }) && id == permit
}

/// The slot holds the grant with this identifier.
pub open spec fn grant_of(slot: Option<Slot>, grant: u64) -> bool {
    slot matches Some(Slot::Grant { id, .. }) && id == grant
}

/// How a request for the roots of grant `id` by `session` at `now` is
/// answered: only the slot's own grant, for its own session and before it
/// expires, gives its roots.
pub open spec fn roots_answer(s: NativeImports, session: u64, id: u64, now: u64) -> Result<Seq<String>, IngressError> {
    if s.spec_closed() {
        Err(IngressError::Closed)
    } else {
        match s.spec_slot() {
            Some(Slot::Grant { id: g, session: o, roots, expires }) => if now < expires && g == id && o == session {
                Ok(roots@)
            } else {
                Err(IngressError::StaleGrant)
            },
            _ => Err(IngressError::StaleGrant),
        }
    }
}

impl NativeImports {
    pub closed spec fn spec_slot(self) -> Option<Slot> {
        self.slot
    }

    pub closed spec fn spec_next_id(self) -> u64 {
        self.next_id
    }

    pub closed spec fn spec_closed(self) -> bool {
        self.closed
    }

    /// An empty slot with identifiers from 1.
    pub fn new() -> (r: Self)
        ensures
            r.spec_slot() is None,
            r.spec_next_id() == 1,
            !r.spec_closed(),
    {
        NativeImports { slot: None, next_id: 1, closed: false }
    }

    /// Reserves the one physical dialog for a subscription; an earlier grant
    /// is replaced, an open dialog keeps the slot busy.
    pub fn reserve(&mut self, session: u64) -> (r: Result<u64, IngressError>)
        ensures
            old(self).spec_closed() ==> r == Err::<u64, IngressError>(IngressError::Closed),
            !old(self).spec_closed() && dialog_open(old(self).spec_slot())
                ==> r == Err::<u64, IngressError>(IngressError::SelectionBusy),
            r is Err ==> *final(self) == *old(self),
            r is Ok <==> !old(self).spec_closed() && !dialog_open(old(self).spec_slot())
                && old(self).spec_next_id() < u64::MAX,
            r matches Ok(id) ==> id == old(self).spec_next_id() && final(self).spec_next_id() == id + 1
                && final(self).spec_slot() == Some(Slot::Dialog { id, session }) && !final(self).spec_closed(),
    {
        if self.closed {
            return Err(IngressError::Closed);
        }
        if matches!(self.slot, Some(Slot::Dialog { .. })) {
            return Err(IngressError::SelectionBusy);
        }
        let id = self.next_id;
        self.next_id = match id.checked_add(1) {
            Some(n) => n,
            None => return Err(IngressError::IdExhausted),
        };
        self.slot = Some(Slot::Dialog { id, session });
        Ok(id)
    }

    /// Ends the dialog of a permit that returned, was cancelled or panicked
    /// without completing; a grant already issued stays.
    pub fn release(&mut self, permit: u64)
        ensures
            dialog_of(old(self).spec_slot(), permit) ==> final(self).spec_slot() is None,
            !dialog_of(old(self).spec_slot(), permit) ==> *final(self) == *old(self),
            final(self).spec_next_id() == old(self).spec_next_id(),
            final(self).spec_closed() == old(self).spec_closed(),
    {
        let matches_permit = match &self.slot {
            Some(Slot::Dialog { id, .. }) => *id == permit,
            _ => false,
        };
        if matches_permit {
            self.slot = None;
        }
    }

    /// Completes a dialog. The slot is freed first, so an invalid result
    /// keeps no path and never blocks the next selection; an empty or
    /// cancelled selection issues no grant; a valid one becomes a grant that
    /// expires five minutes from `now`.
    #[verifier::loop_isolation(false)]
    pub fn complete(&mut self, permit: u64, session: u64, roots: Option<Vec<NativeRoot>>, now: u64) -> (r: Result<Option<NativeImportGrant>, IngressError>)
        ensures
            old(self).spec_closed() ==> r == Err::<Option<NativeImportGrant>, IngressError>(IngressError::Closed) && *final(self) == *old(self),
            !old(self).spec_closed() && old(self).spec_slot() != Some(Slot::Dialog { id: permit, session })
                ==> r == Err::<Option<NativeImportGrant>, IngressError>(IngressError::StaleGrant) && *final(self) == *old(self),
            !old(self).spec_closed() && old(self).spec_slot() == Some(Slot::Dialog { id: permit, session }) ==> {
                &&& final(self).spec_next_id() == old(self).spec_next_id()
                &&& !final(self).spec_closed()
                &&& match roots {
                    None => r == Ok::<Option<NativeImportGrant>, IngressError>(None) && final(self).spec_slot() is None,
                    Some(list) => if list@.len() == 0 {
                        r == Ok::<Option<NativeImportGrant>, IngressError>(None) && final(self).spec_slot() is None
                    } else if invalid_selection(list@) {
                        r == Err::<Option<NativeImportGrant>, IngressError>(IngressError::InvalidSelection) && final(self).spec_slot() is None
                    } else {
                        &&& r == Ok::<Option<NativeImportGrant>, IngressError>(Some(NativeImportGrant { grant_id: permit, root_count: list@.len() as u32 }))
                        &&& final(self).spec_slot() matches Some(Slot::Grant { id, session: s, roots: kept, expires })
                        &&& id == permit && s == session && kept@.len() == list@.len()
                        &&& forall|i: int| 0 <= i < list@.len() ==> (#[trigger] kept@[i]) == list@[i].path
                        &&& expires == (if now + GRANT_TTL_MILLIS <= u64::MAX { now + GRANT_TTL_MILLIS } else { u64::MAX as int })
                    },
                }
            },
    {
        if self.closed {
            return Err(IngressError::Closed);
        }
        let current = match &self.slot {
            Some(Slot::Dialog { id, session: s }) => *id == permit && *s == session,
            _ => false,
        };
        if !current {
            return Err(IngressError::StaleGrant);
        }
        self.slot = None;
        let list = match roots {
            Some(list) => list,
            None => return Ok(None),
        };
        if list.len() == 0 {
            return Ok(None);
        }
        if list.len() > MAX_NATIVE_IMPORT_ROOTS {
            return Err(IngressError::InvalidSelection);
        }
        let mut total: usize = 0;
        let mut paths: Vec<String> = Vec::new();
        let mut i: usize = 0;
        while i < list.len()
            invariant
                0 <= i <= list@.len(),
                list@.len() <= MAX_NATIVE_IMPORT_ROOTS,
                total == total_units(list@.subrange(0, i as int)),
                total <= MAX_PATH_UNITS,
                forall|k: int| 0 <= k < i ==> (#[trigger] list@[k]).absolute,
                paths@.len() == i,
                forall|k: int| 0 <= k < i ==> (#[trigger] paths@[k]) == list@[k].path,
            decreases list@.len() - i,
        {
            let root = &list[i];
            proof {
                assert(list@.subrange(0, i + 1).drop_last() =~= list@.subrange(0, i as int));
            }
            if !root.absolute {
                return Err(IngressError::InvalidSelection);
            }
            if root.units > MAX_PATH_UNITS - total {
                proof {
                    lemma_units_grow(list@, i as int + 1);
                }
                return Err(IngressError::InvalidSelection);
            }
            total = total + root.units;
            paths.push(root.path.clone());
            i = i + 1;
        }
        assert(list@.subrange(0, list@.len() as int) =~= list@);
        let expires = now.saturating_add(GRANT_TTL_MILLIS);
        let count = list.len() as u32;
        self.slot = Some(Slot::Grant { id: permit, session, roots: paths, expires });
        Ok(Some(NativeImportGrant { grant_id: permit, root_count: count }))
    }

    /// The roots of the named grant for its own subscription, once it is
    /// checked and before it expires; an expired grant is dropped. Only
    /// `consumed` uses it up, so a refused import keeps the grant for a retry.
    pub fn grant_roots(&mut self, session: u64, id: u64, now: u64) -> (r: Result<Vec<String>, IngressError>)
        ensures
            old(self).spec_closed() ==> r == Err::<Vec<String>, IngressError>(IngressError::Closed) && *final(self) == *old(self),
            !old(self).spec_closed() ==> match old(self).spec_slot() {
                Some(Slot::Grant { id: g, session: s, roots, expires }) => if now >= expires {
                    r == Err::<Vec<String>, IngressError>(IngressError::StaleGrant) && final(self).spec_slot() is None
                } else if g != id || s != session {
                    r == Err::<Vec<String>, IngressError>(IngressError::StaleGrant) && *final(self) == *old(self)
                } else {
                    r matches Ok(v) && v@ == roots@ && *final(self) == *old(self)
                },
                _ => r == Err::<Vec<String>, IngressError>(IngressError::StaleGrant) && *final(self) == *old(self),
            },
            final(self).spec_next_id() == old(self).spec_next_id(),
            final(self).spec_closed() == old(self).spec_closed(),
            match roots_answer(*old(self), session, id, now) {
                Ok(v) => r matches Ok(w) && w@ == v,
                Err(e) => r == Err::<Vec<String>, IngressError>(e),
            },
    {
        if self.closed {
            return Err(IngressError::Closed);
        }
        let expired = match &self.slot {
            Some(Slot::Grant { expires, .. }) => now >= *expires,
            _ => false,
        };
        if expired {
            self.slot = None;
            return Err(IngressError::StaleGrant);
        }
        match &self.slot {
            Some(Slot::Grant { id: g, session: s, roots, .. }) => {
                if *g != id || *s != session {
                    return Err(IngressError::StaleGrant);
                }
                let mut copy: Vec<String> = Vec::new();
                let mut i: usize = 0;
                while i < roots.len()
                    invariant
                        0 <= i <= roots@.len(),
                        copy@ == roots@.subrange(0, i as int),
                    decreases roots@.len() - i,
                {
                    copy.push(roots[i].clone());
                    assert(roots@.subrange(0, i + 1) =~= roots@.subrange(0, i as int).push(roots@[i as int]));
                    i = i + 1;
                }
                assert(roots@.subrange(0, roots@.len() as int) =~= roots@);
                Ok(copy)
            },
            _ => Err(IngressError::StaleGrant),
        }
    }

    /// Uses up the named grant after its import was accepted.
    pub fn consumed(&mut self, id: u64)
        ensures
            grant_of(old(self).spec_slot(), id) ==> final(self).spec_slot() is None,
            !grant_of(old(self).spec_slot(), id) ==> *final(self) == *old(self),
            final(self).spec_next_id() == old(self).spec_next_id(),
            final(self).spec_closed() == old(self).spec_closed(),
    {
        let matches_grant = match &self.slot {
            Some(Slot::Grant { id: g, .. }) => *g == id,
            _ => false,
        };
        if matches_grant {
            self.slot = None;
        }
    }

    /// Stops for good and forgets any dialog or grant.
    pub fn close(&mut self)
        ensures
            final(self).spec_closed(),
            final(self).spec_slot() is None,
            final(self).spec_next_id() == old(self).spec_next_id(),
    {
        self.closed = true;
        self.slot = None;
    }
}

impl NativeImports {
    /// A grant is used once and lives only in the slot: once it is consumed,
    /// replaced by a new dialog or dropped by a close, no request gets its
    /// roots, whatever the session or the time.
    pub proof fn lemma_grant_used_once(s: NativeImports, session: u64, id: u64, now: u64)
        requires
            !grant_of(s.spec_slot(), id),
        ensures
            roots_answer(s, session, id, now) is Err,
    {
    }
}

/// Adding a root never lowers the total.
proof fn lemma_units_grow(roots: Seq<NativeRoot>, n: int)
    requires
        0 <= n <= roots.len(),
    ensures
        total_units(roots) >= total_units(roots.subrange(0, n)),
    decreases roots.len() - n,
{
    if n < roots.len() {
        lemma_units_grow(roots, n + 1);
        assert(roots.subrange(0, n + 1).drop_last() =~= roots.subrange(0, n));
    } else {
        assert(roots.subrange(0, n) =~= roots);
    }
}

} // verus!
