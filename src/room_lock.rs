//! The per-room critical section: a table of the rooms whose events are
//! being applied. A room enters the table when its lock is taken and leaves
//! it when released, so that two sequences of event application never run
//! on one room at once. Waiting for a held room is the caller's part.

use vstd::prelude::*;

verus! {

/// The rooms whose lock is held.
#[derive(Debug)]
pub struct RoomLocks {
    held: Vec<String>,
}

impl RoomLocks {
    /// The rooms whose lock is held.
    pub closed spec fn view(&self) -> Seq<Seq<char>> {
        self.held@.map_values(|s: String| s@)
    }

    /// Each room is held at most once.
    pub open spec fn wf(&self) -> bool {
        self.view().no_duplicates()
    }

    /// Whether an attempt to take the lock of `room` succeeds.
    pub open spec fn can_lock(&self, room: Seq<char>) -> bool {
        !self.view().contains(room)
    }

    /// A table with no room held.
    pub fn new() -> (r: RoomLocks)
        ensures
            r.wf(),
            r.view().len() == 0,
    {
        RoomLocks { held: Vec::new() }
    }

    fn position(&self, room: &str) -> (r: Option<usize>)
        ensures
            match r {
                Some(i) => i < self.view().len() && self.view()[i as int] == room@,
                None => !self.view().contains(room@),
            },
    {
        let target = room.to_owned();
        let ghost v = self.view();
        let mut i: usize = 0;
        while i < self.held.len()
            invariant
                i <= self.held@.len(),
                v == self.view(),
                target@ == room@,
                forall|j: int| 0 <= j < i ==> v[j] != room@,
            decreases self.held@.len() - i,
        {
            if self.held[i] == target {
                return Some(i);
            }
            i = i + 1;
        }
        None
    }

    /// Whether the lock of `room` is held.
    pub fn is_locked(&self, room: &str) -> (r: bool)
        ensures
            r == self.view().contains(room@),
    {
        match self.position(room) {
            Some(_) => true,
            None => false,
        }
    }

    /// Takes the lock of `room` if nobody holds it; returns whether it was
    /// taken.
    pub fn lock(&mut self, room: &str) -> (r: bool)
        requires
            old(self).wf(),
        ensures
            final(self).wf(),
            r == old(self).can_lock(room@),
            r ==> final(self).view() == old(self).view().push(room@),
            !r ==> final(self).view() == old(self).view(),
    {
        if self.is_locked(room) {
            return false;
        }
        let ghost before = self.view();
        self.held.push(room.to_owned());
        assert(self.view() =~= before.push(room@));
        proof {
            assert forall|a: int, b: int|
                0 <= a < self.view().len() && 0 <= b < self.view().len() && a != b implies self.view()[a]
                != self.view()[b] by {
                if a < before.len() && b < before.len() {
                } else if a < before.len() {
                    assert(before.contains(before[a]));
                } else {
                    assert(before.contains(before[b]));
                }
            }
        }
        true
    }

    /// Releases the lock of `room`.
    pub fn unlock(&mut self, room: &str)
        requires
            old(self).wf(),
        ensures
            final(self).wf(),
            !final(self).view().contains(room@),
            forall|x: Seq<char>|
                x != room@ ==> (final(self).view().contains(x) == old(self).view().contains(x)),
    {
        match self.position(room) {
            None => {},
            Some(i) => {
                let ghost before = self.view();
                self.held.remove(i);
                assert(self.view() =~= before.remove(i as int));
                proof {
                    assert forall|x: Seq<char>| #![trigger self.view().contains(x)]
                        x != room@ implies (self.view().contains(x) == before.contains(x)) by {
                        if before.contains(x) {
                            let j = choose|j: int| 0 <= j < before.len() && before[j] == x;
                            if j < i {
                                assert(self.view()[j] == x);
                            } else {
                                assert(j != i);
                                assert(self.view()[j - 1] == x);
                            }
                        }
                    }
                    if self.view().contains(room@) {
                        let j = choose|j: int| 0 <= j < self.view().len() && self.view()[j] == room@;
                        if j < i {
                            assert(before[j] == room@);
                        } else {
                            assert(before[j + 1] == room@);
                        }
                    }
                }
            },
        }
    }
}

/// While a room's lock is held, a second attempt to take it fails, so no two
/// sequences of event application on one room overlap: an attempt succeeds
/// exactly when the room is not held.
pub proof fn lemma_room_lock_exclusive(locks: RoomLocks, after: RoomLocks, room: Seq<char>)
    requires
        locks.wf(),
        after.view() == locks.view().push(room),
    ensures
        !after.can_lock(room),
{
    assert(after.view()[locks.view().len() as int] == room);
}

} // verus!
