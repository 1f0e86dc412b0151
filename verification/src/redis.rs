//! The room list as a list store holds it: addressed by position, newest
//! first. The operations are those of a Redis list (LPUSH, LRANGE, LSET, and
//! deletion by LSET and LREM), applied to a list that is held in memory.

use vstd::prelude::*;
use crate::types::{room_views, ChatError, Room, RoomView};

verus! {

/// The first and the last position that a range from `start` to `stop` names
/// in a list of `len` elements. A negative bound counts from the end of the
/// list, -1 being the last element; a start before the list is its first
/// position, a stop behind it its last.
pub open spec fn range_bounds(len: int, start: int, stop: int) -> (int, int) {
    let lo = if start >= 0 {
        start
    } else if len + start < 0 {
        0
    } else {
        len + start
    };
    let hi = if stop < 0 {
        len + stop
    } else if stop >= len {
        len - 1
    } else {
        stop
    };
    (lo, hi)
}

/// The elements of `list` from `start` to `stop`, both included; none where the
/// range is empty or starts behind the list.
pub open spec fn range_of<T>(list: Seq<T>, start: int, stop: int) -> Seq<T> {
    let (lo, hi) = range_bounds(list.len() as int, start, stop);
    if lo > hi || lo >= list.len() {
        Seq::empty()
    } else {
        list.subrange(lo, hi + 1)
    }
}

/// A list of rooms addressed by position.
pub struct Redis {
    rooms: Vec<Room>,
}

impl View for Redis {
    type V = Seq<RoomView>;

    closed spec fn view(&self) -> Seq<RoomView> {
        room_views(self.rooms@)
    }
}

impl Redis {
    /// The empty list.
    pub fn new() -> (res: Redis)
        ensures
            res@ == Seq::<RoomView>::empty(),
    {
        let res = Redis { rooms: Vec::new() };
        assert(res@ =~= Seq::<RoomView>::empty());
        res
    }

    /// The number of rooms in the list.
    pub fn llen(&self) -> (len: usize)
        ensures
            len == self@.len(),
    {
        self.rooms.len()
    }

    /// The room at `index`, if the list has that position.
    pub fn lindex(&self, index: usize) -> (res: Option<&Room>)
        ensures
            index < self@.len() ==> (res matches Some(r) && r@ == self@[index as int]),
            index >= self@.len() ==> res is None,
    {
        if index < self.rooms.len() {
            Some(&self.rooms[index])
        } else {
            None
        }
    }

    /// Puts `value` at the head of the list.
    pub fn lpush(&mut self, value: &Room)
        ensures
            final(self)@ == seq![value@] + old(self)@,
    {
        self.rooms.insert(0, value.clone());
        assert(self@ =~= seq![value@] + old(self)@);
    }

    /// Copies of the rooms from `start` to `stop`, both included, in the
    /// list's order.
    pub fn lrange(&self, start: isize, stop: isize) -> (res: Vec<Room>)
        ensures
            room_views(res@) == range_of(self@, start as int, stop as int),
    {
        let len: i128 = self.rooms.len() as i128;
        let lo: i128 = if start >= 0 {
            start as i128
        } else if len + (start as i128) < 0 {
            0
        } else {
            len + (start as i128)
        };
        let hi: i128 = if stop < 0 {
            len + (stop as i128)
        } else if stop as i128 >= len {
            len - 1
        } else {
            stop as i128
        };
        let mut res: Vec<Room> = Vec::new();
        if lo > hi || lo >= len {
            assert(room_views(res@) =~= range_of(self@, start as int, stop as int));
            return res;
        }
        let first: usize = lo as usize;
        let last: usize = hi as usize;
        let mut i: usize = first;
        while i <= last
            invariant
                first <= i <= last + 1,
                last < self.rooms.len(),
                res.len() == i - first,
                forall|j: int| 0 <= j < res.len() ==> res@[j]@ == self.rooms@[first + j]@,
            decreases last + 1 - i,
        {
            res.push(self.rooms[i].clone());
            i += 1;
        }
        assert(room_views(res@) =~= self@.subrange(first as int, last + 1));
        res
    }

    /// Copies of all rooms, in the list's order.
    pub fn get_all(&self) -> (res: Vec<Room>)
        ensures
            room_views(res@) == self@,
    {
        let res = self.lrange(0, -1);
        assert(range_of(self@, 0, -1) =~= self@);
        res
    }

    /// Puts `value` in the place of the room at `index`. Fails, and leaves the
    /// list as it is, where the list has no such position.
    pub fn lset(&mut self, index: usize, value: &Room) -> (res: Result<(), ChatError>)
        ensures
            index < old(self)@.len() ==> res is Ok && final(self)@ == old(self)@.update(
                index as int,
                value@,
            ),
            index >= old(self)@.len() ==> res == Err::<(), ChatError>(ChatError::IndexOutOfRange)
                && final(self)@ == old(self)@,
    {
        if index >= self.rooms.len() {
            return Err(ChatError::IndexOutOfRange);
        }
        self.rooms.set(index, value.clone());
        assert(self@ =~= old(self)@.update(index as int, value@));
        Ok(())
    }

    /// Takes the room at `index` out of the list; those behind it move up by
    /// one. Fails, and leaves the list as it is, where the list has no such
    /// position.
    pub fn lset_delete(&mut self, index: usize) -> (res: Result<(), ChatError>)
        ensures
            index < old(self)@.len() ==> res is Ok && final(self)@ == old(self)@.remove(
                index as int,
            ),
            index >= old(self)@.len() ==> res == Err::<(), ChatError>(ChatError::IndexOutOfRange)
                && final(self)@ == old(self)@,
    {
        if index >= self.rooms.len() {
            return Err(ChatError::IndexOutOfRange);
        }
        self.rooms.remove(index);
        assert(self@ =~= old(self)@.remove(index as int));
        Ok(())
    }
}

} // verus!
