//! What holds of rooms and room lists in every state, stated over the same
//! spec functions as the contracts of the operations, and proved.

use vstd::prelude::*;
use crate::app_state::{
    has_room, lemma_remove_keeps_wf, lemma_update_keeps_ids, room_ids, room_index, room_of,
    rooms_after_departure, rooms_after_join, rooms_after_leave, rooms_after_post, rooms_wf,
};
use crate::unique::{lemma_index_unique, lemma_remove_unique};
use crate::registry::without_id;
use crate::types::{RoomMessagesView, RoomView};

verus! {

/// A change of a room's membership.
pub enum MemberOp {
    Join(Seq<char>),
    Leave(Seq<char>),
}

/// The room after one change; a room that is gone stays gone.
pub open spec fn applied(room: Option<RoomView>, op: MemberOp) -> Option<RoomView> {
    match room {
        None => None,
        Some(r) => match op {
            MemberOp::Join(user) => Some(r.joined(user)),
            MemberOp::Leave(user) => r.left(user),
        },
    }
}

/// The room after the changes `ops`, applied in order.
pub open spec fn replayed(room: Option<RoomView>, ops: Seq<MemberOp>) -> Option<RoomView>
    decreases ops.len(),
{
    if ops.len() == 0 {
        room
    } else {
        applied(replayed(room, ops.drop_last()), ops.last())
    }
}

/// What one change does to a set of members: a join puts the user in, a leave
/// takes the user out.
pub open spec fn members_applied(members: Set<Seq<char>>, op: MemberOp) -> Set<Seq<char>> {
    match op {
        MemberOp::Join(user) => members.insert(user),
        MemberOp::Leave(user) => members.remove(user),
    }
}

/// What the changes `ops` do to a set of members, applied in order.
pub open spec fn members_replayed(members: Set<Seq<char>>, ops: Seq<MemberOp>) -> Set<Seq<char>>
    decreases ops.len(),
{
    if ops.len() == 0 {
        members
    } else {
        members_applied(members_replayed(members, ops.drop_last()), ops.last())
    }
}

/// The joins of `users`, in order.
pub open spec fn joins(users: Seq<Seq<char>>) -> Seq<MemberOp> {
    users.map_values(|u: Seq<char>| MemberOp::Join(u))
}

/// A join keeps a room well formed and puts the user into its member set; the
/// room grows by one member where the user was none, and not at all where it
/// was one.
pub proof fn law_join(room: RoomView, user: Seq<char>)
    requires
        room.wf(),
    ensures
        room.joined(user).wf(),
        room.joined(user).members() == room.members().insert(user),
        room.joined(user).users.len() == room.users.len() + if room.users.contains(user) {
            0int
        } else {
            1int
        },
        room.joined(user).admin == room.admin,
        room.joined(user).room == room.room,
{
    let after = room.joined(user);
    if !room.users.contains(user) {
        let a = room.users.index_of(room.admin);
        assert(after.users[a] == room.admin);
        assert(after.users[room.users.len() as int] == user);
        assert forall|x: Seq<char>| after.users.contains(x) <==> room.users.contains(x) || x
            == user by {
            if room.users.contains(x) {
                let k = room.users.index_of(x);
                assert(after.users[k] == x);
            }
        }
    }
    assert(after.members() =~= room.members().insert(user));
}

/// Joining twice is joining once.
pub proof fn law_join_idempotent(room: RoomView, user: Seq<char>)
    ensures
        room.joined(user).joined(user) == room.joined(user),
        room.joined(user).users.contains(user),
{
    if !room.users.contains(user) {
        assert(room.users.push(user)[room.users.len() as int] == user);
    }
}

/// In a room list, joining a room twice is joining it once.
pub proof fn law_join_room_idempotent(rooms: Seq<RoomView>, id: Seq<char>, user: Seq<char>)
    requires
        rooms_wf(rooms),
    ensures
        rooms_after_join(rooms_after_join(rooms, id, user), id, user) == rooms_after_join(
            rooms,
            id,
            user,
        ),
{
    if has_room(rooms, id) {
        let i = room_ids(rooms).index_of(id);
        let once = rooms_after_join(rooms, id, user);
        law_join_idempotent(rooms[i], user);
        assert(room_ids(once) =~= room_ids(rooms));
        assert(rooms_after_join(once, id, user) =~= once);
    }
}

/// A leave takes the user out of the member set. The room is gone exactly
/// where that leaves no member; a room that stays is well formed, so that its
/// admin is one of its members.
pub proof fn law_leave(room: RoomView, user: Seq<char>)
    requires
        room.wf(),
    ensures
        match room.left(user) {
            None => room.members().remove(user) == Set::<Seq<char>>::empty(),
            Some(r) => r.wf() && r.members() == room.members().remove(user) && r.members()
                != Set::<Seq<char>>::empty() && r.room == room.room,
        },
{
    if room.users =~= seq![user] {
        assert forall|x: Seq<char>| !room.members().remove(user).contains(x) by {
            if room.users.contains(x) {
                let k = room.users.index_of(x);
                assert(room.users[k] == user);
            }
        }
        assert(room.members().remove(user) =~= Set::<Seq<char>>::empty());
    } else if !room.users.contains(user) {
        assert(room.members().remove(user) =~= room.members());
        assert(room.members().contains(room.users[0]));
    } else {
        let i = room.users.index_of(user);
        let r = room.without(user);
        lemma_remove_unique(room.users, i);
        if room.users.len() == 1 {
            assert(room.users =~= seq![user]);
        }
        assert(r.users.len() >= 1);
        assert(r.users.contains(r.users[0]));
        assert(r.members() =~= room.members().remove(user));
        assert(r.members().contains(r.users[0]));
    }
}

/// After any changes of membership a room that still exists is well formed,
/// and its member set is what the changes make of the first member set when
/// each join puts its user in and each leave takes its user out. The room
/// exists exactly where no change left the member set empty.
pub proof fn law_replay(room: RoomView, ops: Seq<MemberOp>)
    requires
        room.wf(),
    ensures
        replayed(Some(room), ops) matches Some(r) ==> r.wf() && r.room == room.room
            && r.members() == members_replayed(room.members(), ops),
        replayed(Some(room), ops) is Some <==> forall|k: int|
            0 <= k <= ops.len() ==> #[trigger] members_replayed(room.members(), ops.take(k))
                != Set::<Seq<char>>::empty(),
    decreases ops.len(),
{
    let sets = |k: int| members_replayed(room.members(), ops.take(k));
    assert(ops.take(0) =~= Seq::<MemberOp>::empty());
    assert(ops.take(ops.len() as int) =~= ops);
    assert(room.members().contains(room.users[0]));
    if ops.len() > 0 {
        let front = ops.drop_last();
        law_replay(room, front);
        assert forall|k: int| 0 <= k <= front.len() implies front.take(k) == ops.take(k) by {
            assert(front.take(k) =~= ops.take(k));
        }
        match replayed(Some(room), front) {
            None => {
                let k = choose|k: int|
                    0 <= k <= front.len() && #[trigger] members_replayed(
                        room.members(),
                        front.take(k),
                    ) == Set::<Seq<char>>::empty();
                assert(front.take(k) == ops.take(k));
                assert(sets(k) == Set::<Seq<char>>::empty());
            },
            Some(r) => {
                match ops.last() {
                    MemberOp::Join(user) => {
                        law_join(r, user);
                    },
                    MemberOp::Leave(user) => {
                        law_leave(r, user);
                    },
                }
                if replayed(Some(room), ops) is Some {
                    assert forall|k: int| 0 <= k <= ops.len() implies #[trigger] members_replayed(
                        room.members(),
                        ops.take(k),
                    ) != Set::<Seq<char>>::empty() by {
                        if k < ops.len() {
                            assert(front.take(k) == ops.take(k));
                            assert(members_replayed(room.members(), front.take(k))
                                != Set::<Seq<char>>::empty());
                        } else {
                            let kept = replayed(Some(room), ops)->0;
                            assert(kept.members().contains(kept.users[0]));
                        }
                    }
                } else {
                    assert(sets(ops.len() as int) == Set::<Seq<char>>::empty());
                }
            },
        }
    }
}

/// Whoever is in a member set after changes of membership was in it before
/// them or is the user of one of the joins: nobody is a member unconfirmed.
pub proof fn law_members_confirmed(members: Set<Seq<char>>, ops: Seq<MemberOp>, user: Seq<char>)
    requires
        members_replayed(members, ops).contains(user),
    ensures
        members.contains(user) || exists|i: int|
            0 <= i < ops.len() && ops[i] == MemberOp::Join(user),
    decreases ops.len(),
{
    if ops.len() > 0 {
        let front = ops.drop_last();
        if ops.last() == MemberOp::Join(user) {
            assert(ops[ops.len() - 1] == MemberOp::Join(user));
        } else {
            law_members_confirmed(members, front, user);
            if !members.contains(user) {
                let i = choose|i: int| 0 <= i < front.len() && front[i] == MemberOp::Join(user);
                assert(ops[i] == MemberOp::Join(user));
            }
        }
    }
}

/// Joins of users that are all different and none of them a member make the
/// room grow by exactly that many members, whatever their order: none is lost.
/// The member set is then the former members and those users.
pub proof fn law_joins_all_counted(room: RoomView, users: Seq<Seq<char>>)
    requires
        room.wf(),
        users.no_duplicates(),
        forall|i: int| 0 <= i < users.len() ==> !room.users.contains(#[trigger] users[i]),
    ensures
        replayed(Some(room), joins(users)) matches Some(r) && r.wf() && r.users.len()
            == room.users.len() + users.len() && r.members() == room.members().union(
            users.to_set(),
        ) && r.admin == room.admin,
    decreases users.len(),
{
    if users.len() == 0 {
        assert(room.members().union(users.to_set()) =~= room.members());
    } else {
        let front = users.drop_last();
        let last = users.last();
        assert(joins(users).drop_last() =~= joins(front));
        assert(joins(users).last() == MemberOp::Join(last));
        assert forall|i: int| 0 <= i < front.len() implies !room.users.contains(
            #[trigger] front[i],
        ) by {
            assert(front[i] == users[i]);
        }
        law_joins_all_counted(room, front);
        let r = replayed(Some(room), joins(front))->0;
        assert(!r.users.contains(last)) by {
            if r.members().contains(last) {
                assert(!room.users.contains(users[users.len() - 1]));
                let k = front.index_of(last);
                assert(users[k] == users[users.len() - 1]);
            }
        }
        law_join(r, last);
        assert(users.to_set() =~= front.to_set().insert(last)) by {
            assert forall|x: Seq<char>| users.contains(x) <==> front.contains(x) || x
                == last by {
                if users.contains(x) {
                    let k = users.index_of(x);
                    if k < front.len() {
                        assert(front[k] == x);
                    }
                }
                if front.contains(x) {
                    let k = front.index_of(x);
                    assert(users[k] == x);
                }
                assert(users[users.len() - 1] == last);
            }
        }
        assert(r.members().insert(last) =~= room.members().union(users.to_set()));
    }
}

/// The same joins in another order give the same members.
pub proof fn law_joins_any_order(room: RoomView, first: Seq<Seq<char>>, second: Seq<Seq<char>>)
    requires
        room.wf(),
        first.no_duplicates(),
        second.no_duplicates(),
        first.to_set() == second.to_set(),
        forall|i: int| 0 <= i < first.len() ==> !room.users.contains(#[trigger] first[i]),
    ensures
        replayed(Some(room), joins(first)) matches Some(a) && replayed(
            Some(room),
            joins(second),
        ) matches Some(b) && a.members() == b.members() && a.users.len() == b.users.len(),
{
    assert forall|i: int| 0 <= i < second.len() implies !room.users.contains(
        #[trigger] second[i],
    ) by {
        assert(second.to_set().contains(second[i]));
        assert(first.contains(second[i]));
        let k = first.index_of(second[i]);
        assert(!room.users.contains(first[k]));
    }
    law_joins_all_counted(room, first);
    law_joins_all_counted(room, second);
    first.unique_seq_to_set();
    second.unique_seq_to_set();
}

/// The room list after one change of the membership of the room `id`.
pub open spec fn rooms_applied(rooms: Seq<RoomView>, id: Seq<char>, op: MemberOp) -> Seq<
    RoomView,
> {
    match op {
        MemberOp::Join(user) => rooms_after_join(rooms, id, user),
        MemberOp::Leave(user) => rooms_after_leave(rooms, id, user),
    }
}

/// A change of the membership of one room keeps the room list well formed,
/// does to that room what the change does to a room, and leaves every other
/// room as it is.
pub proof fn law_one_room_changes(rooms: Seq<RoomView>, id: Seq<char>, op: MemberOp)
    requires
        rooms_wf(rooms),
    ensures
        rooms_wf(rooms_applied(rooms, id, op)),
        room_of(rooms_applied(rooms, id, op), id) == applied(room_of(rooms, id), op),
        forall|other: Seq<char>|
            other != id ==> room_of(rooms_applied(rooms, id, op), other) == room_of(rooms, other),
{
    let after = rooms_applied(rooms, id, op);
    if has_room(rooms, id) {
        let i = room_index(rooms, id);
        assert(room_ids(rooms)[i] == id);
        let changed = applied(Some(rooms[i]), op);
        match op {
            MemberOp::Join(user) => {
                law_join(rooms[i], user);
            },
            MemberOp::Leave(user) => {
                law_leave(rooms[i], user);
            },
        }
        match changed {
            Some(r) => {
                lemma_update_keeps_ids(rooms, i, r);
                assert forall|other: Seq<char>| other != id implies room_of(after, other)
                    == room_of(rooms, other) by {
                    if has_room(rooms, other) {
                        let k = room_index(rooms, other);
                        assert(room_ids(rooms)[k] == other);
                        assert(after[k] == rooms[k]);
                    }
                }
            },
            None => {
                lemma_remove_keeps_wf(rooms, i);
                lemma_remove_unique(room_ids(rooms), i);
                assert forall|other: Seq<char>| other != id implies room_of(after, other)
                    == room_of(rooms, other) by {
                    if has_room(rooms, other) {
                        let k = room_index(rooms, other);
                        assert(room_ids(rooms)[k] == other);
                        let k0 = if k < i { k } else { k - 1 };
                        assert(room_ids(after)[k0] == other);
                        lemma_index_unique(room_ids(after), k0);
                        assert(after[k0] == rooms[k]);
                    }
                }
            },
        }
    }
}

/// What is said in a room changes its log alone: the members and the admin of
/// the room stay, and so does every other room.
pub proof fn law_post_keeps_members(
    rooms: Seq<RoomView>,
    id: Seq<char>,
    by: Seq<char>,
    message: Seq<char>,
)
    requires
        rooms_wf(rooms),
    ensures
        rooms_wf(rooms_after_post(rooms, id, by, message)),
        room_ids(rooms_after_post(rooms, id, by, message)) == room_ids(rooms),
        forall|i: int|
            0 <= i < rooms.len() ==> (#[trigger] rooms_after_post(rooms, id, by, message)[i]).users
                == rooms[i].users && rooms_after_post(rooms, id, by, message)[i].admin
                == rooms[i].admin,
        forall|i: int|
            0 <= i < rooms.len() && rooms[i].room != id ==> #[trigger] rooms_after_post(
                rooms,
                id,
                by,
                message,
            )[i] == rooms[i],
{
    if has_room(rooms, id) {
        let i = room_index(rooms, id);
        assert(room_ids(rooms)[i] == id);
        lemma_update_keeps_ids(rooms, i, rooms[i].posted(by, message));
    }
}

/// What is said in a room one after the other stands in its log in that
/// order, behind what stood there before.
pub proof fn law_posts_in_order(
    rooms: Seq<RoomView>,
    id: Seq<char>,
    first: (Seq<char>, Seq<char>),
    second: (Seq<char>, Seq<char>),
)
    requires
        rooms_wf(rooms),
        has_room(rooms, id),
    ensures
        room_of(
            rooms_after_post(rooms_after_post(rooms, id, first.0, first.1), id, second.0, second.1),
            id,
        ) matches Some(r) && room_of(rooms, id) matches Some(before) && r.messages
            == before.messages.push(RoomMessagesView { by: first.0, message: first.1 }).push(
            RoomMessagesView { by: second.0, message: second.1 },
        ) && r.users == before.users && r.admin == before.admin,
{
    let i = room_index(rooms, id);
    assert(room_ids(rooms)[i] == id);
    let once = rooms_after_post(rooms, id, first.0, first.1);
    lemma_update_keeps_ids(rooms, i, rooms[i].posted(first.0, first.1));
    lemma_update_keeps_ids(once, i, once[i].posted(second.0, second.1));
}

/// After a user has left every room the list is well formed, the user is a
/// member of no room, and no room has come into being.
pub proof fn law_departure(rooms: Seq<RoomView>, user: Seq<char>)
    requires
        rooms_wf(rooms),
    ensures
        rooms_wf(rooms_after_departure(rooms, user)),
        forall|i: int|
            0 <= i < rooms_after_departure(rooms, user).len() ==> !(
            #[trigger] rooms_after_departure(rooms, user)[i]).users.contains(user),
        forall|id: Seq<char>|
            has_room(rooms_after_departure(rooms, user), id) ==> has_room(rooms, id),
    decreases rooms.len(),
{
    let after = rooms_after_departure(rooms, user);
    if rooms.len() > 0 {
        let front = rooms.drop_last();
        let last = rooms.last();
        let head = rooms_after_departure(front, user);
        assert(room_ids(front) =~= room_ids(rooms).drop_last());
        assert(rooms_wf(front)) by {
            assert forall|i: int| 0 <= i < front.len() implies (#[trigger] front[i]).wf() by {
                assert(front[i] == rooms[i]);
            }
        }
        law_departure(front, user);
        law_leave(last, user);
        assert forall|id: Seq<char>| has_room(front, id) implies has_room(rooms, id) && id
            != last.room by {
            let k = room_ids(front).index_of(id);
            assert(room_ids(rooms)[k] == id);
            assert(room_ids(rooms)[rooms.len() - 1] == last.room);
        }
        assert(has_room(rooms, last.room)) by {
            assert(room_ids(rooms)[rooms.len() - 1] == last.room);
        }
        match last.left(user) {
            None => {},
            Some(r) => {
                assert(room_ids(after) =~= room_ids(head).push(r.room));
                assert(!has_room(head, r.room));
                assert forall|a: int, b: int|
                    0 <= a < after.len() && 0 <= b < after.len() && a != b implies room_ids(
                    after,
                )[a] != room_ids(after)[b] by {
                    if a < head.len() {
                        assert(room_ids(head)[a] == room_ids(after)[a]);
                    }
                    if b < head.len() {
                        assert(room_ids(head)[b] == room_ids(after)[b]);
                    }
                }
                assert forall|i: int| 0 <= i < after.len() implies (#[trigger] after[i]).wf()
                    && !after[i].users.contains(user) by {
                    if i < head.len() {
                        assert(after[i] == head[i]);
                    } else {
                        assert(!r.members().contains(user));
                    }
                }
                assert forall|id: Seq<char>| has_room(after, id) implies has_room(rooms, id) by {
                    let k = room_ids(after).index_of(id);
                    if k < head.len() {
                        assert(room_ids(head)[k] == id);
                    }
                }
            },
        }
    }
}

/// Taking an identifier out of a registry twice is taking it out once, and
/// taking out one that is not registered changes nothing.
pub proof fn law_unregister_idempotent(ids: Seq<Seq<char>>, id: Seq<char>)
    requires
        ids.no_duplicates(),
    ensures
        without_id(ids, id).no_duplicates(),
        !without_id(ids, id).contains(id),
        without_id(without_id(ids, id), id) == without_id(ids, id),
        !ids.contains(id) ==> without_id(ids, id) == ids,
{
    if ids.contains(id) {
        let i = ids.index_of(id);
        lemma_remove_unique(ids, i);
    }
}

/// An identifier that is registered and then taken out leaves the registry as
/// it was.
pub proof fn law_register_then_unregister(ids: Seq<Seq<char>>, id: Seq<char>)
    requires
        ids.no_duplicates(),
        !ids.contains(id),
    ensures
        ids.push(id).no_duplicates(),
        without_id(ids.push(id), id) == ids,
{
    let more = ids.push(id);
    assert(more[ids.len() as int] == id);
    assert forall|a: int, b: int|
        0 <= a < more.len() && 0 <= b < more.len() && a != b implies more[a] != more[b] by {
        if a < ids.len() {
            assert(more[a] == ids[a]);
        }
        if b < ids.len() {
            assert(more[b] == ids[b]);
        }
    }
    lemma_index_unique(more, ids.len() as int);
    assert(more.remove(ids.len() as int) =~= ids);
}

/// In a well-formed room list the admin of every room is one of its members.
pub proof fn law_admin_is_member(rooms: Seq<RoomView>, i: int)
    requires
        rooms_wf(rooms),
        0 <= i < rooms.len(),
    ensures
        rooms[i].members().contains(rooms[i].admin),
{
}

/// In a well-formed room list no room is without a member.
pub proof fn law_rooms_have_members(rooms: Seq<RoomView>, i: int)
    requires
        rooms_wf(rooms),
        0 <= i < rooms.len(),
    ensures
        rooms[i].users.len() > 0,
        rooms[i].members() != Set::<Seq<char>>::empty(),
{
    assert(rooms[i].members().contains(rooms[i].users[0]));
}

/// A room that is created under a free identifier is found under it as it was
/// created: its creator is its only member and its admin, and its log is
/// empty.
pub proof fn law_create_then_get(
    rooms: Seq<RoomView>,
    id: Seq<char>,
    name: Seq<char>,
    creator: Seq<char>,
)
    requires
        rooms_wf(rooms),
        !has_room(rooms, id),
    ensures
        rooms_wf(seq![RoomView::created(id, name, creator)] + rooms),
        room_of(seq![RoomView::created(id, name, creator)] + rooms, id) matches Some(r) && r
            == RoomView::created(id, name, creator) && r.members() == set![creator] && r.admin
            == creator && r.messages.len() == 0 && r.room_name == name,
{
    let room = RoomView::created(id, name, creator);
    let after = seq![room] + rooms;
    assert(room_ids(after) =~= seq![id] + room_ids(rooms));
    assert(room_ids(after)[0] == id);
    assert forall|a: int, b: int|
        0 <= a < room_ids(after).len() && 0 <= b < room_ids(after).len() && a != b implies room_ids(
        after,
    )[a] != room_ids(after)[b] by {
        if a > 0 {
            assert(room_ids(after)[a] == room_ids(rooms)[a - 1]);
        }
        if b > 0 {
            assert(room_ids(after)[b] == room_ids(rooms)[b - 1]);
        }
    }
    lemma_index_unique(room_ids(after), 0);
    assert(room.users[0] == creator);
    assert forall|i: int| 0 <= i < after.len() implies (#[trigger] after[i]).wf() by {
        if i > 0 {
            assert(after[i] == rooms[i - 1]);
        }
    }
    assert(room.members() =~= set![creator]);
}

} // verus!
