//! The connection registry: who is reachable right now, and through which
//! queue.

use vstd::prelude::*;
use crate::outside::enqueue;
use crate::unique::lemma_remove_unique;
use crate::types::{names, ChatError, ServerMessages};
use tokio::sync::mpsc::UnboundedSender;

verus! {

/// `ids` without `id`: the identifiers behind it move up by one.
pub open spec fn without_id(ids: Seq<Seq<char>>, id: Seq<char>) -> Seq<Seq<char>> {
    if ids.contains(id) {
        ids.remove(ids.index_of(id))
    } else {
        ids
    }
}

/// A reachable endpoint: its identifier and the sending half of its queue.
struct Connection {
    id: String,
    tx: UnboundedSender<ServerMessages>,
}

/// What became of one message on its way to one recipient.
#[derive(Debug, PartialEq, Eq)]
pub struct Delivery {
    /// The recipient.
    pub to: String,
    /// `None` where the recipient's queue took the message, else the reason
    /// why it did not get there.
    pub failure: Option<ChatError>,
}

/// The registry. Its view is the identifiers in the order of registration.
pub struct Connections {
    entries: Vec<Connection>,
}

impl View for Connections {
    type V = Seq<Seq<char>>;

    closed spec fn view(&self) -> Seq<Seq<char>> {
        self.entries@.map_values(|c: Connection| c.id@)
    }
}

/// The recipients of a list of deliveries, in the same order.
pub open spec fn recipients(report: Seq<Delivery>) -> Seq<Seq<char>> {
    report.map_values(|d: Delivery| d.to@)
}

/// Whether `failure` can be what became of a message for a recipient that is
/// registered (`registered`), or is not: `NotFound` stands exactly with a
/// recipient that is not registered, and a registered one either got the
/// message or has a queue that takes nothing any more.
pub open spec fn outcome_fits(failure: Option<ChatError>, registered: bool) -> bool {
    match failure {
        None => registered,
        Some(e) => if registered {
            e == ChatError::TransportFailure
        } else {
            e == ChatError::NotFound
        },
    }
}

/// Whether `report` is the report of one attempt for each of `to`, in that
/// order, against the registry `registered`.
pub open spec fn attempted(
    report: Seq<Delivery>,
    to: Seq<Seq<char>>,
    registered: Seq<Seq<char>>,
) -> bool {
    &&& recipients(report) == to
    &&& forall|i: int|
        0 <= i < report.len() ==> outcome_fits(
            #[trigger] report[i].failure,
            registered.contains(to[i]),
        )
}

impl Connections {
    /// No identifier is registered twice.
    pub open spec fn wf(&self) -> bool {
        self@.no_duplicates()
    }

    /// The empty registry.
    pub fn new() -> (res: Connections)
        ensures
            res@ == Seq::<Seq<char>>::empty(),
            res.wf(),
    {
        let res = Connections { entries: Vec::new() };
        assert(res@ =~= Seq::<Seq<char>>::empty());
        res
    }

    /// The place of `id`, if it is registered.
    fn find(&self, id: &String) -> (found: Option<usize>)
        ensures
            found is Some <==> self@.contains(id@),
            found matches Some(i) ==> i < self.entries.len() && self@[i as int] == id@
                && forall|j: int| 0 <= j < i ==> self@[j] != id@,
    {
        let mut i: usize = 0;
        while i < self.entries.len()
            invariant
                i <= self.entries.len(),
                forall|j: int| 0 <= j < i ==> self@[j] != id@,
            decreases self.entries.len() - i,
        {
            if self.entries[i].id == *id {
                assert(self@[i as int] == id@);
                return Some(i);
            }
            i += 1;
        }
        None
    }

    /// Whether the registry is well formed.
    pub fn is_valid(&self) -> (res: bool)
        ensures
            res == self.wf(),
    {
        let mut i: usize = 0;
        while i < self.entries.len()
            invariant
                i <= self.entries.len(),
                forall|a: int, b: int| 0 <= a < b < i ==> self@[a] != self@[b],
            decreases self.entries.len() - i,
        {
            match self.find(&self.entries[i].id) {
                Some(j) => {
                    if j != i {
                        assert(self@[j as int] == self@[i as int]);
                        return false;
                    }
                },
                None => {
                    assert(self@[i as int] == self.entries@[i as int].id@);
                    return false;
                },
            }
            i += 1;
        }
        true
    }

    /// Whether `id` is registered.
    pub fn contains(&self, id: &String) -> (res: bool)
        ensures
            res == self@.contains(id@),
    {
        self.find(id).is_some()
    }

    /// The number of connections.
    pub fn len(&self) -> (res: usize)
        ensures
            res == self@.len(),
    {
        self.entries.len()
    }

    /// Makes `id` reachable through `tx`. Fails with `DuplicateConnection`, and
    /// changes nothing, where `id` is registered already.
    pub fn register(&mut self, id: String, tx: UnboundedSender<ServerMessages>) -> (res: Result<
        (),
        ChatError,
    >)
        requires
            old(self).wf(),
        ensures
            final(self).wf(),
            old(self)@.contains(id@) ==> res == Err::<(), ChatError>(
                ChatError::DuplicateConnection,
            ) && final(self)@ == old(self)@,
            !old(self)@.contains(id@) ==> res is Ok && final(self)@ == old(self)@.push(id@),
    {
        if self.contains(&id) {
            return Err(ChatError::DuplicateConnection);
        }
        self.entries.push(Connection { id, tx });
        assert(self@ =~= old(self)@.push(id@));
        Ok(())
    }

    /// Takes `id` out of the registry; where it is not registered, nothing
    /// changes.
    pub fn unregister(&mut self, id: &String)
        requires
            old(self).wf(),
        ensures
            final(self).wf(),
            final(self)@ == without_id(old(self)@, id@),
            !final(self)@.contains(id@),
            forall|other: Seq<char>|
                other != id@ ==> (final(self)@.contains(other) <==> old(self)@.contains(other)),
    {
        match self.find(id) {
            None => {},
            Some(i) => {
                assert(old(self)@.index_of(id@) == i);
                self.entries.remove(i);
                assert(self@ =~= old(self)@.remove(i as int));
                proof {
                    lemma_remove_unique(old(self)@, i as int);
                }
            },
        }
    }

    /// Puts `message` on the queue of `id`, without waiting for the transport.
    /// `NotFound` comes exactly where `id` is not registered; `TransportFailure`
    /// where the queue of `id` takes nothing any more.
    pub fn send(&self, id: &String, message: ServerMessages) -> (res: Result<(), ChatError>)
        ensures
            !self@.contains(id@) <==> res == Err::<(), ChatError>(ChatError::NotFound),
            res is Err ==> res == Err::<(), ChatError>(ChatError::NotFound) || res == Err::<
                (),
                ChatError,
            >(ChatError::TransportFailure),
    {
        match self.find(id) {
            None => Err(ChatError::NotFound),
            Some(i) => {
                if enqueue(&self.entries[i].tx, message) {
                    Ok(())
                } else {
                    Err(ChatError::TransportFailure)
                }
            },
        }
    }

    /// The identifiers that are registered at the time of the call, in the
    /// order of registration.
    pub fn list(&self) -> (res: Vec<String>)
        ensures
            names(res@) == self@,
    {
        let mut res: Vec<String> = Vec::new();
        let mut i: usize = 0;
        while i < self.entries.len()
            invariant
                i <= self.entries.len(),
                res.len() == i,
                forall|j: int| 0 <= j < i ==> res@[j]@ == self@[j],
            decreases self.entries.len() - i,
        {
            res.push(self.entries[i].id.clone());
            i += 1;
        }
        assert(names(res@) =~= self@);
        res
    }

    /// Sends a copy of `message` to each of `to`, in that order, and goes on
    /// past a recipient that cannot be reached. The report names every
    /// recipient in turn; `NotFound` stands exactly with those that are not
    /// registered.
    pub fn fanout(&self, to: &Vec<String>, message: &ServerMessages) -> (report: Vec<Delivery>)
        ensures
            attempted(report@, names(to@), self@),
    {
        let mut report: Vec<Delivery> = Vec::new();
        let mut i: usize = 0;
        while i < to.len()
            invariant
                i <= to.len(),
                report.len() == i,
                forall|j: int| 0 <= j < i ==> report@[j].to@ == to@[j]@,
                forall|j: int|
                    0 <= j < i ==> outcome_fits(
                        #[trigger] report@[j].failure,
                        self@.contains(to@[j]@),
                    ),
            decreases to.len() - i,
        {
            let failure = match self.send(&to[i], message.clone()) {
                Ok(()) => None,
                Err(e) => Some(e),
            };
            report.push(Delivery { to: to[i].clone(), failure });
            i += 1;
        }
        assert(recipients(report@) =~= names(to@));
        report
    }

    /// Sends a copy of `message` to every connection that is registered, in
    /// the order of registration.
    pub fn broadcast_to_all(&self, message: &ServerMessages) -> (report: Vec<Delivery>)
        ensures
            attempted(report@, self@, self@),
    {
        let all = self.list();
        self.fanout(&all, message)
    }
}

} // verus!
