//! The registry of locally hosted actors, and deposits into their inboxes.

use crate::mailbox::{ActorHandle, Mailbox};
use std::collections::HashMap;
use vstd::prelude::*;

verus! {

broadcast use vstd::std_specs::hash::group_hash_axioms;

/// Why a registry operation was refused.
#[derive(Clone, Copy, Debug, PartialEq, Eq, Structural)]
pub enum RegistryError {
    /// Two of the actors handed over for registration share this id.
    DuplicateId { id: usize },
    /// No locally hosted actor has this id.
    NotFound { id: usize },
}

/// Whether one of `actors` has the id `id`.
pub open spec fn hosts<M>(actors: Seq<ActorHandle<M>>, id: usize) -> bool {
    exists|i: int| 0 <= i < actors.len() && #[trigger] actors[i].id == id
}

/// Whether no two of `actors` share an id.
pub open spec fn distinct_ids<M>(actors: Seq<ActorHandle<M>>) -> bool {
    forall|i: int, j: int|
        0 <= i < j < actors.len() ==> #[trigger] actors[i].id != #[trigger] actors[j].id
}

/// Whether `j` is the first position whose id already occurs before it.
pub open spec fn first_repeat<M>(actors: Seq<ActorHandle<M>>, j: int) -> bool {
    &&& 0 <= j < actors.len()
    &&& distinct_ids(actors.take(j))
    &&& hosts(actors.take(j), actors[j].id)
}

/// The position of an actor with the id `id` among `actors`.
pub open spec fn position_of<M>(actors: Seq<ActorHandle<M>>, id: usize) -> int {
    choose|i: int| 0 <= i < actors.len() && #[trigger] actors[i].id == id
}

/// The inboxes by id that registering `actors` gives.
pub open spec fn registered<M>(actors: Seq<ActorHandle<M>>) -> Map<usize, Seq<M>> {
    Map::new(
        |id: usize| hosts(actors, id),
        |id: usize| actors[position_of(actors, id)].mailbox@,
    )
}

/// The inboxes after one deposit addressed to `id`: `message` is appended to
/// that inbox if there is one, and nothing changes otherwise.
pub open spec fn deposited<M>(mailboxes: Map<usize, Seq<M>>, id: usize, message: M) -> Map<
    usize,
    Seq<M>,
> {
    if mailboxes.contains_key(id) {
        mailboxes.insert(id, mailboxes[id].push(message))
    } else {
        mailboxes
    }
}

/// The inboxes after the deposits of `messages`, all addressed to `id`, have
/// been made one after the other, in the order of the sequence.
pub open spec fn deposited_all<M>(mailboxes: Map<usize, Seq<M>>, id: usize, messages: Seq<M>) -> Map<
    usize,
    Seq<M>,
>
    decreases messages.len(),
{
    if messages.len() == 0 {
        mailboxes
    } else {
        deposited(deposited_all(mailboxes, id, messages.drop_last()), id, messages.last())
    }
}

/// The locally hosted actors by id.
///
/// Its view maps each registered id to the messages waiting in that actor's
/// inbox, oldest first. The set of ids is fixed at construction.
pub struct Registry<M> {
    actors: HashMap<usize, Mailbox<M>>,
}

impl<M> View for Registry<M> {
    type V = Map<usize, Seq<M>>;

    closed spec fn view(&self) -> Map<usize, Seq<M>> {
        self.actors@.map_values(|mailbox: Mailbox<M>| mailbox@)
    }
}

impl<M> Registry<M> {
    /// Builds the registry from the full set of locally hosted actors.
    ///
    /// Fails if two actors share an id, naming the id of the first actor whose
    /// id was already taken by an earlier one.
    pub fn register_all(actors: Vec<ActorHandle<M>>) -> (r: Result<Self, RegistryError>)
        ensures
            match r {
                Ok(registry) => distinct_ids(actors@) && registry@ == registered(actors@),
                Err(e) => exists|j: int|
                    first_repeat(actors@, j) && e == (RegistryError::DuplicateId {
                        id: actors@[j].id,
                    }),
            },
    {
        let ghost all = actors@;
        let mut table: HashMap<usize, Mailbox<M>> = HashMap::new();
        for handle in it: actors
            invariant
                it.seq() == all,
                distinct_ids(all.take(it.index() as int)),
                forall|id: usize|
                    table@.contains_key(id) <==> hosts(all.take(it.index() as int), id),
                forall|i: int|
                    0 <= i < it.index() ==> (#[trigger] table@[all[i].id])@ == all[i].mailbox@,
        {
            let ghost j = it.index() as int;
            let ghost before = table@;
            assert(handle == all[j]);
            if table.contains_key(&handle.id) {
                assert(first_repeat(all, j));
                return Err(RegistryError::DuplicateId { id: handle.id });
            }
            table.insert(handle.id, handle.mailbox);
            proof {
                assert forall|id: usize|
                    table@.contains_key(id) <==> hosts(all.take(j + 1), id) by {
                    if table@.contains_key(id) {
                        if id == all[j].id {
                            assert(all.take(j + 1)[j].id == id);
                        } else {
                            let i = choose|i: int|
                                0 <= i < all.take(j).len() && #[trigger] all.take(j)[i].id == id;
                            assert(all.take(j + 1)[i].id == id);
                        }
                    }
                    if hosts(all.take(j + 1), id) {
                        let i = choose|i: int|
                            0 <= i < all.take(j + 1).len() && #[trigger] all.take(j + 1)[i].id
                                == id;
                        if i < j {
                            assert(all.take(j)[i].id == id);
                        }
                    }
                }
                assert forall|i: int, k: int| 0 <= i < k < j + 1 implies #[trigger] all.take(
                    j + 1,
                )[i].id != #[trigger] all.take(j + 1)[k].id by {
                    if k < j {
                        assert(all.take(j)[i].id != all.take(j)[k].id);
                    } else {
                        assert(all.take(j)[i].id == all[i].id);
                    }
                }
                assert forall|i: int| 0 <= i < j + 1 implies (#[trigger] table@[all[i].id])@
                    == all[i].mailbox@ by {
                    if i < j {
                        assert(all.take(j)[i].id == all[i].id);
                        assert(before[all[i].id]@ == all[i].mailbox@);
                    }
                }
            }
        }
        let registry = Registry { actors: table };
        proof {
            assert(all.take(all.len() as int) =~= all);
            assert forall|id: usize| hosts(all, id) implies #[trigger] registry@[id] == registered(
                all,
            )[id] by {
                let i = position_of(all, id);
                assert(table@[all[i].id]@ == all[i].mailbox@);
            }
            assert(registry@ =~= registered(all));
        }
        Ok(registry)
    }

    /// Appends `message` to the inbox of the actor `recipient`.
    ///
    /// Succeeds with exactly that one append if the actor is registered, and
    /// otherwise fails with `NotFound` and changes nothing.
    pub fn deposit_local(&mut self, recipient: usize, message: M) -> (r: Result<
        (),
        RegistryError,
    >)
        ensures
            final(self)@ == deposited(old(self)@, recipient, message),
            match r {
                Ok(()) => old(self)@.contains_key(recipient),
                Err(e) => !old(self)@.contains_key(recipient) && e == (RegistryError::NotFound {
                    id: recipient,
                }),
            },
    {
        match self.actors.remove(&recipient) {
            Some(mut mailbox) => {
                mailbox.push(message);
                self.actors.insert(recipient, mailbox);
                assert(self@ =~= deposited(old(self)@, recipient, message));
                Ok(())
            },
            None => {
                assert(self@ =~= old(self)@);
                Err(RegistryError::NotFound { id: recipient })
            },
        }
    }

    /// Whether an actor with the id `id` is registered.
    pub fn contains(&self, id: usize) -> (found: bool)
        ensures
            found == self@.contains_key(id),
    {
        self.actors.contains_key(&id)
    }

    /// How many messages wait in the inbox of the actor `id`, if it is
    /// registered.
    pub fn pending(&self, id: usize) -> (n: Option<usize>)
        ensures
            match n {
                Some(n) => self@.contains_key(id) && n == self@[id].len(),
                None => !self@.contains_key(id),
            },
    {
        match self.actors.get(&id) {
            Some(mailbox) => Some(mailbox.len()),
            None => None,
        }
    }

    /// Hands the actor `id` everything waiting in its inbox, oldest first,
    /// and leaves that inbox empty. Other inboxes are untouched.
    pub fn drain(&mut self, id: usize) -> (taken: Option<Vec<M>>)
        ensures
            match taken {
                Some(messages) => {
                    &&& old(self)@.contains_key(id)
                    &&& messages@ == old(self)@[id]
                    &&& final(self)@ == old(self)@.insert(id, Seq::<M>::empty())
                },
                None => !old(self)@.contains_key(id) && final(self)@ == old(self)@,
            },
    {
        match self.actors.remove(&id) {
            Some(mut mailbox) => {
                let messages = mailbox.drain();
                self.actors.insert(id, mailbox);
                assert(self@ =~= old(self)@.insert(id, Seq::<M>::empty()));
                Some(messages)
            },
            None => {
                assert(self@ =~= old(self)@);
                None
            },
        }
    }
}

/// Registering actors with distinct ids gives each its own inbox, under its
/// own id, holding what its handle held.
pub proof fn lemma_registered_keeps_inboxes<M>(actors: Seq<ActorHandle<M>>, i: int)
    requires
        distinct_ids(actors),
        0 <= i < actors.len(),
    ensures
        registered(actors).contains_key(actors[i].id),
        registered(actors)[actors[i].id] == actors[i].mailbox@,
{
    let id = actors[i].id;
    let k = position_of(actors, id);
    assert(hosts(actors, id));
    if k < i {
        assert(actors[k].id != actors[i].id);
    } else if i < k {
        assert(actors[i].id != actors[k].id);
    }
}

/// A deposit for a registered id appends the message to that inbox, once,
/// and touches no other inbox; the set of registered ids stays as it was.
pub proof fn lemma_deposit_appends_once<M>(mailboxes: Map<usize, Seq<M>>, id: usize, message: M)
    requires
        mailboxes.contains_key(id),
    ensures
        deposited(mailboxes, id, message).dom() == mailboxes.dom(),
        deposited(mailboxes, id, message)[id] == mailboxes[id].push(message),
        deposited(mailboxes, id, message)[id].len() == mailboxes[id].len() + 1,
        forall|other: usize|
            other != id && mailboxes.contains_key(other) ==> #[trigger] deposited(
                mailboxes,
                id,
                message,
            )[other] == mailboxes[other],
{
    assert(deposited(mailboxes, id, message).dom() =~= mailboxes.dom());
}

/// A deposit for an id that is not registered changes nothing.
pub proof fn lemma_deposit_for_stranger_changes_nothing<M>(
    mailboxes: Map<usize, Seq<M>>,
    id: usize,
    message: M,
)
    requires
        !mailboxes.contains_key(id),
    ensures
        deposited(mailboxes, id, message) == mailboxes,
{
}

/// Deposits made one after the other into one registered inbox all arrive:
/// the inbox grows by exactly the deposited messages, in the order in which
/// the deposits were made, and nothing else changes.
pub proof fn lemma_deposits_all_arrive<M>(mailboxes: Map<usize, Seq<M>>, id: usize, messages: Seq<M>)
    requires
        mailboxes.contains_key(id),
    ensures
        deposited_all(mailboxes, id, messages) == mailboxes.insert(id, mailboxes[id] + messages),
        deposited_all(mailboxes, id, messages)[id].len() == mailboxes[id].len() + messages.len(),
    decreases messages.len(),
{
    if messages.len() == 0 {
        assert(mailboxes[id] + messages =~= mailboxes[id]);
        assert(mailboxes.insert(id, mailboxes[id]) =~= mailboxes);
    } else {
        let earlier = messages.drop_last();
        lemma_deposits_all_arrive(mailboxes, id, earlier);
        assert((mailboxes[id] + earlier).push(messages.last()) =~= mailboxes[id] + messages);
        assert(deposited_all(mailboxes, id, messages) =~= mailboxes.insert(
            id,
            mailboxes[id] + messages,
        ));
    }
}

/// In whatever order the deposits of several callers are made, the inbox
/// ends up holding what it held before and each caller's message exactly as
/// often as it was deposited: none is lost and none is doubled.
pub proof fn lemma_deposits_in_any_order<M>(
    mailboxes: Map<usize, Seq<M>>,
    id: usize,
    callers: Seq<M>,
    order: Seq<M>,
)
    requires
        mailboxes.contains_key(id),
        order.to_multiset() == callers.to_multiset(),
    ensures
        deposited_all(mailboxes, id, order)[id].len() == mailboxes[id].len() + callers.len(),
        deposited_all(mailboxes, id, order)[id].to_multiset() == mailboxes[id].to_multiset().add(
            callers.to_multiset(),
        ),
{
    lemma_deposits_all_arrive(mailboxes, id, order);
    vstd::seq_lib::lemma_multiset_commutative(mailboxes[id], order);
    order.to_multiset_ensures();
    callers.to_multiset_ensures();
}

} // verus!
