//! Identifiers of audio nodes, and the provider that hands them out.

use vstd::prelude::*;

verus! {

/// Identifier of a node in the audio graph.
#[derive(Clone, Copy, Debug, PartialEq, Eq, Structural)]
pub struct AudioNodeId(pub u64);

/// Id of the destination node, the first node that a context registers.
pub const DESTINATION_NODE_ID: u64 = 0;

/// Id of the audio listener, the second node that a context registers.
pub const LISTENER_NODE_ID: u64 = 1;

/// Id of the first of the nine audio params of the listener.
pub const LISTENER_PARAM_IDS_START: u64 = 2;

/// First id that is available to ordinary nodes, right after the params of the listener.
pub const LISTENER_PARAM_IDS_END: u64 = 11;

/// Whether an id belongs to the listener or to one of its params.
pub open spec fn is_listener_id(id: AudioNodeId) -> bool {
    id.0 == LISTENER_NODE_ID || LISTENER_PARAM_IDS_START <= id.0 < LISTENER_PARAM_IDS_END
}

/// Whether an id belongs to a node that every context creates for itself and never releases.
pub open spec fn is_magic_id(id: AudioNodeId) -> bool {
    id.0 == DESTINATION_NODE_ID || is_listener_id(id)
}

impl AudioNodeId {
    /// Tells whether this is the listener or one of its params.
    pub fn is_listener(&self) -> (r: bool)
        ensures
            r == is_listener_id(*self),
    {
        self.0 == LISTENER_NODE_ID || (LISTENER_PARAM_IDS_START <= self.0 && self.0
            < LISTENER_PARAM_IDS_END)
    }

    /// Tells whether this is a node that the context created for itself.
    pub fn is_magic(&self) -> (r: bool)
        ensures
            r == is_magic_id(*self),
    {
        self.0 == DESTINATION_NODE_ID || self.is_listener()
    }
}

/// `llq::Consumer`: the receiving half of a queue. The sending half may live on another thread, so
/// what the queue holds is no function of this value.
#[verifier::external_type_specification]
#[verifier::external_body]
#[verifier::reject_recursive_types(T)]
pub struct ExConsumer<T>(llq::Consumer<T>);

/// `llq::Producer`: the sending half of a queue.
#[verifier::external_type_specification]
#[verifier::external_body]
#[verifier::reject_recursive_types(T)]
pub struct ExProducer<T>(llq::Producer<T>);

/// `llq::Queue`: a queue that is not in use yet.
#[verifier::external_type_specification]
#[verifier::external_body]
#[verifier::reject_recursive_types(T)]
pub struct ExQueue<T>(llq::Queue<T>);

/// `llq::Node`: a heap cell that holds one value and can travel through a queue.
#[verifier::external_type_specification]
#[verifier::external_body]
#[verifier::reject_recursive_types(T)]
pub struct ExNode<T>(llq::Node<T>);

/// What a queue node holds: a sequence of one value.
pub uninterp spec fn node_contents(node: llq::Node<u64>) -> Seq<u64>;

/// `llq::Node::new`: allocates a node, which holds the given value.
#[verifier::external_body]
pub(crate) fn node_new(id: u64) -> (node: llq::Node<u64>)
    ensures
        node_contents(node) == seq![id],
{
    llq::Node::new(id)
}

/// `llq::Node::into_inner`: frees a node and hands out the value that it held.
#[verifier::external_body]
fn node_into_inner(node: llq::Node<u64>) -> (id: u64)
    ensures
        node_contents(node) == seq![id],
{
    llq::Node::into_inner(node)
}

/// `llq::Queue::new`: creates a queue. Nothing is claimed of the result: a queue shows what it
/// holds only to its consumer, once its producer may have filled it.
#[verifier::external_body]
fn queue_new() -> (queue: llq::Queue<u64>)
{
    llq::Queue::new()
}

/// `llq::Queue::split`: turns a queue into its two halves. Nothing is claimed of the result: the
/// halves may be on two threads, so that neither determines what the queue holds.
#[verifier::external_body]
fn queue_split(queue: llq::Queue<u64>) -> (halves: (llq::Producer<u64>, llq::Consumer<u64>))
{
    queue.split()
}

/// Whether two queue halves can be those of one new queue.
pub closed spec fn halves_of_new_queue(halves: (llq::Producer<u64>, llq::Consumer<u64>)) -> bool {
    exists|queue: llq::Queue<u64>|
        call_ensures(queue_new, (), queue) && #[trigger] call_ensures(queue_split, (queue,), halves)
}

/// Creates a queue for decommissioned ids, and hands out its two halves.
pub(crate) fn id_queue() -> (halves: (llq::Producer<u64>, llq::Consumer<u64>))
    ensures
        halves_of_new_queue(halves),
{
    queue_split(queue_new())
}

/// `llq::Consumer::pop`: takes the oldest node out of the queue, if there is one. The consumer goes in
/// as it is before the call, and comes back as it is after it. Nothing is claimed of which node comes
/// out: it depends on what the sending half has pushed by now.
#[verifier::external_body]
fn consumer_pop(consumer: llq::Consumer<u64>) -> (r: (Option<llq::Node<u64>>, llq::Consumer<u64>))
{
    let mut consumer = consumer;
    let node = consumer.pop();
    (node, consumer)
}

/// Which id is assigned, and what the next fresh id becomes: a decommissioned id is used again,
/// otherwise the fresh id is taken and the counter moves on (and wraps, as an atomic would).
pub open spec fn assigned(next_id: u64, reclaimed: Option<u64>, id: u64, next_id_after: u64) -> bool {
    match reclaimed {
        Some(old_id) => id == old_id && next_id_after == next_id,
        None => id == next_id && next_id_after == (if next_id == u64::MAX {
            0u64
        } else {
            (next_id + 1) as u64
        }),
    }
}

/// The state of a provider of ids, as contracts speak of it.
pub struct IdsView {
    /// the id that the next node gets, unless a decommissioned id is available
    pub next_id: u64,
    /// the queue that decommissioned ids are taken from, if there is one
    pub consumer: Option<llq::Consumer<u64>>,
}

/// Whether taking a node out of a queue once, when it is `before`, can give `node` and leave the
/// queue as `after`.
pub closed spec fn popped(
    before: llq::Consumer<u64>,
    node: Option<llq::Node<u64>>,
    after: llq::Consumer<u64>,
) -> bool {
    call_ensures(consumer_pop, (before,), (node, after))
}

/// What is taken out of a queue comes from one attempt to take a node out of that very queue.
proof fn law_nodes_come_out_of_the_queue(
    before: llq::Consumer<u64>,
    node: Option<llq::Node<u64>>,
    after: llq::Consumer<u64>,
)
    requires
        popped(before, node, after),
    ensures
        call_ensures(consumer_pop, (before,), (node, after)),
{
}

/// The halves of a new queue are those of one queue, which was in no use before.
proof fn law_halves_are_those_of_one_queue(
    halves: (llq::Producer<u64>, llq::Consumer<u64>),
)
    requires
        halves_of_new_queue(halves),
    ensures
        exists|queue: llq::Queue<u64>|
            call_ensures(queue_new, (), queue) && #[trigger] call_ensures(
                queue_split,
                (queue,),
                halves,
            ),
{
}

/// The id in a queue node, if there is one.
pub open spec fn held(node: Option<llq::Node<u64>>) -> Option<u64> {
    match node {
        Some(n) => Some(node_contents(n)[0]),
        None => None,
    }
}

/// Whether an id is what a provider assigns: what it took out of the queue of decommissioned ids, in
/// one attempt, or a fresh id if that had nothing to take.
pub open spec fn id_taken(before: IdsView, id: AudioNodeId, after: IdsView) -> bool {
    match before.consumer {
        Some(queue) => exists|node: Option<llq::Node<u64>>, left: llq::Consumer<u64>|
            {
                &&& #[trigger] popped(queue, node, left)
                &&& after.consumer == Some(left)
                &&& assigned(before.next_id, held(node), id.0, after.next_id)
            },
        None => after.consumer is None && assigned(before.next_id, None, id.0, after.next_id),
    }
}

/// Whether ids are what a provider assigns, one after the other.
pub open spec fn ids_taken(before: IdsView, ids: Seq<AudioNodeId>, after: IdsView) -> bool
    decreases ids.len(),
{
    if ids.len() == 0 {
        before == after
    } else {
        exists|between: IdsView| #[trigger]
            id_taken(between, ids.last(), after) && ids_taken(before, ids.drop_last(), between)
    }
}

/// One more id.
pub proof fn lemma_ids_taken_step(
    before: IdsView,
    ids: Seq<AudioNodeId>,
    between: IdsView,
    id: AudioNodeId,
    after: IdsView,
)
    requires
        ids_taken(before, ids, between),
        id_taken(between, id, after),
    ensures
        ids_taken(before, ids.push(id), after),
{
    assert(ids.push(id).drop_last() =~= ids);
    assert(ids.push(id).last() == id);
}

/// Ids that were assigned one after the other, in two parts.
pub proof fn lemma_ids_taken_twice(
    before: IdsView,
    first: Seq<AudioNodeId>,
    between: IdsView,
    second: Seq<AudioNodeId>,
    after: IdsView,
)
    requires
        ids_taken(before, first, between),
        ids_taken(between, second, after),
    ensures
        ids_taken(before, first + second, after),
    decreases second.len(),
{
    if second.len() == 0 {
        assert(first + second =~= first);
    } else {
        let last = choose|last: IdsView| #[trigger]
            id_taken(last, second.last(), after) && ids_taken(between, second.drop_last(), last);
        lemma_ids_taken_twice(before, first, between, second.drop_last(), last);
        assert((first + second).drop_last() =~= first + second.drop_last());
        assert((first + second).last() == second.last());
    }
}

/// Each id that was not used before moves the counter on by one, so the counter tells whether all
/// ids are fresh: then they count up.
pub proof fn law_counter_tells_fresh_ids(before: IdsView, ids: Seq<AudioNodeId>, after: IdsView)
    requires
        ids_taken(before, ids, after),
        before.next_id + ids.len() <= u64::MAX,
    ensures
        before.next_id <= after.next_id <= before.next_id + ids.len(),
        after.next_id == before.next_id + ids.len() ==> forall|i: int|
            0 <= i < ids.len() ==> (#[trigger] ids[i]).0 == before.next_id + i,
    decreases ids.len(),
{
    if ids.len() > 0 {
        let between = choose|between: IdsView| #[trigger]
            id_taken(between, ids.last(), after) && ids_taken(before, ids.drop_last(), between);
        law_counter_tells_fresh_ids(before, ids.drop_last(), between);
        assert forall|i: int|
            after.next_id == before.next_id + ids.len() && 0 <= i < ids.len() implies (
        #[trigger] ids[i]).0 == before.next_id + i by {
            if i < ids.len() - 1 {
                assert(ids[i] == ids.drop_last()[i]);
            }
        }
    }
}

/// Assigns ids to new audio nodes.
///
/// It uses the ids of decommissioned nodes again, which keeps the node list of the audio graph
/// (indexed by id) from growing without bound.
pub struct AudioNodeIdProvider {
    /// incrementing id
    id_inc: u64,
    /// receiver of decommissioned ids, which is away only while a node is taken out of it
    id_consumer: Option<llq::Consumer<u64>>,
}

impl View for AudioNodeIdProvider {
    type V = IdsView;

    closed spec fn view(&self) -> IdsView {
        IdsView { next_id: self.id_inc, consumer: self.id_consumer }
    }
}

impl AudioNodeIdProvider {
    /// Creates a provider whose fresh ids start at zero, and which takes decommissioned ids from
    /// the given queue.
    pub fn new(id_consumer: llq::Consumer<u64>) -> (provider: Self)
        ensures
            provider@ == (IdsView { next_id: 0, consumer: Some(id_consumer) }),
    {
        AudioNodeIdProvider { id_inc: 0, id_consumer: Some(id_consumer) }
    }

    /// Assigns an id, given the decommissioned id that is available, if any.
    pub fn assign(&mut self, reclaimed: Option<u64>) -> (id: AudioNodeId)
        ensures
            assigned(old(self)@.next_id, reclaimed, id.0, final(self)@.next_id),
            final(self)@.consumer == old(self)@.consumer,
    {
        match reclaimed {
            Some(available_id) => AudioNodeId(available_id),
            None => {
                let id: u64 = self.id_inc;
                self.id_inc = id.wrapping_add(1);
                AudioNodeId(id)
            },
        }
    }

    /// Assigns an id: the oldest decommissioned id in the queue, or a fresh one.
    pub fn get(&mut self) -> (id: AudioNodeId)
        ensures
            id_taken(old(self)@, id, final(self)@),
    {
        let reclaimed: Option<u64> = match self.id_consumer.take() {
            Some(queue) => {
                let (node, left) = consumer_pop(queue);
                assert(popped(queue, node, left));
                self.id_consumer = Some(left);
                match node {
                    Some(available_id) => Some(node_into_inner(available_id)),
                    None => None,
                }
            },
            None => None,
        };
        self.assign(reclaimed)
    }
}

/// Fresh ids count up: without a decommissioned id to use again, two assignments in a row give
/// two different ids, the second one more than the first.
pub proof fn law_fresh_ids_count_up(n0: u64, a: u64, n1: u64, b: u64, n2: u64)
    requires
        n0 < u64::MAX,
        assigned(n0, None, a, n1),
        assigned(n1, None, b, n2),
    ensures
        b == a + 1,
{
}

} // verus!
