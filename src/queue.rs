use vstd::prelude::*;

verus! {

/// A job for one datasource, handed to the coordinator.
#[derive(Debug)]
pub struct Task {
    pub id: String,
    pub table_name: String,
}

/// The pending datasource identifiers, oldest first; the same identifier may
/// stand more than once.
#[derive(Debug)]
pub struct MyQueue {
    items: Vec<String>,
}

/// The queue after enqueueing `ids` one by one, in the order in which the
/// queue's lock let their callers in.
pub open spec fn enqueue_all(q: Seq<Seq<char>>, ids: Seq<Seq<char>>) -> Seq<Seq<char>>
    decreases ids.len(),
{
    if ids.len() == 0 {
        q
    } else {
        enqueue_all(q, ids.drop_last()).push(ids.last())
    }
}

impl View for MyQueue {
    type V = Seq<Seq<char>>;

    closed spec fn view(&self) -> Seq<Seq<char>> {
        self.items@.map_values(|s: String| s@)
    }
}

impl MyQueue {
    /// An empty queue.
    pub fn new() -> (r: MyQueue)
        ensures
            r@ == Seq::<Seq<char>>::empty(),
    {
        let r = MyQueue { items: Vec::new() };
        assert(r@ =~= Seq::<Seq<char>>::empty());
        r
    }

    /// The number of pending identifiers.
    pub fn len(&self) -> (r: usize)
        ensures
            r == self@.len(),
    {
        self.items.len()
    }

    /// The identifier at position `i`, oldest first.
    pub fn get(&self, i: usize) -> (r: &String)
        requires
            i < self@.len(),
        ensures
            r@ == self@[i as int],
    {
        &self.items[i]
    }

    /// Appends `id` at the tail.
    pub fn enqueue(&mut self, id: String)
        ensures
            final(self)@ == old(self)@.push(id@),
    {
        self.items.push(id);
        assert(self@ =~= old(self)@.push(id@));
    }

    /// The task for the most recently enqueued identifier, to be run against
    /// `table_name`; none while the queue is empty.
    pub fn dispatch(&self, table_name: String) -> (r: Option<Task>)
        ensures
            r is None <==> self@.len() == 0,
            r matches Some(t) ==> t.id@ == self@.last() && t.table_name@ == table_name@,
    {
        let n = self.items.len();
        if n == 0 {
            None
        } else {
            Some(Task { id: self.items[n - 1].clone(), table_name })
        }
    }

    /// Enqueues `id` and dispatches it at once, as one step under the
    /// queue's exclusive lock.
    pub fn enqueue_and_dispatch(&mut self, id: String, table_name: String) -> (r: Task)
        ensures
            final(self)@ == old(self)@.push(id@),
            r.id@ == id@,
            r.table_name@ == table_name@,
    {
        self.enqueue(id);
        let t = self.dispatch(table_name);
        t.unwrap()
    }
}

/// However the callers' enqueues are ordered, the queue afterwards holds what
/// it held before and every enqueued identifier, each as often as it was
/// enqueued.
pub proof fn lemma_enqueues_lose_nothing(q: Seq<Seq<char>>, ids: Seq<Seq<char>>)
    ensures
        enqueue_all(q, ids) == q + ids,
        enqueue_all(q, ids).to_multiset() == q.to_multiset().add(ids.to_multiset()),
    decreases ids.len(),
{
    if ids.len() > 0 {
        lemma_enqueues_lose_nothing(q, ids.drop_last());
        assert(q + ids =~= (q + ids.drop_last()).push(ids.last()));
    } else {
        assert(q + ids =~= q);
    }
    vstd::seq_lib::lemma_multiset_commutative(q, ids);
}

} // verus!
