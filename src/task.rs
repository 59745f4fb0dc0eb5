//! The bridge between worker-thread tasks and the pending results that the
//! engine thread owns: the messages tasks send, and the promise table that
//! the engine's event pump updates as it drains them.
use vstd::prelude::*;

use rand::Rng;
use std::collections::HashMap;

verus! {

broadcast use vstd::std_specs::hash::group_hash_axioms;

/// The key that correlates a pending result with the outcome of its task.
pub type PromIndex = u32;

/// What a task reports. `B` converts the payload bytes into an engine value
/// on the engine thread.
pub enum Type<B> {
    /// The task's terminal outcome: bytes on success, a description on
    /// failure.
    Result(Result<Vec<u8>, String>, B),
    /// A progress event, named, sent while the task runs.
    Auxiliary(String, Vec<u8>, B),
}

/// A report addressed to the pending result of one task.
pub struct Message<B>(pub PromIndex, pub Type<B>);

impl<B: Copy> Type<B> {
    /// This report, addressed to `prom_index`.
    pub fn message(&self, prom_index: PromIndex) -> (r: Message<B>)
        ensures
            r.0 == prom_index,
            match (self, r.1) {
                (Type::Result(Ok(a), b), Type::Result(Ok(c), d)) => a@ == c@ && b == d,
                (Type::Result(Err(a), b), Type::Result(Err(c), d)) => a@ == c@ && b == d,
                (Type::Auxiliary(n, a, b), Type::Auxiliary(m, c, d)) => n@ == m@ && a@ == c@ && b
                    == d,
                _ => false,
            },
    {
        let t = match self {
            Type::Result(Ok(bytes), b) => Type::Result(Ok(copy_bytes(bytes)), *b),
            Type::Result(Err(text), b) => Type::Result(Err(text.clone()), *b),
            Type::Auxiliary(name, bytes, b) => Type::Auxiliary(name.clone(), copy_bytes(bytes), *b),
        };
        Message(prom_index, t)
    }
}

fn copy_bytes(bytes: &Vec<u8>) -> (r: Vec<u8>)
    ensures
        r@ == bytes@,
{
    let mut r: Vec<u8> = Vec::new();
    let mut i: usize = 0;
    while i < bytes.len()
        invariant
            i <= bytes.len(),
            r@ == bytes@.take(i as int),
        decreases bytes.len() - i,
    {
        r.push(bytes[i]);
        i = i + 1;
        assert(r@ =~= bytes@.take(i as int));
    }
    assert(bytes@.take(i as int) =~= bytes@);
    r
}

/// The handler registered last under `event` in `handlers`, if any.
pub open spec fn handler_for<H>(handlers: Seq<(Seq<char>, H)>, event: Seq<char>) -> Option<H>
    decreases handlers.len(),
{
    if handlers.len() == 0 {
        None
    } else if handlers.last().0 == event {
        Some(handlers.last().1)
    } else {
        handler_for(handlers.drop_last(), event)
    }
}

/// The engine-side record of one running task: the handle that settles its
/// result and the event handlers that script code registered on it.
pub struct PendingTask<P, H> {
    resolver: P,
    handlers: Vec<(String, H)>,
}

impl<P, H> PendingTask<P, H> {
    pub closed spec fn resolver(&self) -> P {
        self.resolver
    }

    /// The registered handlers, oldest first.
    pub closed spec fn handlers(&self) -> Seq<(Seq<char>, H)> {
        self.handlers@.map_values(|e: (String, H)| (e.0@, e.1))
    }
}

/// What the engine thread has to do after taking one message off the
/// channel.
pub enum Action<P, B> {
    /// Call the handler registered for `event` on task `task` with the value
    /// that `builder` makes of `payload`.
    Notify { task: PromIndex, event: String, payload: Vec<u8>, builder: B },
    /// Fulfil the result with the value that `builder` makes of `payload`.
    Resolve { resolver: P, payload: Vec<u8>, builder: B },
    /// Reject the result with an error carrying `reason`.
    Reject { resolver: P, reason: String },
    /// A progress event that no handler listens to: nothing to do.
    Ignore,
    /// A message for a task that is not pending: nothing to do.
    Stray(PromIndex),
}

/// The promise table after one message: a terminal message removes its
/// task, a progress event changes nothing.
pub open spec fn after_message<P, H, B>(table: Map<PromIndex, PendingTask<P, H>>, msg: Message<B>) -> Map<
    PromIndex,
    PendingTask<P, H>,
> {
    match msg.1 {
        Type::Result(_, _) => table.remove(msg.0),
        Type::Auxiliary(_, _, _) => table,
    }
}

/// The promise table after the messages `msgs`, taken in order.
pub open spec fn after_messages<P, H, B>(
    table: Map<PromIndex, PendingTask<P, H>>,
    msgs: Seq<Message<B>>,
) -> Map<PromIndex, PendingTask<P, H>>
    decreases msgs.len(),
{
    if msgs.len() == 0 {
        table
    } else {
        after_message(after_messages(table, msgs.drop_last()), msgs.last())
    }
}

/// Draws an index uniformly from `0..u32::MAX`.
///
/// Relies on `rand::Rng::gen_range` over the thread-local generator, which
/// returns a value of the half-open range it is given.
#[verifier::external_body]
fn random_index() -> (r: PromIndex)
    ensures
        r < u32::MAX,
{
    rand::thread_rng().gen_range(u32::MIN..u32::MAX)
}

/// The indices below `bound`.
spec fn indices_below(bound: nat) -> Set<PromIndex> {
    Set::new(|k: PromIndex| (k as nat) < bound)
}

proof fn lemma_indices_below_len(bound: nat)
    requires
        bound <= 0x1_0000_0000,
    ensures
        indices_below(bound).finite(),
        indices_below(bound).len() == bound,
    decreases bound,
{
    if bound == 0 {
        assert(indices_below(0) =~= Set::empty());
    } else {
        lemma_indices_below_len((bound - 1) as nat);
        let k = (bound - 1) as PromIndex;
        assert(indices_below(bound) =~= indices_below((bound - 1) as nat).insert(k));
    }
}

/// A table with fewer entries than there are indices leaves one free.
pub proof fn lemma_free_index_exists<V>(table: Map<PromIndex, V>)
    requires
        table.dom().finite(),
        table.len() < 0x1_0000_0000,
    ensures
        exists|k: PromIndex| !table.contains_key(k),
{
    if forall|k: PromIndex| table.contains_key(k) {
        lemma_indices_below_len(0x1_0000_0000);
        assert(indices_below(0x1_0000_0000).subset_of(table.dom()));
        vstd::set_lib::lemma_len_subset(indices_below(0x1_0000_0000), table.dom());
    }
}

/// The engine's event pump state: every pending task by its index.
pub struct Runtime<P, H> {
    promises: HashMap<PromIndex, PendingTask<P, H>>,
}

impl<P, H> View for Runtime<P, H> {
    type V = Map<PromIndex, PendingTask<P, H>>;

    closed spec fn view(&self) -> Map<PromIndex, PendingTask<P, H>> {
        self.promises@
    }
}

impl<P, H> Runtime<P, H> {
    pub fn new() -> (r: Runtime<P, H>)
        ensures
            r@ == Map::<PromIndex, PendingTask<P, H>>::empty(),
            r@.dom().finite(),
    {
        Runtime { promises: HashMap::new() }
    }

    /// Whether task `index` is still pending.
    pub fn contains(&self, index: PromIndex) -> (r: bool)
        ensures
            r == self@.contains_key(index),
    {
        self.promises.contains_key(&index)
    }

    /// The number of pending tasks.
    pub fn pending(&self) -> (r: usize)
        ensures
            r == self@.len(),
            self@.dom().finite(),
    {
        self.promises.len()
    }

    /// Whether no task is pending, so the pump can stop.
    pub fn is_idle(&self) -> (r: bool)
        ensures
            r == (self@.len() == 0),
    {
        self.promises.len() == 0
    }

    /// An index that no pending task holds: random draws first, as tasks are
    /// independent; should those keep colliding, the smallest free index.
    pub fn fresh_index(&self) -> (r: PromIndex)
        requires
            exists|k: PromIndex| !self@.contains_key(k),
        ensures
            !self@.contains_key(r),
    {
        let mut candidate: PromIndex = 0;
        let mut attempts: usize = 0;
        while self.promises.contains_key(&candidate) && attempts < 64
            decreases 64 - attempts,
        {
            candidate = random_index();
            attempts = attempts + 1;
        }
        if !self.promises.contains_key(&candidate) {
            return candidate;
        }
        let mut k: PromIndex = 0;
        while self.promises.contains_key(&k)
            invariant
                exists|k: PromIndex| !self@.contains_key(k),
                forall|j: PromIndex| j < k ==> self@.contains_key(j),
            decreases u32::MAX - k,
        {
            if k == u32::MAX {
                proof {
                    let free = choose|f: PromIndex| !self@.contains_key(f);
                    assert(self@.contains_key(free));
                }
                return k;
            }
            k = k + 1;
        }
        k
    }

    /// Registers a new pending task settled by `resolver` and returns its
    /// index, which no other pending task holds.
    pub fn prom_map_insert(&mut self, resolver: P) -> (r: PromIndex)
        requires
            exists|k: PromIndex| !old(self)@.contains_key(k),
        ensures
            !old(self)@.contains_key(r),
            final(self)@ == old(self)@.insert(r, final(self)@[r]),
            final(self)@.dom().finite(),
            final(self)@.len() == old(self)@.len() + 1,
            final(self)@[r].resolver() == resolver,
            final(self)@[r].handlers() == Seq::<(Seq<char>, H)>::empty(),
    {
        let index = self.fresh_index();
        let task = PendingTask { resolver, handlers: Vec::new() };
        assert(task.handlers() =~= Seq::<(Seq<char>, H)>::empty());
        self.promises.insert(index, task);
        index
    }

    /// Registers `handler` for the progress event `event` of task `task`; a
    /// later registration for the same event takes precedence. Returns
    /// whether the task was pending.
    pub fn on(&mut self, task: PromIndex, event: String, handler: H) -> (r: bool)
        ensures
            r == old(self)@.contains_key(task),
            final(self)@.dom().finite(),
            r ==> final(self)@ == old(self)@.insert(task, final(self)@[task]),
            r ==> final(self)@[task].resolver() == old(self)@[task].resolver(),
            r ==> final(self)@[task].handlers() == old(self)@[task].handlers().push(
                (event@, handler),
            ),
            !r ==> final(self)@ == old(self)@,
    {
        match self.promises.remove(&task) {
            Some(mut pending) => {
                let ghost before = pending.handlers();
                let ghost name = event@;
                pending.handlers.push((event, handler));
                assert(pending.handlers() =~= before.push((name, handler)));
                self.promises.insert(task, pending);
                assert(self.promises@ =~= old(self)@.insert(task, self.promises@[task]));
                true
            },
            None => {
                assert(self.promises@ =~= old(self)@);
                false
            },
        }
    }

    /// The handle that settles task `task`'s result.
    pub fn resolver(&self, task: PromIndex) -> (r: Option<&P>)
        ensures
            match r {
                Some(p) => self@.contains_key(task) && *p == self@[task].resolver(),
                None => !self@.contains_key(task),
            },
    {
        match self.promises.get(&task) {
            Some(pending) => Some(&pending.resolver),
            None => None,
        }
    }

    /// The handler that a progress event `event` of task `task` goes to.
    pub fn handler(&self, task: PromIndex, event: &str) -> (r: Option<&H>)
        ensures
            match r {
                Some(h) => self@.contains_key(task) && handler_for(self@[task].handlers(), event@)
                    == Some(*h),
                None => !self@.contains_key(task) || handler_for(self@[task].handlers(), event@)
                    is None,
            },
    {
        match self.promises.get(&task) {
            Some(pending) => pending.find_handler(event),
            None => None,
        }
    }

    /// Takes one message off the channel: updates the table and says what
    /// the engine thread must do with the message.
    pub fn dispatch<B>(&mut self, msg: Message<B>) -> (r: Action<P, B>)
        ensures
            final(self)@ == after_message(old(self)@, msg),
            final(self)@.dom().finite(),
            !old(self)@.contains_key(msg.0) ==> r == Action::<P, B>::Stray(msg.0),
            old(self)@.contains_key(msg.0) ==> match msg.1 {
                Type::Result(Ok(bytes), b) => r matches Action::Resolve { resolver, payload, builder }
                    && resolver == old(self)@[msg.0].resolver() && payload@ == bytes@ && builder
                    == b,
                Type::Result(Err(text), _) => r matches Action::Reject { resolver, reason }
                    && resolver == old(self)@[msg.0].resolver() && reason@ == text@,
                Type::Auxiliary(name, bytes, b) => match handler_for(
                    old(self)@[msg.0].handlers(),
                    name@,
                ) {
                    Some(_) => r matches Action::Notify { task, event, payload, builder } && task
                        == msg.0 && event@ == name@ && payload@ == bytes@ && builder == b,
                    None => r is Ignore,
                },
            },
    {
        let Message(index, kind) = msg;
        match kind {
            Type::Result(outcome, builder) => match self.promises.remove(&index) {
                Some(pending) => match outcome {
                    Ok(payload) => Action::Resolve { resolver: pending.resolver, payload, builder },
                    Err(reason) => Action::Reject { resolver: pending.resolver, reason },
                },
                None => Action::Stray(index),
            },
            Type::Auxiliary(event, payload, builder) => match self.promises.get(&index) {
                Some(pending) => {
                    if pending.find_handler(event.as_str()).is_some() {
                        Action::Notify { task: index, event, payload, builder }
                    } else {
                        Action::Ignore
                    }
                },
                None => Action::Stray(index),
            },
        }
    }
}

impl<P, H> PendingTask<P, H> {
    fn find_handler(&self, event: &str) -> (r: Option<&H>)
        ensures
            match r {
                Some(h) => handler_for(self.handlers(), event@) == Some(*h),
                None => handler_for(self.handlers(), event@) is None,
            },
    {
        let wanted = String::from_str(event);
        let ghost hs = self.handlers();
        let mut i: usize = self.handlers.len();
        assert(hs.take(i as int) =~= hs);
        while i > 0
            invariant
                i <= self.handlers.len(),
                hs == self.handlers(),
                wanted@ == event@,
                handler_for(hs.take(i as int), event@) == handler_for(hs, event@),
            decreases i,
        {
            assert(hs.take(i as int).drop_last() =~= hs.take(i - 1));
            assert(hs[i - 1] == (self.handlers@[i - 1].0@, self.handlers@[i - 1].1));
            if self.handlers[i - 1].0 == wanted {
                return Some(&self.handlers[i - 1].1);
            }
            i = i - 1;
        }
        assert(hs.take(0) =~= Seq::<(Seq<char>, H)>::empty());
        None
    }
}

/// Whatever messages come before the terminal message of task `index` (its
/// own progress events, and any message for other tasks), the task stays
/// pending until that terminal message is processed and is gone afterwards;
/// and the messages addressed to `index` leave every other entry as it was.
pub proof fn lemma_terminal_message_removes<P, H, B>(
    table: Map<PromIndex, PendingTask<P, H>>,
    index: PromIndex,
    msgs: Seq<Message<B>>,
)
    requires
        table.contains_key(index),
        msgs.len() >= 1,
        forall|j: int|
            0 <= j < msgs.len() - 1 ==> !(#[trigger] msgs[j].0 == index && msgs[j].1 is Result),
        msgs.last().0 == index,
        msgs.last().1 is Result,
    ensures
        forall|k: int|
            0 <= k < msgs.len() ==> #[trigger] after_messages(table, msgs.take(k)).contains_key(
                index,
            ),
        !after_messages(table, msgs).contains_key(index),
        forall|k: int|
            0 <= k < msgs.len() && #[trigger] msgs[k].0 == index ==> after_messages(
                table,
                msgs.take(k + 1),
            ).remove(index) == after_messages(table, msgs.take(k)).remove(index),
{
    assert forall|k: int| 0 <= k < msgs.len() implies #[trigger] after_messages(
        table,
        msgs.take(k),
    ).contains_key(index) by {
        lemma_pending_until_terminal(table, index, msgs, k);
    }
    assert forall|k: int| 0 <= k < msgs.len() && #[trigger] msgs[k].0 == index implies after_messages(
        table,
        msgs.take(k + 1),
    ).remove(index) == after_messages(table, msgs.take(k)).remove(index) by {
        lemma_step(table, msgs, k);
        let before = after_messages(table, msgs.take(k));
        if msgs[k].1 is Result {
            assert(before.remove(index).remove(index) =~= before.remove(index));
        }
    }
    lemma_step(table, msgs, msgs.len() - 1);
    assert(msgs.take(msgs.len() as int) =~= msgs);
}

proof fn lemma_step<P, H, B>(table: Map<PromIndex, PendingTask<P, H>>, msgs: Seq<Message<B>>, k: int)
    requires
        0 <= k < msgs.len(),
    ensures
        after_messages(table, msgs.take(k + 1)) == after_message(
            after_messages(table, msgs.take(k)),
            msgs[k],
        ),
{
    assert(msgs.take(k + 1).drop_last() =~= msgs.take(k));
    assert(msgs.take(k + 1).last() == msgs[k]);
}

proof fn lemma_pending_until_terminal<P, H, B>(
    table: Map<PromIndex, PendingTask<P, H>>,
    index: PromIndex,
    msgs: Seq<Message<B>>,
    k: int,
)
    requires
        table.contains_key(index),
        0 <= k < msgs.len(),
        forall|j: int|
            0 <= j < msgs.len() - 1 ==> !(#[trigger] msgs[j].0 == index && msgs[j].1 is Result),
    ensures
        after_messages(table, msgs.take(k)).contains_key(index),
    decreases k,
{
    if k == 0 {
        assert(msgs.take(0) =~= Seq::<Message<B>>::empty());
    } else {
        lemma_pending_until_terminal(table, index, msgs, k - 1);
        lemma_step(table, msgs, k - 1);
        assert(!(msgs[k - 1].0 == index && msgs[k - 1].1 is Result));
    }
}

} // verus!
