//! Messages from drivers, kept until the shell shows them.

use vstd::prelude::*;

verus! {

/// Messages a full queue may hold before the oldest is dropped.
pub const QUEUE_LIMIT: usize = 50;

/// The queue of messages, oldest first.
pub struct Logger {
    pub queue: Vec<String>,
}

/// The texts of a list of strings.
pub open spec fn texts(strings: Seq<String>) -> Seq<Seq<char>> {
    Seq::new(strings.len(), |i: int| strings[i]@)
}

/// The queue after `msg` was logged: at its end, and without the oldest
/// message where more than the limit were waiting.
pub open spec fn logged(queue: Seq<Seq<char>>, msg: Seq<char>) -> Seq<Seq<char>> {
    if queue.len() > QUEUE_LIMIT {
        queue.drop_first().push(msg)
    } else {
        queue.push(msg)
    }
}

impl Logger {
    /// The waiting messages, oldest first.
    pub open spec fn messages(&self) -> Seq<Seq<char>> {
        texts(self.queue@)
    }

    /// An empty queue.
    pub fn new() -> (r: Logger)
        ensures
            r.messages() == Seq::<Seq<char>>::empty(),
    {
        let r = Logger { queue: Vec::new() };
        proof {
            assert(r.messages() =~= Seq::<Seq<char>>::empty());
        }
        r
    }
}

/// Queues a message. A queue that holds more than fifty messages drops
/// its oldest first.
pub fn log(logger: &mut Logger, msg: &str)
    ensures
        final(logger).messages() == logged(old(logger).messages(), msg@),
{
    if logger.queue.len() > QUEUE_LIMIT {
        let _ = logger.queue.remove(0);
    }
    logger.queue.push(msg.to_owned());
    proof {
        assert(logger.messages() =~= logged(old(logger).messages(), msg@));
    }
}

/// Hands out the waiting messages, oldest first, and empties the queue.
pub fn drain(logger: &mut Logger) -> (items: Vec<String>)
    ensures
        texts(items@) == old(logger).messages(),
        final(logger).messages() == Seq::<Seq<char>>::empty(),
{
    let mut items: Vec<String> = Vec::new();
    let mut i: usize = 0;
    while i < logger.queue.len()
        invariant
            i <= logger.queue.len(),
            logger.queue == old(logger).queue,
            items.len() == i,
            forall|k: int| 0 <= k < i ==> (#[trigger] items@[k])@ == logger.queue@[k]@,
        decreases logger.queue.len() - i,
    {
        items.push(logger.queue[i].clone());
        i = i + 1;
    }
    proof {
        assert(texts(items@) =~= old(logger).messages());
    }
    logger.queue = Vec::new();
    proof {
        assert(logger.messages() =~= Seq::<Seq<char>>::empty());
    }
    items
}

} // verus!
