//! The queue of characters between the keyboard and the shell.

use vstd::prelude::*;
use std::collections::VecDeque;

verus! {

/// Characters typed and not yet read, oldest first.
pub struct KeyboardBuffer {
    pub queue: VecDeque<char>,
}

impl KeyboardBuffer {
    /// The waiting characters, oldest first.
    pub open spec fn waiting(&self) -> Seq<char> {
        self.queue@
    }

    /// An empty queue.
    pub fn new() -> (r: KeyboardBuffer)
        ensures
            r.waiting() == Seq::<char>::empty(),
    {
        KeyboardBuffer { queue: VecDeque::new() }
    }
}

/// Queues a character behind those that wait.
pub fn push_key(buffer: &mut KeyboardBuffer, c: char)
    ensures
        final(buffer).waiting() == old(buffer).waiting().push(c),
{
    buffer.queue.push_back(c);
}

/// Takes the character that has waited longest; `None` where none waits.
pub fn pop_key(buffer: &mut KeyboardBuffer) -> (c: Option<char>)
    ensures
        match c {
            Some(c) => old(buffer).waiting().len() > 0 && c == old(buffer).waiting()[0]
                && final(buffer).waiting() == old(buffer).waiting().drop_first(),
            None => old(buffer).waiting().len() == 0 && final(buffer).waiting()
                == old(buffer).waiting(),
        },
{
    let c = buffer.queue.pop_front();
    proof {
        if c is Some {
            assert(buffer.waiting() =~= old(buffer).waiting().drop_first());
        }
    }
    c
}

} // verus!
