//! Keeps asynchronous messages from cutting into a line the operator is typing:
//! while a line is being typed, messages are queued, and they are all shown in
//! order as soon as the line is finished.

use vstd::prelude::*;

verus! {

/// Whether a line is being typed, and the messages waiting for it to end.
pub struct Console {
    typing: bool,
    pending: Vec<String>,
}

impl Console {
    /// A line is being typed.
    pub closed spec fn is_typing(&self) -> bool {
        self.typing
    }

    /// The messages waiting, oldest first.
    pub closed spec fn queued(&self) -> Seq<Seq<char>> {
        self.pending@.map_values(|t: String| t@)
    }
}

/// A console on which nothing is being typed and nothing waits.
pub fn console() -> (c: Console)
    ensures
        !c.is_typing(),
        c.queued() == Seq::<Seq<char>>::empty(),
{
    let c = Console { typing: false, pending: Vec::new() };
    assert(c.queued() =~= Seq::<Seq<char>>::empty());
    c
}

/// To be called right before a line is read: from now on messages wait.
pub fn begin_typing(c: &mut Console)
    ensures
        final(c).is_typing(),
        final(c).queued() == old(c).queued(),
{
    c.typing = true;
}

/// A message to show: returned to be shown at once when no line is being typed,
/// queued (and `None` returned) otherwise.
pub fn print_or_queue(c: &mut Console, text: String) -> (now: Option<String>)
    ensures
        final(c).is_typing() == old(c).is_typing(),
        old(c).is_typing() ==> now is None && final(c).queued() == old(c).queued().push(text@),
        !old(c).is_typing() ==> now == Some(text) && final(c).queued() == old(c).queued(),
{
    if c.typing {
        let ghost before = c.pending@;
        c.pending.push(text);
        proof {
            assert(c.pending@.map_values(|t: String| t@) =~= before.map_values(|t: String| t@).push(text@));
        }
        None
    } else {
        Some(text)
    }
}

/// To be called right after the line is read: returns, oldest first, every
/// message that waited, to be shown now; nothing waits any more.
pub fn end_typing(c: &mut Console) -> (shown: Vec<String>)
    ensures
        !final(c).is_typing(),
        final(c).queued() == Seq::<Seq<char>>::empty(),
        shown@.map_values(|t: String| t@) == old(c).queued(),
{
    c.typing = false;
    let mut shown: Vec<String> = Vec::new();
    std::mem::swap(&mut shown, &mut c.pending);
    proof {
        assert(c.pending@.map_values(|t: String| t@) =~= Seq::<Seq<char>>::empty());
    }
    shown
}

/// The queue as a list: after a line is begun, messages that arrive while it is
/// typed are handed back, all of them and in order of arrival, when it ends.
pub proof fn lemma_messages_wait_for_the_line_in_order(before: Seq<Seq<char>>, arrived: Seq<Seq<char>>)
    ensures
        queue_after(before, arrived) == before + arrived,
    decreases arrived.len(),
{
    if arrived.len() > 0 {
        lemma_messages_wait_for_the_line_in_order(before, arrived.drop_last());
        assert((before + arrived.drop_last()).push(arrived.last()) =~= before + arrived);
    }
}

/// The queue after `arrived` messages are queued one by one onto `before`.
pub open spec fn queue_after(before: Seq<Seq<char>>, arrived: Seq<Seq<char>>) -> Seq<Seq<char>>
    decreases arrived.len(),
{
    if arrived.len() == 0 {
        before
    } else {
        queue_after(before, arrived.drop_last()).push(arrived.last())
    }
}

} // verus!
