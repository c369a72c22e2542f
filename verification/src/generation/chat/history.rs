use crate::generation::chat::message::{Message, MessageView};
use vstd::prelude::*;

verus! {

/// The values of a sequence of messages, in order.
pub open spec fn message_views(messages: Seq<Message>) -> Seq<MessageView> {
    messages.map_values(|m: Message| m@)
}

/// Whether `next` continues the entry `last` instead of starting a new one:
/// both have the same role and `last` is not yet complete.
pub open spec fn merges_into(last: MessageView, next: MessageView) -> bool {
    last.role == next.role && !last.done
}

/// The log after `message` has been appended: merged into the trailing entry
/// where it continues that entry, added as a new trailing entry otherwise.
pub open spec fn appended(log: Seq<MessageView>, message: MessageView) -> Seq<MessageView> {
    if log.len() > 0 && merges_into(log.last(), message) {
        log.drop_last().push(log.last().merge(message))
    } else {
        log.push(message)
    }
}

/// The log after each of `messages` has been appended in turn.
pub open spec fn appended_all(log: Seq<MessageView>, messages: Seq<MessageView>) -> Seq<
    MessageView,
>
    decreases messages.len(),
{
    if messages.len() == 0 {
        log
    } else {
        appended(appended_all(log, messages.drop_last()), messages.last())
    }
}

/// Merge law: a fragment `b` that follows an unfinished message `a` of the
/// same role is merged into the entry that `a` ended up in. The log does not
/// grow, and that entry ends with the content of `b`, holds the tool calls of
/// `b` after its own, and is done exactly if `b` is.
pub proof fn law_same_role_merges(log: Seq<MessageView>, a: MessageView, b: MessageView)
    requires
        !a.done,
        a.role == b.role,
    ensures
        appended(appended(log, a), b).len() == appended(log, a).len(),
        appended(appended(log, a), b) == appended(log, a).drop_last().push(
            appended(log, a).last().merge(b),
        ),
        appended(appended(log, a), b).last().content == appended(log, a).last().content
            + b.content,
        appended(appended(log, a), b).last().tool_calls == appended(log, a).last().tool_calls
            + b.tool_calls,
        appended(appended(log, a), b).last().done == b.done,
{
    let first = appended(log, a);
    assert(first.len() > 0 && merges_into(first.last(), b));
}

/// Merge law for a message that starts an entry: where `a` does not
/// continue the trailing entry of the log, appending the unfinished `a` and
/// then a fragment `b` of the same role yields one new entry, whose content
/// is the content of `a` followed by that of `b`, whose tool calls are those
/// of `a` followed by those of `b`, and which is done exactly if `b` is.
pub proof fn law_pair_merges_into_one_entry(log: Seq<MessageView>, a: MessageView, b: MessageView)
    requires
        !a.done,
        a.role == b.role,
        !(log.len() > 0 && merges_into(log.last(), a)),
    ensures
        appended(appended(log, a), b) == log.push(a.merge(b)),
        appended(appended(log, a), b).len() == log.len() + 1,
        appended(appended(log, a), b).last().content == a.content + b.content,
        appended(appended(log, a), b).last().done == b.done,
        appended(appended(log, a), b).last().tool_calls == a.tool_calls + b.tool_calls,
{
    let first = appended(log, a);
    assert(first.len() > 0 && merges_into(first.last(), b));
    assert(first.drop_last() =~= log);
}

/// A message whose role differs from that of the message appended before it
/// starts an entry of its own: the log grows by exactly that message.
pub proof fn law_role_change_starts_entry(log: Seq<MessageView>, a: MessageView, c: MessageView)
    requires
        a.role != c.role,
    ensures
        appended(appended(log, a), c) == appended(log, a).push(c),
        appended(appended(log, a), c).len() == appended(log, a).len() + 1,
{
}

/// A message that follows a completed one starts an entry of its own, whatever
/// its role: the log grows by exactly that message.
pub proof fn law_done_starts_entry(log: Seq<MessageView>, a: MessageView, d: MessageView)
    requires
        a.done,
    ensures
        appended(appended(log, a), d) == appended(log, a).push(d),
        appended(appended(log, a), d).len() == appended(log, a).len() + 1,
{
}

/// Merging is associative: merging `b` and then `c` into `a` gives what
/// merging `b` with `c` merged in gives.
pub proof fn law_merge_associative(a: MessageView, b: MessageView, c: MessageView)
    ensures
        a.merge(b).merge(c) == a.merge(b.merge(c)),
{
    assert(a.merge(b).merge(c).content =~= a.merge(b.merge(c)).content);
    assert(a.merge(b).merge(c).images =~= a.merge(b.merge(c)).images);
    assert(a.merge(b).merge(c).tool_calls =~= a.merge(b.merge(c)).tool_calls);
    match (a.thinking, b.thinking, c.thinking) {
        (Some(x), Some(y), Some(z)) => {
            assert((x + y) + z =~= x + (y + z));
        },
        _ => {},
    }
}

/// Reassembly law: appending an unfinished fragment `a` and then a fragment
/// `b` of the same role leaves the log as appending the one message `a` with
/// `b` merged in would.
pub proof fn law_fragments_reassemble(log: Seq<MessageView>, a: MessageView, b: MessageView)
    requires
        !a.done,
        a.role == b.role,
    ensures
        appended(appended(log, a), b) == appended(log, a.merge(b)),
{
    if log.len() > 0 && merges_into(log.last(), a) {
        law_merge_associative(log.last(), a, b);
        assert(appended(log, a).drop_last() =~= log.drop_last());
    } else {
        assert(appended(log, a).drop_last() =~= log);
    }
}

/// Appending changes no entry but the trailing one, and that one only while
/// it is not complete: every other entry, and every completed entry, is still
/// in its place afterwards.
pub proof fn law_completed_entries_are_kept(log: Seq<MessageView>, message: MessageView)
    ensures
        appended(log, message).len() >= log.len(),
        forall|i: int|
            0 <= i < log.len() && (i < log.len() - 1 || log[i].done) ==> #[trigger] appended(
                log,
                message,
            )[i] == log[i],
{
}

/// Whether every entry of the log had to be started: no entry continues the
/// one before it, that is, wherever two neighbours have the same role the
/// earlier one is complete.
pub open spec fn well_merged(log: Seq<MessageView>) -> bool {
    forall|i: int| 0 <= i < log.len() - 1 ==> !merges_into(#[trigger] log[i], log[i + 1])
}

/// Appending keeps a log well merged: an entry is started only where the
/// role changes or the entry before it is complete.
pub proof fn law_append_keeps_log_well_merged(log: Seq<MessageView>, message: MessageView)
    requires
        well_merged(log),
    ensures
        well_merged(appended(log, message)),
{
    let after = appended(log, message);
    assert forall|i: int| 0 <= i < after.len() - 1 implies !merges_into(
        #[trigger] after[i],
        after[i + 1],
    ) by {
        if i < log.len() - 1 {
            assert(after[i] == log[i]);
            assert(!merges_into(log[i], log[i + 1]));
        }
    }
}

/// A log that grew from nothing by appending is well merged.
pub proof fn law_appended_log_is_well_merged(messages: Seq<MessageView>)
    ensures
        well_merged(appended_all(Seq::empty(), messages)),
    decreases messages.len(),
{
    if messages.len() > 0 {
        law_appended_log_is_well_merged(messages.drop_last());
        law_append_keeps_log_well_merged(
            appended_all(Seq::empty(), messages.drop_last()),
            messages.last(),
        );
    }
}

/// Appending never shortens a log, however many messages are appended.
pub proof fn law_appending_never_shortens(log: Seq<MessageView>, messages: Seq<MessageView>)
    ensures
        appended_all(log, messages).len() >= log.len(),
    decreases messages.len(),
{
    if messages.len() > 0 {
        law_appending_never_shortens(log, messages.drop_last());
    }
}

/// Extending a log by one message is appending that message.
pub proof fn law_extend_by_one(log: Seq<MessageView>, message: MessageView)
    ensures
        appended_all(log, seq![message]) == appended(log, message),
{
    assert(seq![message].drop_last() =~= Seq::<MessageView>::empty());
    assert(appended_all(log, seq![message].drop_last()) == log);
}

/// Extending a log by a batch is the same as extending it by the batch's
/// parts one after the other.
pub proof fn law_extend_in_parts(
    log: Seq<MessageView>,
    first: Seq<MessageView>,
    second: Seq<MessageView>,
)
    ensures
        appended_all(log, first + second) == appended_all(appended_all(log, first), second),
    decreases second.len(),
{
    if second.len() == 0 {
        assert(first + second =~= first);
    } else {
        law_extend_in_parts(log, first, second.drop_last());
        assert((first + second).drop_last() =~= first + second.drop_last());
        assert((first + second).last() == second.last());
    }
}

/// The ordered log of a conversation. Insertion order is conversation order.
#[derive(Debug)]
pub struct History {
    messages: Vec<Message>,
}

impl View for History {
    type V = Seq<MessageView>;

    closed spec fn view(&self) -> Seq<MessageView> {
        message_views(self.messages@)
    }
}

impl Clone for History {
    fn clone(&self) -> (r: Self)
        ensures
            r@ == self@,
    {
        let r = History { messages: self.messages.clone() };
        assert(message_views(r.messages@) =~= message_views(self.messages@));
        r
    }
}

impl Default for History {
    fn default() -> (r: Self)
        ensures
            r@ == Seq::<MessageView>::empty(),
    {
        let r = History { messages: Vec::new() };
        assert(message_views(r.messages@) =~= Seq::empty());
        r
    }
}

impl History {
    /// A log that starts out with `messages`, taken as they are.
    pub fn new(messages: Vec<Message>) -> (r: Self)
        ensures
            r@ == message_views(messages@),
    {
        History { messages }
    }

    /// Empties the log.
    pub fn clear(&mut self)
        ensures
            final(self)@ == Seq::<MessageView>::empty(),
    {
        self.messages.clear();
        assert(message_views(self.messages@) =~= Seq::empty());
    }

    /// Appends one message, merging it into the trailing entry where it
    /// continues that entry. The log keeps a copy of its own.
    pub fn push(&mut self, new_message: &Message)
        ensures
            final(self)@ == appended(old(self)@, new_message@),
    {
        Self::push_with_merge(&mut self.messages, new_message);
    }

    /// Appends each of `new_messages` in order, as repeated calls of
    /// [`History::push`] would.
    pub fn extend(&mut self, new_messages: &[Message])
        ensures
            final(self)@ == appended_all(old(self)@, message_views(new_messages@)),
    {
        let n: usize = new_messages.len();
        let mut i: usize = 0;
        while i < n
            invariant
                i <= n,
                n == new_messages@.len(),
                message_views(self.messages@) == appended_all(
                    old(self)@,
                    message_views(new_messages@.take(i as int)),
                ),
            decreases n - i,
        {
            Self::push_with_merge(&mut self.messages, &new_messages[i]);
            proof {
                let done = message_views(new_messages@.take(i as int));
                let next = message_views(new_messages@.take(i + 1));
                assert(next.drop_last() =~= done);
                assert(next.last() == new_messages@[i as int]@);
            }
            i = i + 1;
        }
        assert(new_messages@.take(n as int) =~= new_messages@);
    }

    fn push_with_merge(messages: &mut Vec<Message>, new_message: &Message)
        ensures
            message_views(final(messages)@) == appended(
                message_views(old(messages)@),
                new_message@,
            ),
    {
        let n: usize = messages.len();
        if n > 0 && !messages[n - 1].done && messages[n - 1].role == new_message.role {
            let last = &mut messages[n - 1];
            last.merge_from(new_message);
            assert(message_views(messages@) =~= message_views(old(messages)@).drop_last().push(
                message_views(old(messages)@).last().merge(new_message@),
            ));
        } else {
            messages.push(new_message.clone());
            assert(message_views(messages@) =~= message_views(old(messages)@).push(new_message@));
        }
    }

    /// A copy of every message of the log, in order.
    pub fn messages(&self) -> (r: Vec<Message>)
        ensures
            message_views(r@) == self@,
    {
        let r = self.messages.clone();
        assert(message_views(r@) =~= message_views(self.messages@));
        r
    }

    /// Direct access to the stored messages.
    pub fn messages_mut(&mut self) -> (r: &mut Vec<Message>)
        ensures
            message_views(r@) == old(self)@,
            final(self)@ == message_views(final(r)@),
    {
        &mut self.messages
    }

    /// A copy of the trailing entry, if there is one.
    pub fn last(&self) -> (r: Option<Message>)
        ensures
            self@.len() == 0 <==> r is None,
            r matches Some(m) ==> m@ == self@.last(),
    {
        let n: usize = self.messages.len();
        if n == 0 {
            None
        } else {
            Some(self.messages[n - 1].clone())
        }
    }
}

} // verus!
