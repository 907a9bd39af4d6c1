use vstd::prelude::*;
use vstd::string::StringExecFns;

verus! {

/// How a notification is presented.
#[derive(Clone, Copy, Debug, PartialEq, Eq, Structural)]
pub enum MessageSeverity {
    Info,
    Warn,
    Error,
}

/// The style classes of a notification of the given severity.
pub fn severity_class(severity: MessageSeverity) -> (r: &'static str)
    ensures
        severity == MessageSeverity::Info ==> r@ == "bg-blue-100 text-blue-800"@,
        severity == MessageSeverity::Warn ==> r@ == "bg-yellow-100 text-yellow-800"@,
        severity == MessageSeverity::Error ==> r@ == "bg-red-100 text-red-800"@,
{
    match severity {
        MessageSeverity::Info => "bg-blue-100 text-blue-800",
        MessageSeverity::Warn => "bg-yellow-100 text-yellow-800",
        MessageSeverity::Error => "bg-red-100 text-red-800",
    }
}

/// One notification in the banner.
#[derive(Debug)]
pub struct Message {
    pub id: u32,
    pub text: String,
    pub severity: MessageSeverity,
}

/// A notification as plain values: id, text, severity.
pub type MessageView = (u32, Seq<char>, MessageSeverity);

pub open spec fn message_view(m: Message) -> MessageView {
    (m.id, m.text@, m.severity)
}

/// Whether a notification is kept when `id` is dismissed.
pub open spec fn kept(id: u32) -> spec_fn(MessageView) -> bool {
    |m: MessageView| m.0 != id
}

/// The notifications shown to the user, with fresh ids for new ones.
pub struct MessageContext {
    messages: Vec<Message>,
    next_id: u32,
}

impl MessageContext {
    pub closed spec fn view(&self) -> Seq<MessageView> {
        self.messages@.map_values(|m: Message| message_view(m))
    }

    pub closed spec fn spec_next_id(&self) -> u32 {
        self.next_id
    }

    /// The context a session starts with: a welcome, a notice that features are under
    /// development, and a connection warning; the next id is 3.
    pub fn new() -> (r: Self)
        ensures
            r@ == seq![
                (0u32, "Welcome to Proof of Tests!"@, MessageSeverity::Info),
                (1u32, "Some features may be under development"@, MessageSeverity::Warn),
                (2u32, "Unable to connect to server"@, MessageSeverity::Error),
            ],
            r.spec_next_id() == 3,
    {
        let mut messages: Vec<Message> = Vec::new();
        messages.push(
            Message {
                id: 0,
                text: String::from_str("Welcome to Proof of Tests!"),
                severity: MessageSeverity::Info,
            },
        );
        messages.push(
            Message {
                id: 1,
                text: String::from_str("Some features may be under development"),
                severity: MessageSeverity::Warn,
            },
        );
        messages.push(
            Message {
                id: 2,
                text: String::from_str("Unable to connect to server"),
                severity: MessageSeverity::Error,
            },
        );
        let r = MessageContext { messages, next_id: 3 };
        assert(r@ =~= seq![
            (0u32, "Welcome to Proof of Tests!"@, MessageSeverity::Info),
            (1u32, "Some features may be under development"@, MessageSeverity::Warn),
            (2u32, "Unable to connect to server"@, MessageSeverity::Error),
        ]);
        r
    }

    /// The notifications, oldest first.
    pub fn messages(&self) -> (r: &Vec<Message>)
        ensures
            r@.map_values(|m: Message| message_view(m)) == self@,
    {
        &self.messages
    }

    /// Appends a notification under the next id.
    pub fn add(&mut self, text: String, severity: MessageSeverity)
        requires
            old(self).spec_next_id() < u32::MAX,
        ensures
            final(self)@ == old(self)@.push((old(self).spec_next_id(), text@, severity)),
            final(self).spec_next_id() == old(self).spec_next_id() + 1,
    {
        let id = self.next_id;
        self.next_id = id + 1;
        let ghost t = text@;
        self.messages.push(Message { id, text, severity });
        assert(self@ =~= old(self)@.push((id, t, severity)));
    }

    /// Dismisses every notification with the given id.
    pub fn remove(&mut self, id: u32)
        ensures
            final(self)@ == old(self)@.filter(kept(id)),
            final(self).spec_next_id() == old(self).spec_next_id(),
    {
        let ghost orig = self@;
        let ghost mut j: int = 0;
        let mut i: usize = 0;
        while i < self.messages.len()
            invariant
                0 <= i <= j <= orig.len(),
                self.next_id == old(self).next_id,
                orig == old(self)@,
                self@.len() == i + (orig.len() - j),
                self@.subrange(0, i as int) == orig.subrange(0, j).filter(kept(id)),
                self@.subrange(i as int, self@.len() as int) == orig.subrange(j, orig.len() as int),
            decreases self.messages@.len() - i,
        {
            let ghost before = self@;
            proof {
                assert(orig.subrange(0, j + 1).drop_last() =~= orig.subrange(0, j));
                reveal(Seq::filter);
                assert(before[i as int] == orig.subrange(j, orig.len() as int)[0]);
            }
            if self.messages[i].id == id {
                let _ = self.messages.remove(i);
                proof {
                    assert(self@ =~= before.remove(i as int));
                    assert forall|k: int| 0 <= k < self@.len() - i implies self@.subrange(
                        i as int,
                        self@.len() as int,
                    )[k] == orig.subrange(j + 1, orig.len() as int)[k] by {
                        assert(before.subrange(i as int, before.len() as int)[k + 1] == orig.subrange(
                            j,
                            orig.len() as int,
                        )[k + 1]);
                    }
                    assert(self@.subrange(0, i as int) =~= before.subrange(0, i as int));
                    assert(self@.subrange(i as int, self@.len() as int) =~= orig.subrange(
                        j + 1,
                        orig.len() as int,
                    ));
                    j = j + 1;
                }
            } else {
                i = i + 1;
                proof {
                    assert forall|k: int| 0 <= k < self@.len() - i implies self@.subrange(
                        i as int,
                        self@.len() as int,
                    )[k] == orig.subrange(j + 1, orig.len() as int)[k] by {
                        assert(before.subrange(i - 1, before.len() as int)[k + 1] == orig.subrange(
                            j,
                            orig.len() as int,
                        )[k + 1]);
                    }
                    assert(self@.subrange(0, i as int) =~= before.subrange(0, i - 1).push(
                        before[i - 1],
                    ));
                    assert(self@.subrange(i as int, self@.len() as int) =~= orig.subrange(
                        j + 1,
                        orig.len() as int,
                    ));
                    j = j + 1;
                }
            }
        }
        proof {
            assert(j == orig.len());
            assert(orig.subrange(0, j) =~= orig);
            assert(self@ =~= self@.subrange(0, i as int));
        }
    }
}

} // verus!
