use vstd::prelude::*;
use crate::network::{Message, MessageType, Pos};

verus! {

/// The pointer positions a game session tracks: this player's, the other
/// player's, and whether the other player's has come through an exchange
/// of positions yet.
pub struct PointerState {
    own_pointer_pos: Pos,
    remote_pointer_pos: Pos,
    has_remote: bool,
}

/// The position carried by a message.
pub open spec fn message_pos(m: Message) -> Pos {
    match m.content {
        MessageType::MousePosition(p) => p,
    }
}

/// The other player's position after the messages `ms`, starting from
/// `remote`: that of the last message, or `remote` when there is none.
pub open spec fn after_messages(remote: Pos, ms: Seq<Message>) -> Pos {
    if ms.len() == 0 {
        remote
    } else {
        message_pos(ms.last())
    }
}

impl PointerState {
    pub closed spec fn own(&self) -> Pos {
        self.own_pointer_pos
    }

    pub closed spec fn remote(&self) -> Pos {
        self.remote_pointer_pos
    }

    pub closed spec fn remote_known(&self) -> bool {
        self.has_remote
    }

    /// Both positions at the origin (`0.0`, whose bits are all zero), and
    /// none received yet.
    pub fn new() -> (s: PointerState)
        ensures
            s.own() == (Pos { x: 0, y: 0 }),
            s.remote() == (Pos { x: 0, y: 0 }),
            !s.remote_known(),
    {
        PointerState {
            own_pointer_pos: Pos { x: 0, y: 0 },
            remote_pointer_pos: Pos { x: 0, y: 0 },
            has_remote: false,
        }
    }

    pub fn get_own_pos(&self) -> (p: Pos)
        ensures
            p == self.own(),
    {
        self.own_pointer_pos
    }

    pub fn get_remote_pos(&self) -> (p: Pos)
        ensures
            p == self.remote(),
    {
        self.remote_pointer_pos
    }

    /// Records this player's new pointer position and returns the message
    /// content that announces it to the other player.
    pub fn update_pointer_pos(&mut self, pos: Pos) -> (m: MessageType)
        ensures
            m == MessageType::MousePosition(pos),
            final(self).own() == pos,
            final(self).remote() == old(self).remote(),
            final(self).remote_known() == old(self).remote_known(),
    {
        self.own_pointer_pos = pos;
        MessageType::MousePosition(pos)
    }

    /// Takes the messages the other player sent, in order: the last one
    /// gives its position. Whether a position is known does not change.
    pub fn apply_updates(&mut self, updates: &Vec<Message>)
        ensures
            final(self).remote() == after_messages(old(self).remote(), updates@),
            final(self).own() == old(self).own(),
            final(self).remote_known() == old(self).remote_known(),
    {
        let mut i: usize = 0;
        while i < updates.len()
            invariant
                i <= updates.len(),
                self.own() == old(self).own(),
                self.remote_known() == old(self).remote_known(),
                self.remote() == after_messages(old(self).remote(), updates@.take(i as int)),
            decreases updates.len() - i,
        {
            match updates[i].content {
                MessageType::MousePosition(pos) => {
                    self.remote_pointer_pos = pos;
                },
            }
            i = i + 1;
        }
        assert(updates@.take(i as int) == updates@);
    }

    /// Takes the result of a position exchange and returns the position that
    /// the scene's colour follows: a new position from the other player
    /// becomes theirs, known from now on, and is returned; without one, the
    /// other player's last position is returned if one is known, this
    /// player's otherwise.
    pub fn absorb_exchange(&mut self, received: Option<Pos>) -> (shown: Pos)
        ensures
            final(self).own() == old(self).own(),
            match received {
                Some(p) => {
                    &&& shown == p
                    &&& final(self).remote() == p
                    &&& final(self).remote_known()
                },
                None => {
                    &&& shown == if old(self).remote_known() {
                        old(self).remote()
                    } else {
                        old(self).own()
                    }
                    &&& final(self).remote() == old(self).remote()
                    &&& final(self).remote_known() == old(self).remote_known()
                },
            },
    {
        match received {
            None => if self.has_remote {
                self.remote_pointer_pos
            } else {
                self.own_pointer_pos
            },
            Some(p) => {
                self.remote_pointer_pos = p;
                self.has_remote = true;
                p
            },
        }
    }
}


/// Applying messages leaves the other player's position as it was when there
/// are none, and otherwise sets it to the position that the last message
/// carries, however many came before it.
pub proof fn lemma_last_message_wins(remote: Pos, ms: Seq<Message>, m: Message)
    ensures
        after_messages(remote, Seq::<Message>::empty()) == remote,
        m.content == MessageType::MousePosition(after_messages(remote, ms.push(m))),
{
    match m.content {
        MessageType::MousePosition(p) => {},
    }
}

} // verus!
