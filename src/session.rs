use vstd::prelude::*;

use crate::game::{spec_validate, Game, Mode, State};
use crate::network::{Message, MessageType, NetState};
use crate::state_codec::{decode_state, encode_state, FormatError};

verus! {

/// The answer to a state proposed by the peer: `Accepted` when it was adopted.
pub open spec fn reply_to(adopted: bool) -> (MessageType, u16, Seq<u8>) {
    (
        if adopted {
            MessageType::Accepted
        } else {
            MessageType::Rejected
        },
        0u16,
        Seq::<u8>::empty(),
    )
}

impl Game {
    /// Reacts to one message from the peer. `Accepted` puts this side to waiting and
    /// `Rejected` lets it send again. A payload carries the peer's state: one that is
    /// not ahead of the local round is ignored; otherwise it is validated, adopted if
    /// valid, and answered with `Accepted` or `Rejected`, and this side may send again.
    /// A payload that is not a state is an error and changes nothing.
    pub fn on_message(&mut self, msg: &Message) -> (r: Result<Option<Message>, FormatError>)
        requires
            old(self).state.wf(),
        ensures
            final(self).state.wf(),
            msg.message_type == MessageType::Accepted ==> r == Ok::<
                Option<Message>,
                FormatError,
            >(None) && *final(self) == (Game { net_state: NetState::Waiting, ..*old(self) }),
            msg.message_type == MessageType::Rejected ==> r == Ok::<
                Option<Message>,
                FormatError,
            >(None) && *final(self) == (Game { net_state: NetState::Active, ..*old(self) }),
            msg.message_type == MessageType::Handshake || msg.message_type
                == MessageType::HandshakeAck ==> r == Ok::<Option<Message>, FormatError>(None)
                && *final(self) == *old(self),
            msg.message_type == MessageType::Payload ==> match decode_state(msg.payload@) {
                Err(e) => r == Err::<Option<Message>, FormatError>(e) && *final(self) == *old(
                    self,
                ),
                Ok(s) => if s.round > old(self).state.round {
                    let valid = spec_validate(old(self).state, s, old(self).player.spec_toggle())
                        is Ok;
                    &&& r matches Ok(Some(m)) && m@ == reply_to(valid) && m.wf()
                    &&& *final(self) == (Game {
                        state: if valid {
                            s
                        } else {
                            old(self).state
                        },
                        net_state: NetState::Active,
                        ..*old(self)
                    })
                } else {
                    r == Ok::<Option<Message>, FormatError>(None) && *final(self) == *old(self)
                },
            },
    {
        match msg.message_type {
            MessageType::Accepted => {
                self.net_state = NetState::Waiting;
                Ok(None)
            },
            MessageType::Rejected => {
                self.net_state = NetState::Active;
                Ok(None)
            },
            MessageType::Payload => {
                let received = match State::try_from(msg.payload.as_slice()) {
                    Ok(s) => s,
                    Err(e) => return Err(e),
                };
                if received.round > self.state.round {
                    let reply = match self.validate(received) {
                        Ok(()) => MessageType::Accepted,
                        Err(_) => MessageType::Rejected,
                    };
                    self.net_state = NetState::Active;
                    Ok(Some(Message::signal(reply)))
                } else {
                    Ok(None)
                }
            },
            MessageType::Handshake | MessageType::HandshakeAck => Ok(None),
        }
    }

    /// The message that carries the local state to the peer, when this is a network
    /// match and this side may send.
    pub fn outgoing_state(&self) -> (r: Option<Message>)
        ensures
            r is Some <==> self.mode == Mode::Network && self.net_state == NetState::Active,
            r matches Some(m) ==> m@ == (MessageType::Payload, 11u16, encode_state(self.state))
                && m.wf(),
    {
        if self.mode == Mode::Network && self.net_state == NetState::Active {
            Some(Message::with_payload(self.state.to_bytes()))
        } else {
            None
        }
    }
}

} // verus!
