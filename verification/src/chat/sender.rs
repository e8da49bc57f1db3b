//! The sending side of a channel: it turns what the user types into signed
//! bytes to broadcast, under the nickname that is current at that moment.

use crate::chat::message::{
    verify_and_decode_spec, Message, MessageError, MessageView, SignedMessage,
};
use crate::identity::{spec_public_key, SecretKey};
use vstd::prelude::*;

verus! {

/// The author of outgoing messages: a secret key and the current nickname.
pub struct ChatSender {
    nickname: String,
    secret_key: SecretKey,
}

impl ChatSender {
    /// The nickname that outgoing messages carry.
    pub closed spec fn nickname(&self) -> Seq<char> {
        self.nickname@
    }

    /// The secret key that outgoing messages are signed with.
    pub closed spec fn secret(&self) -> Seq<u8> {
        self.secret_key@
    }

    /// A sender that signs with `secret_key` and goes by `nickname`.
    pub fn new(nickname: String, secret_key: SecretKey) -> (sender: ChatSender)
        ensures
            sender.nickname() == nickname@,
            sender.secret() == secret_key@,
    {
        ChatSender { nickname, secret_key }
    }

    /// The bytes to broadcast for the chat message `text`. This never fails.
    ///
    /// A receiver decodes them to a chat message with this text and the
    /// current nickname, from the public key of this sender.
    pub fn send(&self, text: String) -> (r: Result<Vec<u8>, MessageError>)
        ensures
            r matches Ok(bytes) && verify_and_decode_spec(bytes@) matches Ok(received)
                && received.from == spec_public_key(self.secret()) && received.message == (
            MessageView::Message { text: text@, nickname: self.nickname() }),
    {
        let nickname = self.nickname.clone();
        let message = Message::Message { text, nickname };
        SignedMessage::sign_and_encode(&self.secret_key, message)
    }

    /// The bytes to broadcast as a sign of life. This never fails.
    ///
    /// A receiver decodes them to a presence message with the current
    /// nickname, from the public key of this sender.
    pub fn presence(&self) -> (r: Result<Vec<u8>, MessageError>)
        ensures
            r matches Ok(bytes) && verify_and_decode_spec(bytes@) matches Ok(received)
                && received.from == spec_public_key(self.secret()) && received.message == (
            MessageView::Presence { nickname: self.nickname() }),
    {
        let nickname = self.nickname.clone();
        let message = Message::Presence { nickname };
        SignedMessage::sign_and_encode(&self.secret_key, message)
    }

    /// Changes the nickname. The next message carries the new one; the
    /// caller triggers a presence message so that the others learn of it.
    pub fn set_nickname(&mut self, name: String)
        ensures
            final(self).nickname() == name@,
            final(self).secret() == old(self).secret(),
    {
        self.nickname = name;
    }
}

} // verus!
