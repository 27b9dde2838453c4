use std::sync::Arc;

use vstd::prelude::*;

use super::ClientId;
use crate::qos::QualityOfService;
use crate::util::copy_bytes;

verus! {

/// `Arc::clone`: another handle to the same shared value.
#[verifier::external_body]
pub(crate) fn share<T>(a: &Arc<T>) -> (res: Arc<T>)
    ensures
        res == *a,
{
    Arc::clone(a)
}

/// What a message is, as plain values: its author, payload, topic, retain
/// flag and delivery level (0, 1 or 2), in this order.
pub type MessageView = (Seq<char>, Seq<u8>, Seq<char>, bool, u8);

/// The last will a client left when connecting: the message published on its
/// behalf when it goes away without saying goodbye.
#[derive(Debug, Clone)]
pub struct LastWill {
    pub topic: String,
    pub payload: Vec<u8>,
    pub qos: QualityOfService,
    pub retain: bool,
}

/// An application message travelling through the server.
#[derive(Debug, Clone)]
pub struct MqttMessage {
    author_id: Arc<ClientId>,
    payload: Vec<u8>,
    topic: String,
    retain: bool,
    qos: QualityOfService,
}

impl View for MqttMessage {
    type V = MessageView;

    closed spec fn view(&self) -> MessageView {
        ((*self.author_id)@, self.payload@, self.topic@, self.retain, self.qos.level())
    }
}

impl MqttMessage {
    /// A message published by `author_id`.
    pub fn new(
        author_id: Arc<ClientId>,
        payload: Vec<u8>,
        topic: String,
        retain: bool,
        qos: QualityOfService,
    ) -> (res: MqttMessage)
        ensures
            res@ == ((*author_id)@, payload@, topic@, retain, qos.level()),
    {
        MqttMessage { author_id, payload, topic, retain, qos }
    }

    /// The message that publishes the last will of `author_id`.
    pub fn from_last_will(will: &LastWill, author_id: Arc<ClientId>) -> (res: MqttMessage)
        ensures
            res@ == ((*author_id)@, will.payload@, will.topic@, will.retain, will.qos.level()),
    {
        MqttMessage {
            topic: will.topic.clone(),
            payload: copy_bytes(will.payload.as_slice()),
            qos: will.qos,
            retain: will.retain,
            author_id,
        }
    }

    /// The delivery level the message travels with.
    pub fn qos(&self) -> (res: QualityOfService)
        ensures
            res.level() == self@.4,
    {
        self.qos
    }

    /// Whether the message is to be retained.
    pub fn retain(&self) -> (res: bool)
        ensures
            res == self@.3,
    {
        self.retain
    }

    /// The payload bytes.
    pub fn payload(&self) -> (res: &[u8])
        ensures
            res@ == self@.1,
    {
        self.payload.as_slice()
    }

    /// The topic the message was published to.
    pub fn topic(&self) -> (res: &str)
        ensures
            res@ == self@.2,
    {
        self.topic.as_str()
    }

    /// The client that published the message.
    pub fn author_id(&self) -> (res: &ClientId)
        ensures
            res@ == self@.0,
    {
        &*self.author_id
    }

    /// Changes the delivery level; nothing else changes.
    pub fn set_qos(&mut self, qos: QualityOfService)
        ensures
            final(self)@ == (old(self)@.0, old(self)@.1, old(self)@.2, old(self)@.3, qos.level()),
    {
        self.qos = qos;
    }

    /// A copy of this message, sharing its author.
    pub fn duplicate(&self) -> (res: MqttMessage)
        ensures
            res@ == self@,
    {
        MqttMessage {
            author_id: share(&self.author_id),
            payload: copy_bytes(self.payload.as_slice()),
            topic: self.topic.clone(),
            retain: self.retain,
            qos: self.qos,
        }
    }
}

} // verus!
