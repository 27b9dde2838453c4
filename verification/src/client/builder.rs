//! Choosing the handlers a client calls before building it.

use vstd::prelude::*;

verus! {

/// The handlers a client calls: with every packet received, with every
/// PUBLISH received, and with every acknowledgement of a level-1 publish.
pub struct ClientHandlers<P, U, A> {
    pub on_packet_recv: P,
    pub on_publish_recv: U,
    pub on_qos1_acknowledge: A,
}

/// Builds a client: each handler can be replaced before building.
pub struct MqttClientBuilder<P, U, A> {
    handlers: ClientHandlers<P, U, A>,
}

impl<P, U, A> MqttClientBuilder<P, U, A> {
    /// The handlers chosen so far.
    pub closed spec fn chosen(&self) -> ClientHandlers<P, U, A> {
        self.handlers
    }

    /// A builder starting from the given handlers.
    pub fn new(handlers: ClientHandlers<P, U, A>) -> (res: MqttClientBuilder<P, U, A>)
        ensures
            res.chosen() == handlers,
    {
        MqttClientBuilder { handlers }
    }

    /// Replaces the handler called with every packet received.
    pub fn with_on_packet_recv<N>(self, f: N) -> (res: MqttClientBuilder<N, U, A>)
        ensures
            res.chosen().on_packet_recv == f,
            res.chosen().on_publish_recv == self.chosen().on_publish_recv,
            res.chosen().on_qos1_acknowledge == self.chosen().on_qos1_acknowledge,
    {
        let ClientHandlers { on_packet_recv: _, on_publish_recv, on_qos1_acknowledge } = self.handlers;
        MqttClientBuilder { handlers: ClientHandlers { on_packet_recv: f, on_publish_recv, on_qos1_acknowledge } }
    }

    /// Replaces the handler called with every PUBLISH received.
    pub fn with_on_publish_recv<N>(self, f: N) -> (res: MqttClientBuilder<P, N, A>)
        ensures
            res.chosen().on_packet_recv == self.chosen().on_packet_recv,
            res.chosen().on_publish_recv == f,
            res.chosen().on_qos1_acknowledge == self.chosen().on_qos1_acknowledge,
    {
        let ClientHandlers { on_packet_recv, on_publish_recv: _, on_qos1_acknowledge } = self.handlers;
        MqttClientBuilder { handlers: ClientHandlers { on_packet_recv, on_publish_recv: f, on_qos1_acknowledge } }
    }

    /// Replaces the handler called with every acknowledgement of a level-1 publish.
    pub fn with_handle_qos1_acknowledge<N>(self, f: N) -> (res: MqttClientBuilder<P, U, N>)
        ensures
            res.chosen().on_packet_recv == self.chosen().on_packet_recv,
            res.chosen().on_publish_recv == self.chosen().on_publish_recv,
            res.chosen().on_qos1_acknowledge == f,
    {
        let ClientHandlers { on_packet_recv, on_publish_recv, on_qos1_acknowledge: _ } = self.handlers;
        MqttClientBuilder { handlers: ClientHandlers { on_packet_recv, on_publish_recv, on_qos1_acknowledge: f } }
    }

    /// The handlers chosen, for building the client.
    pub fn into_handlers(self) -> (res: ClientHandlers<P, U, A>)
        ensures
            res == self.chosen(),
    {
        self.handlers
    }
}

} // verus!
