//! The router: what the server sends, and to whom, for each inbound item.
//!
//! Items from all connections are handled one at a time, in the order they
//! arrive. Each item yields a short list of deliveries, addressed by client
//! id, which the caller enqueues, in order, on those clients' mailboxes.

use vstd::prelude::*;
use vstd::string::*;

use crate::message::{
    ClientMessage, ContentView, MessageReply, MessageReplyView, Ping, Pong, ServerMessage,
    ServerMessageView,
};
use crate::payload::Error;
use crate::reader::Either;
use crate::registry::Registry;

verus! {

/// An inbound item: what a connected client's next frame turned out to be.
pub struct Item {
    /// The id of the client it came from.
    pub client: String,
    pub message: Result<Either<ClientMessage, Ping>, Error>,
}

impl Item {
    pub fn new(client: String, message: Result<Either<ClientMessage, Ping>, Error>) -> (r: Self)
        ensures
            r.client == client,
            r.message == message,
    {
        Item { client, message }
    }
}

/// A message the server sends.
pub enum Outgoing {
    Reply(MessageReply),
    Message(ServerMessage),
    Pong(Pong),
}

/// A message and the id of the client it goes to.
pub struct Delivery {
    pub to: String,
    pub message: Outgoing,
}

pub enum InboundView {
    Message { content: ContentView, receiver: Seq<char> },
    Ping,
    /// A frame that could not be read, with the description of why.
    Failed(Seq<char>),
}

pub struct ItemView {
    pub client: Seq<char>,
    pub message: InboundView,
}

pub enum OutgoingView {
    Reply(MessageReplyView),
    Message(ServerMessageView),
    Pong,
}

pub struct DeliveryView {
    pub to: Seq<char>,
    pub message: OutgoingView,
}

impl View for Item {
    type V = ItemView;

    open spec fn view(&self) -> ItemView {
        ItemView {
            client: self.client@,
            message: match self.message {
                Ok(Either::Left(m)) => InboundView::Message { content: m.content@, receiver: m.receiver@ },
                Ok(Either::Right(_)) => InboundView::Ping,
                Err(e) => InboundView::Failed(e.spec_describe()),
            },
        }
    }
}

impl View for Outgoing {
    type V = OutgoingView;

    open spec fn view(&self) -> OutgoingView {
        match self {
            Outgoing::Reply(r) => OutgoingView::Reply(r@),
            Outgoing::Message(m) => OutgoingView::Message(m@),
            Outgoing::Pong(_) => OutgoingView::Pong,
        }
    }
}

impl View for Delivery {
    type V = DeliveryView;

    open spec fn view(&self) -> DeliveryView {
        DeliveryView { to: self.to@, message: self.message@ }
    }
}

pub open spec fn reply_view(success: bool, message: Option<Seq<char>>) -> OutgoingView {
    OutgoingView::Reply(MessageReplyView { success, message, extra: None })
}

/// The deliveries for one item, given the ids registered when it is handled.
///
/// A failed read is answered with a failed reply that describes it; a ping
/// with one pong; a message to a registered receiver with a success reply to
/// the sender and then the delivered message to the sender and to the
/// receiver; a message to anyone else with a failed reply.
pub open spec fn routed(item: ItemView, registered: Set<Seq<char>>) -> Seq<DeliveryView> {
    match item.message {
        InboundView::Failed(text) => seq![
            DeliveryView { to: item.client, message: reply_view(false, Some(text)) },
        ],
        InboundView::Ping => seq![DeliveryView { to: item.client, message: OutgoingView::Pong }],
        InboundView::Message { content, receiver } => {
            if registered.contains(receiver) {
                let m = OutgoingView::Message(
                    ServerMessageView { content, sender: item.client, receiver },
                );
                seq![
                    DeliveryView { to: item.client, message: reply_view(true, None) },
                    DeliveryView { to: item.client, message: m },
                    DeliveryView { to: receiver, message: m },
                ]
            } else {
                seq![
                    DeliveryView {
                        to: item.client,
                        message: reply_view(false, Some("Receiver not found"@)),
                    },
                ]
            }
        },
    }
}

pub open spec fn deliveries_view(ds: Seq<Delivery>) -> Seq<DeliveryView> {
    ds.map_values(|d: Delivery| d@)
}

/// Handles one inbound item against the registry as it stands.
pub fn handle_item<H>(registry: &Registry<H>, item: Item) -> (r: Vec<Delivery>)
    requires
        registry.wf(),
    ensures
        deliveries_view(r@) == routed(item@, registry@.dom()),
        r@.len() == routed(item@, registry@.dom()).len(),
        forall|i: int| 0 <= i < r@.len() ==> #[trigger] r@[i]@ == routed(item@, registry@.dom())[i],
{
    let ghost iv = item@;
    let client = item.client;
    let mut out: Vec<Delivery> = Vec::new();
    match item.message {
        Ok(Either::Left(message)) => handle_message(message, client, registry, &mut out),
        Ok(Either::Right(_)) => out.push(Delivery { to: client, message: Outgoing::Pong(Pong::new()) }),
        Err(e) => {
            let reply = MessageReply::error(&e);
            out.push(Delivery { to: client, message: Outgoing::Reply(reply) });
        },
    }
    proof {
        assert(deliveries_view(out@) =~= routed(iv, registry@.dom()));
        assert(deliveries_view(out@).len() == out@.len());
        assert forall|i: int| 0 <= i < out@.len() implies #[trigger] out@[i]@ == routed(iv, registry@.dom())[i] by {
            assert(deliveries_view(out@)[i] == out@[i]@);
        }
    }
    out
}

/// Routes a message submitted by `sender`, appending its deliveries to `out`;
/// the registry is only read.
pub fn handle_message<H>(message: ClientMessage, sender: String, registry: &Registry<H>, out: &mut Vec<Delivery>)
    requires
        registry.wf(),
    ensures
        deliveries_view(final(out)@) == deliveries_view(old(out)@) + routed(
            ItemView {
                client: sender@,
                message: InboundView::Message { content: message.content@, receiver: message.receiver@ },
            },
            registry@.dom(),
        ),
{
    if registry.contains_key(&message.receiver) {
        let ClientMessage { content, receiver } = message;
        out.push(Delivery { to: sender.clone(), message: Outgoing::Reply(MessageReply::success(None)) });
        let m = ServerMessage::new(content, sender.clone(), receiver.clone());
        out.push(Delivery { to: sender, message: Outgoing::Message(m.duplicate()) });
        out.push(Delivery { to: receiver, message: Outgoing::Message(m) });
    } else {
        let reply = MessageReply::failed(Some(String::from_str("Receiver not found")));
        out.push(Delivery { to: sender, message: Outgoing::Reply(reply) });
    }
    proof {
        assert(deliveries_view(out@) =~= deliveries_view(old(out)@) + routed(
            ItemView {
                client: sender@,
                message: InboundView::Message { content: message.content@, receiver: message.receiver@ },
            },
            registry@.dom(),
        ));
    }
}

/// What the client `uid` receives, in order, from a log of deliveries.
pub open spec fn inbox(log: Seq<DeliveryView>, uid: Seq<char>) -> Seq<OutgoingView>
    decreases log.len(),
{
    if log.len() == 0 {
        Seq::empty()
    } else if log.last().to == uid {
        inbox(log.drop_last(), uid).push(log.last().message)
    } else {
        inbox(log.drop_last(), uid)
    }
}

proof fn lemma_inbox_concat(a: Seq<DeliveryView>, b: Seq<DeliveryView>, uid: Seq<char>)
    ensures
        inbox(a + b, uid) == inbox(a, uid) + inbox(b, uid),
    decreases b.len(),
{
    if b.len() == 0 {
        assert(a + b =~= a);
        assert(inbox(a, uid) + inbox(b, uid) =~= inbox(a, uid));
    } else {
        assert((a + b).drop_last() =~= a + b.drop_last());
        lemma_inbox_concat(a, b.drop_last(), uid);
        if b.last().to == uid {
            assert(inbox(a, uid) + inbox(b.drop_last(), uid).push(b.last().message)
                =~= (inbox(a, uid) + inbox(b.drop_last(), uid)).push(b.last().message));
        }
    }
}

/// Only the sender of an item, and the receiver it names, hear of it: a
/// ping or a failed read reaches the sender alone, with exactly one message
/// (a pong, or a failed reply); a message to an unregistered receiver reaches
/// the sender alone, with a failed reply; a message to a registered receiver
/// reaches the receiver exactly once, with the message as sent.
pub proof fn lemma_routing_targets(item: ItemView, registered: Set<Seq<char>>, other: Seq<char>)
    requires
        other != item.client,
    ensures
        routed(item, registered).len() >= 1,
        forall|i: int| 0 <= i < routed(item, registered).len() ==> {
            ||| (#[trigger] routed(item, registered)[i]).to == item.client
            ||| (item.message is Message && registered.contains(item.message->receiver)
                && routed(item, registered)[i].to == item.message->receiver)
        },
        item.message is Ping ==> inbox(routed(item, registered), item.client) == seq![OutgoingView::Pong]
            && inbox(routed(item, registered), other) == Seq::<OutgoingView>::empty(),
        item.message is Failed ==> inbox(routed(item, registered), other) == Seq::<OutgoingView>::empty(),
        (item.message is Message && !registered.contains(item.message->receiver)) ==> inbox(routed(item, registered), other) == Seq::<OutgoingView>::empty(),
        (item.message is Message && registered.contains(item.message->receiver)
            && other == item.message->receiver) ==> inbox(routed(item, registered), other) == seq![
                OutgoingView::Message(
                    ServerMessageView {
                        content: item.message->content,
                        sender: item.client,
                        receiver: item.message->receiver,
                    },
                ),
            ],
{
    let log = routed(item, registered);
    reveal_with_fuel(inbox, 4);
    assert(log.len() == 1 ==> log.drop_last() =~= Seq::<DeliveryView>::empty());
    if log.len() == 3 {
        assert(log.drop_last().drop_last().drop_last() =~= Seq::<DeliveryView>::empty());
    }
}

/// Ordering: when one client sends a message and then another to the same
/// registered receiver, the receiver gets them in that order. Should the
/// receiver be the sender itself, it also gets the replies, each before its
/// message.
pub proof fn lemma_in_order(
    first: ItemView,
    second: ItemView,
    registered_first: Set<Seq<char>>,
    registered_second: Set<Seq<char>>,
)
    requires
        first.client == second.client,
        first.message is Message,
        second.message is Message,
        first.message->receiver == second.message->receiver,
        registered_first.contains(first.message->receiver),
        registered_second.contains(second.message->receiver),
    ensures
        ({
            let receiver = first.message->receiver;
            let m1 = OutgoingView::Message(
                ServerMessageView { content: first.message->content, sender: first.client, receiver },
            );
            let m2 = OutgoingView::Message(
                ServerMessageView { content: second.message->content, sender: first.client, receiver },
            );
            let log = routed(first, registered_first) + routed(second, registered_second);
            &&& receiver != first.client ==> inbox(log, receiver) == seq![m1, m2]
            &&& receiver == first.client ==> inbox(log, receiver) == seq![
                reply_view(true, None),
                m1,
                m1,
                reply_view(true, None),
                m2,
                m2,
            ]
        }),
{
    let receiver = first.message->receiver;
    let a = routed(first, registered_first);
    let b = routed(second, registered_second);
    lemma_inbox_concat(a, b, receiver);
    reveal_with_fuel(inbox, 4);
    assert(a.drop_last().drop_last().drop_last() =~= Seq::<DeliveryView>::empty());
    assert(b.drop_last().drop_last().drop_last() =~= Seq::<DeliveryView>::empty());
    assert(inbox(a, receiver) + inbox(b, receiver) =~= if receiver != first.client {
        seq![inbox(a, receiver)[0], inbox(b, receiver)[0]]
    } else {
        inbox(a, receiver) + inbox(b, receiver)
    });
}

} // verus!
