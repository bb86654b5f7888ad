//! The manager of the event hub: it owns the registry of channels and the
//! registry of clients, fans updates out to the clients' queues, and drops
//! every client that a message could not be delivered to.

use crate::kiln::KilnEvent;
use crate::server::command::{Command, Message};
use crate::server::hub::{
    attempted, failed, lemma_gone_are_unknown, lemma_joined_wf, lemma_named_from,
    lemma_registered_wf,
    lemma_subscribed_wf, lemma_unsubscribed_wf, lemma_without_nobody, lemma_without_wf,
    named_from, stays, Attempt, ChannelModel, HubModel,
};
use tokio::sync::mpsc::UnboundedSender;
use vstd::prelude::*;
use vstd::string::StringExecFns;

verus! {

/// What became of a command.
#[derive(Debug)]
pub struct Outcome {
    /// Whether the hub could act on the command.
    pub accepted: bool,
    /// The message that was handed to each recipient, if there was one.
    pub notice: Option<Message>,
    /// One attempt for each recipient, in order.
    pub attempts: Vec<Attempt>,
    /// The event to pass on to the kiln's inbox, if any.
    pub forward: Option<KilnEvent>,
}

/// A client: its id and the queue that reaches it.
#[derive(Debug)]
struct Client {
    id: u128,
    sender: UnboundedSender<Message>,
}

/// A channel: its name and its subscribers.
#[derive(Debug)]
struct Channel {
    name: String,
    subscribers: Vec<u128>,
}

/// The hub's coordinator.
#[derive(Debug)]
pub struct Manager {
    channels: Vec<Channel>,
    clients: Vec<Client>,
}

spec fn channel_models(channels: Seq<Channel>) -> Seq<ChannelModel> {
    Seq::new(
        channels.len(),
        |k: int| ChannelModel { name: channels[k].name@, subscribers: channels[k].subscribers@ },
    )
}

spec fn client_ids(clients: Seq<Client>) -> Seq<u128> {
    Seq::new(clients.len(), |i: int| clients[i].id)
}

impl View for Manager {
    type V = HubModel;

    closed spec fn view(&self) -> HubModel {
        HubModel { channels: channel_models(self.channels@), clients: client_ids(self.clients@) }
    }
}

/// `UnboundedSender::send` puts the message on the client's queue without
/// waiting and fails once the receiving half is closed or dropped. The
/// answer is whether the queue took the message; nothing is claimed of it.
#[verifier::external_body]
pub(crate) fn deliver(sender: &UnboundedSender<Message>, message: Message) -> (delivered: bool) {
    sender.send(message).is_ok()
}

/// Whether an attempt failed for the id.
fn is_failed(attempts: &Vec<Attempt>, id: u128) -> (gone: bool)
    ensures
        gone == failed(attempts@).contains(id),
{
    let mut i: usize = 0;
    while i < attempts.len()
        invariant
            i <= attempts.len(),
            forall|j: int| 0 <= j < i ==> !((#[trigger] attempts[j]).id == id && !attempts[j].delivered),
        decreases attempts.len() - i,
    {
        if attempts[i].id == id && !attempts[i].delivered {
            return true;
        }
        i += 1;
    }
    false
}

/// The ids without those that an attempt failed for.
fn keep_delivered(ids: &Vec<u128>, attempts: &Vec<Attempt>) -> (kept: Vec<u128>)
    ensures
        kept@ == ids@.filter(stays(failed(attempts@))),
{
    let mut kept: Vec<u128> = Vec::new();
    let mut i: usize = 0;
    proof {
        reveal(Seq::filter);
    }
    while i < ids.len()
        invariant
            i <= ids.len(),
            kept@ == ids@.take(i as int).filter(stays(failed(attempts@))),
        decreases ids.len() - i,
    {
        let id = ids[i];
        proof {
            assert(ids@.take(i + 1) =~= ids@.take(i as int).push(id));
            ids@.take(i as int).lemma_filter_push(id, stays(failed(attempts@)));
        }
        if !is_failed(attempts, id) {
            kept.push(id);
        }
        i += 1;
    }
    proof {
        assert(ids@.take(ids.len() as int) =~= ids@);
    }
    kept
}

/// A copy of the ids.
fn copy_ids(ids: &Vec<u128>) -> (copy: Vec<u128>)
    ensures
        copy@ == ids@,
{
    let mut copy: Vec<u128> = Vec::new();
    let mut i: usize = 0;
    while i < ids.len()
        invariant
            i <= ids.len(),
            copy@ == ids@.take(i as int),
        decreases ids.len() - i,
    {
        copy.push(ids[i]);
        i += 1;
    }
    copy
}

impl Manager {
    /// A hub without channels and without clients.
    pub fn new() -> (hub: Manager)
        ensures
            hub@ == (HubModel { channels: Seq::empty(), clients: Seq::empty() }),
            hub@.wf(),
    {
        let hub = Manager { channels: Vec::new(), clients: Vec::new() };
        proof {
            assert(hub@.channels =~= Seq::empty());
            assert(hub@.clients =~= Seq::empty());
        }
        hub
    }

    /// The index of the channel with the name.
    fn find_channel(&self, name: &String) -> (found: Option<usize>)
        ensures
            match found {
                Some(k) => k < self.channels.len() && self@.channel_index(name@) == Some(k as int),
                None => self@.channel_index(name@) is None,
            },
    {
        let mut k: usize = 0;
        while k < self.channels.len()
            invariant
                k <= self.channels.len(),
                self@.channel_index(name@) == named_from(self@.channels, name@, k as int),
            decreases self.channels.len() - k,
        {
            if self.channels[k].name == *name {
                return Some(k);
            }
            k += 1;
        }
        None
    }

    /// The index of the client with the id.
    fn find_client(&self, id: u128) -> (found: Option<usize>)
        ensures
            match found {
                Some(i) => i < self.clients.len() && self.clients[i as int].id == id,
                None => !self@.clients.contains(id),
            },
            found is Some == self@.clients.contains(id),
    {
        let mut i: usize = 0;
        while i < self.clients.len()
            invariant
                i <= self.clients.len(),
                forall|j: int| 0 <= j < i ==> (#[trigger] self.clients[j]).id != id,
            decreases self.clients.len() - i,
        {
            if self.clients[i].id == id {
                assert(self@.clients[i as int] == id);
                return Some(i);
            }
            i += 1;
        }
        None
    }

    /// The ids of all clients.
    fn client_list(&self) -> (ids: Vec<u128>)
        ensures
            ids@ == self@.clients,
    {
        let mut ids: Vec<u128> = Vec::new();
        let mut i: usize = 0;
        while i < self.clients.len()
            invariant
                i <= self.clients.len(),
                ids@ == self@.clients.take(i as int),
            decreases self.clients.len() - i,
        {
            ids.push(self.clients[i].id);
            i += 1;
        }
        ids
    }

    /// Tries to deliver the channel's data to each recipient in turn. A
    /// recipient that is no client counts as not delivered to.
    fn send_all(&self, recipients: &Vec<u128>, channel: &String, data: &String) -> (attempts: Vec<
        Attempt,
    >)
        ensures
            attempted(attempts@) == recipients@,
    {
        let mut attempts: Vec<Attempt> = Vec::new();
        let mut i: usize = 0;
        while i < recipients.len()
            invariant
                i <= recipients.len(),
                attempted(attempts@) == recipients@.take(i as int),
            decreases recipients.len() - i,
        {
            let id = recipients[i];
            let delivered = match self.find_client(id) {
                Some(c) => deliver(
                    &self.clients[c].sender,
                    Message::Update { channel: channel.clone(), data: data.clone() },
                ),
                None => false,
            };
            proof {
                assert(attempted(attempts@.push(Attempt { id, delivered })) =~= attempted(
                    attempts@,
                ).push(id));
            }
            attempts.push(Attempt { id, delivered });
            i += 1;
        }
        attempts
    }

    /// Drops every client that an attempt failed for, from the registry of
    /// clients and from the subscribers of every channel.
    pub fn drop_failed(&mut self, attempts: &Vec<Attempt>)
        ensures
            final(self)@ == old(self)@.without(failed(attempts@)),
            forall|id: u128| failed(attempts@).contains(id) ==> !final(self)@.knows(id),
            old(self)@.wf() ==> final(self)@.wf(),
    {
        proof {
            lemma_gone_are_unknown(self@, failed(attempts@));
            if self@.wf() {
                lemma_without_wf(self@, failed(attempts@));
            }
        }
        let ghost gone = failed(attempts@);
        let ghost before = self@;
        let mut channels: Vec<Channel> = Vec::new();
        let mut k: usize = 0;
        while k < self.channels.len()
            invariant
                k <= self.channels.len(),
                self@ == before,
                gone == failed(attempts@),
                channels.len() == k,
                forall|j: int|
                    0 <= j < k ==> (#[trigger] channel_models(channels@)[j]) == before.channels[j].without(
                        gone,
                    ),
            decreases self.channels.len() - k,
        {
            let kept = keep_delivered(&self.channels[k].subscribers, attempts);
            let ghost done = channels@;
            channels.push(Channel { name: self.channels[k].name.clone(), subscribers: kept });
            proof {
                assert forall|j: int| 0 <= j < k + 1 implies (#[trigger] channel_models(
                    channels@,
                )[j]) == before.channels[j].without(gone) by {
                    if j < k {
                        assert(channel_models(done)[j] == before.channels[j].without(gone));
                    }
                };
            }
            k += 1;
        }
        let mut clients: Vec<Client> = Vec::new();
        let mut i: usize = 0;
        proof {
            reveal(Seq::filter);
        }
        while i < self.clients.len()
            invariant
                i <= self.clients.len(),
                self@ == before,
                gone == failed(attempts@),
                client_ids(clients@) == before.clients.take(i as int).filter(stays(gone)),
            decreases self.clients.len() - i,
        {
            let id = self.clients[i].id;
            proof {
                assert(before.clients.take(i + 1) =~= before.clients.take(i as int).push(id));
                before.clients.take(i as int).lemma_filter_push(id, stays(gone));
            }
            if !is_failed(attempts, id) {
                clients.push(Client { id, sender: self.clients[i].sender.clone() });
            }
            i += 1;
        }
        proof {
            assert(before.clients.take(self.clients.len() as int) =~= before.clients);
            assert(channel_models(channels@) =~= before.without(gone).channels);
        }
        *self = Manager { channels, clients };
    }

    /// The ids of the clients, in the order in which they joined.
    pub fn clients(&self) -> (ids: Vec<u128>)
        ensures
            ids@ == self@.clients,
    {
        self.client_list()
    }

    /// Whether there is a channel with the name.
    pub fn has_channel(&self, name: &String) -> (has: bool)
        ensures
            has == self@.channel_index(name@) is Some,
    {
        self.find_channel(name).is_some()
    }

    /// The subscribers of the channel with the name, in the order in which
    /// they subscribed; none where there is no such channel.
    pub fn subscribers(&self, name: &String) -> (ids: Vec<u128>)
        ensures
            ids@ == self@.subscribers(name@),
    {
        match self.find_channel(name) {
            Some(k) => copy_ids(&self.channels[k].subscribers),
            None => Vec::new(),
        }
    }

    /// An outcome without recipients.
    fn quiet(accepted: bool, forward: Option<KilnEvent>) -> (outcome: Outcome)
        ensures
            outcome.accepted == accepted,
            outcome.notice is None,
            outcome.attempts@ == Seq::<Attempt>::empty(),
            outcome.forward == forward,
    {
        Outcome { accepted, notice: None, attempts: Vec::new(), forward }
    }

    /// Creates the channel unless it is there already.
    fn handle_register(&mut self, channel: String) -> (outcome: Outcome)
        ensures
            final(self)@ == old(self)@.registered(channel@),
            old(self)@.wf() ==> final(self)@.wf(),
            outcome.accepted,
            outcome.notice is None,
            outcome.attempts@ == Seq::<Attempt>::empty(),
            outcome.forward is None,
    {
        proof {
            if self@.wf() {
                lemma_registered_wf(self@, channel@);
            }
        }
        match self.find_channel(&channel) {
            Some(_) => {},
            None => {
                let ghost before = self@;
                let ghost name = channel@;
                self.channels.push(Channel { name: channel, subscribers: Vec::new() });
                proof {
                    assert(self@.channels =~= before.channels.push(
                        ChannelModel { name, subscribers: Seq::empty() },
                    ));
                }
            },
        }
        Manager::quiet(true, None)
    }

    /// Makes the client known unless its id is taken.
    fn handle_client_register(&mut self, id: u128, sender: UnboundedSender<Message>) -> (outcome:
        Outcome)
        ensures
            final(self)@ == old(self)@.joined(id),
            old(self)@.wf() ==> final(self)@.wf(),
            outcome.accepted == !old(self)@.clients.contains(id),
            outcome.notice is None,
            outcome.attempts@ == Seq::<Attempt>::empty(),
            outcome.forward is None,
    {
        proof {
            if self@.wf() {
                lemma_joined_wf(self@, id);
            }
        }
        match self.find_client(id) {
            Some(_) => Manager::quiet(false, None),
            None => {
                let ghost before = self@;
                self.clients.push(Client { id, sender });
                proof {
                    assert(self@.clients =~= before.clients.push(id));
                }
                Manager::quiet(true, None)
            },
        }
    }

    /// Adds a known client to the subscribers of a known channel, once, and
    /// acknowledges on the channel `system`. A client that cannot be told
    /// is dropped.
    fn handle_subscribe(&mut self, channel: String, id: u128) -> (outcome: Outcome)
        ensures
            outcome.accepted == (old(self)@.clients.contains(id) && old(self)@.channel_index(
                channel@,
            ) is Some),
            attempted(outcome.attempts@) == (if outcome.accepted {
                seq![id]
            } else {
                Seq::empty()
            }),
            final(self)@ == old(self)@.subscribed(channel@, id).without(failed(outcome.attempts@)),
            old(self)@.wf() ==> final(self)@.wf(),
            outcome.accepted ==> (outcome.notice matches Some(
                Message::Update { channel: c, data: d },
            ) && c@ == "system"@ && d@ == "success"@),
            !outcome.accepted ==> outcome.notice is None,
            outcome.forward is None,
    {
        proof {
            if self@.wf() {
                lemma_subscribed_wf(self@, channel@, id);
            }
        }
        let ghost before = self@;
        let known = self.find_client(id).is_some();
        match self.find_channel(&channel) {
            Some(k) => {
                if known {
                    if !has_id(&self.channels[k].subscribers, id) {
                        let mut subscribers = copy_ids(&self.channels[k].subscribers);
                        subscribers.push(id);
                        let name = self.channels[k].name.clone();
                        self.channels.set(k, Channel { name, subscribers });
                        proof {
                            lemma_named_from(before.channels, channel@, 0);
                            assert(self@.channels =~= before.subscribed(channel@, id).channels);
                        }
                    }
                    let mut recipients: Vec<u128> = Vec::new();
                    recipients.push(id);
                    let system = String::from_str("system");
                    let success = String::from_str("success");
                    let attempts = self.send_all(&recipients, &system, &success);
                    self.drop_failed(&attempts);
                    Outcome {
                        accepted: true,
                        notice: Some(Message::Update { channel: system, data: success }),
                        attempts,
                        forward: None,
                    }
                } else {
                    proof {
                        lemma_nobody_failed(self@);
                    }
                    Manager::quiet(false, None)
                }
            },
            None => {
                proof {
                    lemma_nobody_failed(self@);
                }
                Manager::quiet(false, None)
            },
        }
    }

    /// Takes the client off the subscribers of the channel.
    fn handle_unsubscribe(&mut self, channel: String, id: u128) -> (outcome: Outcome)
        ensures
            final(self)@ == old(self)@.unsubscribed(channel@, id),
            old(self)@.wf() ==> final(self)@.wf(),
            outcome.accepted == old(self)@.subscribers(channel@).contains(id),
            outcome.notice is None,
            outcome.attempts@ == Seq::<Attempt>::empty(),
            outcome.forward is None,
    {
        proof {
            if self@.wf() {
                lemma_unsubscribed_wf(self@, channel@, id);
            }
        }
        let ghost before = self@;
        match self.find_channel(&channel) {
            Some(k) => {
                let subscribed = has_id(&self.channels[k].subscribers, id);
                let mut leaving: Vec<Attempt> = Vec::new();
                leaving.push(Attempt { id, delivered: false });
                proof {
                    assert(leaving@[0].id == id && !leaving@[0].delivered);
                    assert(failed(leaving@) =~= set![id]);
                }
                let subscribers = keep_delivered(&self.channels[k].subscribers, &leaving);
                let name = self.channels[k].name.clone();
                self.channels.set(k, Channel { name, subscribers });
                proof {
                    lemma_named_from(before.channels, channel@, 0);
                    assert(self@.channels =~= before.unsubscribed(channel@, id).channels);
                }
                Manager::quiet(subscribed, None)
            },
            None => Manager::quiet(false, None),
        }
    }

    /// Sends the data to every subscriber of the channel and drops those
    /// it could not be delivered to.
    fn handle_update(&mut self, channel: String, data: String) -> (outcome: Outcome)
        ensures
            outcome.accepted == old(self)@.channel_index(channel@) is Some,
            attempted(outcome.attempts@) == old(self)@.subscribers(channel@),
            final(self)@ == old(self)@.without(failed(outcome.attempts@)),
            old(self)@.wf() ==> final(self)@.wf(),
            outcome.notice matches Some(Message::Update { channel: c, data: d }) && c@ == channel@
                && d@ == data@,
            outcome.forward is None,
    {
        match self.find_channel(&channel) {
            Some(k) => {
                let recipients = copy_ids(&self.channels[k].subscribers);
                let attempts = self.send_all(&recipients, &channel, &data);
                self.drop_failed(&attempts);
                Outcome {
                    accepted: true,
                    notice: Some(Message::Update { channel, data }),
                    attempts,
                    forward: None,
                }
            },
            None => {
                proof {
                    lemma_nobody_failed(self@);
                }
                Outcome {
                    accepted: false,
                    notice: Some(Message::Update { channel, data }),
                    attempts: Vec::new(),
                    forward: None,
                }
            },
        }
    }

    /// Sends a ping to every client and drops those it could not be
    /// delivered to.
    pub fn handle_ping(&mut self) -> (outcome: Outcome)
        ensures
            outcome.accepted,
            attempted(outcome.attempts@) == old(self)@.clients,
            final(self)@ == old(self)@.without(failed(outcome.attempts@)),
            old(self)@.wf() ==> final(self)@.wf(),
            outcome.notice matches Some(Message::Update { channel: c, data: d }) && c@ == "ping"@
                && d@ == "ping"@,
            outcome.forward is None,
    {
        let recipients = self.client_list();
        let name = String::from_str("ping");
        let data = String::from_str("ping");
        let attempts = self.send_all(&recipients, &name, &data);
        self.drop_failed(&attempts);
        Outcome {
            accepted: true,
            notice: Some(Message::Update { channel: name, data }),
            attempts,
            forward: None,
        }
    }

    /// A command that the hub does not act on: nothing changes.
    pub fn handle_unknown(input: Option<String>) -> (outcome: Outcome)
        ensures
            !outcome.accepted,
            outcome.notice is None,
            outcome.attempts@ == Seq::<Attempt>::empty(),
            outcome.forward is None,
    {
        Manager::quiet(false, None)
    }

    /// Acts on one command.
    ///
    /// The hub first applies the command to its registries, then tries to
    /// deliver the command's message to each of its recipients, once and
    /// in order, and at last drops every client that a delivery failed for,
    /// from the registry of clients and from every channel. Commands for the
    /// kiln are not acted on here: the event to pass on is in the outcome.
    pub fn process_command(&mut self, command: Command) -> (outcome: Outcome)
        ensures
            outcome.accepted == old(self)@.accepts(command),
            attempted(outcome.attempts@) == old(self)@.recipients(command),
            final(self)@ == old(self)@.applied(command).without(failed(outcome.attempts@)),
            forall|id: u128| failed(outcome.attempts@).contains(id) ==> !final(self)@.knows(id),
            old(self)@.wf() ==> final(self)@.wf(),
            match old(self)@.notice(command) {
                Some((channel, data)) => outcome.notice matches Some(
                    Message::Update { channel: c, data: d },
                ) && c@ == channel && d@ == data,
                None => outcome.notice is None,
            },
            outcome.forward == HubModel::forwarded(command),
    {
        proof {
            lemma_nobody_failed(self@.applied(command));
            lemma_gone_are_unknown(self@.applied(command), failed(Seq::<Attempt>::empty()));
        }
        match command {
            Command::Subscribe { channel, id } => self.handle_subscribe(channel, id),
            Command::Unsubscribe { channel, id } => self.handle_unsubscribe(channel, id),
            Command::Register { channel } => self.handle_register(channel),
            Command::ClientRegister { id, sender } => self.handle_client_register(id, sender),
            Command::Update { channel, data } => self.handle_update(channel, data),
            Command::Ping => self.handle_ping(),
            Command::Unknown { input } => Manager::handle_unknown(Some(input)),
            Command::StartSchedule { schedule } => Manager::quiet(
                true,
                Some(KilnEvent::Start(schedule)),
            ),
            Command::StopSchedule => Manager::quiet(true, Some(KilnEvent::Stop)),
            _ => Manager::handle_unknown(None),
        }
    }
}

/// Whether the id is among the ids.
fn has_id(ids: &Vec<u128>, id: u128) -> (found: bool)
    ensures
        found == ids@.contains(id),
{
    let mut i: usize = 0;
    while i < ids.len()
        invariant
            i <= ids.len(),
            forall|j: int| 0 <= j < i ==> ids[j] != id,
        decreases ids.len() - i,
    {
        if ids[i] == id {
            return true;
        }
        i += 1;
    }
    false
}

/// Where no attempt was made nobody failed, and nobody is dropped.
proof fn lemma_nobody_failed(hub: HubModel)
    ensures
        hub.without(failed(Seq::<Attempt>::empty())) == hub,
{
    lemma_without_nobody(hub, failed(Seq::<Attempt>::empty()));
}

} // verus!
