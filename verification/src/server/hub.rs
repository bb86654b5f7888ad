//! The event hub as mathematics: what its registries hold, what each
//! command does to them, and the laws of fan-out and of dropping clients.

use crate::kiln::KilnEvent;
use crate::server::command::Command;
use vstd::prelude::*;

verus! {

/// A channel as mathematics: its name and the ids of its subscribers, in
/// the order in which they subscribed.
pub struct ChannelModel {
    pub name: Seq<char>,
    pub subscribers: Seq<u128>,
}

/// The hub as mathematics: its channels in the order in which they were
/// registered, and the ids of its clients in the order in which they joined.
pub struct HubModel {
    pub channels: Seq<ChannelModel>,
    pub clients: Seq<u128>,
}

/// One try to deliver a message to a client, and whether the client's
/// queue took it.
#[derive(Clone, Copy, Debug, PartialEq, Eq, Structural)]
pub struct Attempt {
    pub id: u128,
    pub delivered: bool,
}

/// The ids that the attempts were made for, in order.
pub open spec fn attempted(attempts: Seq<Attempt>) -> Seq<u128> {
    attempts.map_values(|a: Attempt| a.id)
}

/// The ids that an attempt failed for.
pub open spec fn failed(attempts: Seq<Attempt>) -> Set<u128> {
    Set::new(
        |id: u128|
            exists|i: int|
                0 <= i < attempts.len() && (#[trigger] attempts[i]).id == id
                    && !attempts[i].delivered,
    )
}

/// The test of staying: an id stays unless it is among the `gone`.
pub open spec fn stays(gone: Set<u128>) -> spec_fn(u128) -> bool {
    |id: u128| !gone.contains(id)
}

/// The first channel at or after index `from` that has the name.
pub open spec fn named_from(channels: Seq<ChannelModel>, name: Seq<char>, from: int) -> Option<int>
    decreases channels.len() - from,
{
    if from < 0 || from >= channels.len() {
        None
    } else if channels[from].name == name {
        Some(from)
    } else {
        named_from(channels, name, from + 1)
    }
}

impl ChannelModel {
    /// The channel without the subscribers that are `gone`.
    pub open spec fn without(self, gone: Set<u128>) -> ChannelModel {
        ChannelModel { name: self.name, subscribers: self.subscribers.filter(stays(gone)) }
    }
}

impl HubModel {
    /// The registries are sound: no client and no channel name is there
    /// twice, no channel has a subscriber twice, and every subscriber is
    /// a client.
    pub open spec fn wf(self) -> bool {
        &&& self.clients.no_duplicates()
        &&& forall|i: int, j: int|
            0 <= i < j < self.channels.len() ==> (#[trigger] self.channels[i]).name
                != (#[trigger] self.channels[j]).name
        &&& forall|k: int|
            0 <= k < self.channels.len() ==> (#[trigger] self.channels[k]).subscribers.no_duplicates()
        &&& forall|k: int, n: int|
            0 <= k < self.channels.len() && 0 <= n < self.channels[k].subscribers.len()
                ==> self.clients.contains(#[trigger] self.channels[k].subscribers[n])
    }

    /// Whether the hub holds the id anywhere: among its clients, or among
    /// the subscribers of a channel.
    pub open spec fn knows(self, id: u128) -> bool {
        self.clients.contains(id) || exists|k: int|
            0 <= k < self.channels.len() && (#[trigger] self.channels[k]).subscribers.contains(id)
    }

    /// The index of the channel with the name.
    pub open spec fn channel_index(self, name: Seq<char>) -> Option<int> {
        named_from(self.channels, name, 0)
    }

    /// The subscribers of the channel with the name, none where there is
    /// no such channel.
    pub open spec fn subscribers(self, name: Seq<char>) -> Seq<u128> {
        match self.channel_index(name) {
            Some(k) => self.channels[k].subscribers,
            None => Seq::empty(),
        }
    }

    /// The hub with the channel: as it was if the channel is there already.
    pub open spec fn registered(self, name: Seq<char>) -> HubModel {
        if self.channel_index(name) is Some {
            self
        } else {
            HubModel {
                channels: self.channels.push(ChannelModel { name, subscribers: Seq::empty() }),
                ..self
            }
        }
    }

    /// The hub with the client: as it was if the id is taken already.
    pub open spec fn joined(self, id: u128) -> HubModel {
        if self.clients.contains(id) {
            self
        } else {
            HubModel { clients: self.clients.push(id), ..self }
        }
    }

    /// The hub with the client among the channel's subscribers: as it was
    /// if the client or the channel is unknown, or the client subscribed
    /// before.
    pub open spec fn subscribed(self, name: Seq<char>, id: u128) -> HubModel {
        match self.channel_index(name) {
            Some(k) => if self.clients.contains(id) && !self.channels[k].subscribers.contains(id) {
                HubModel {
                    channels: self.channels.update(
                        k,
                        ChannelModel { name, subscribers: self.channels[k].subscribers.push(id) },
                    ),
                    ..self
                }
            } else {
                self
            },
            None => self,
        }
    }

    /// The hub with the client taken off the channel's subscribers.
    pub open spec fn unsubscribed(self, name: Seq<char>, id: u128) -> HubModel {
        match self.channel_index(name) {
            Some(k) => HubModel {
                channels: self.channels.update(k, self.channels[k].without(set![id])),
                ..self
            },
            None => self,
        }
    }

    /// The hub without the clients that are `gone`: they leave the
    /// registry of clients and the subscribers of every channel.
    pub open spec fn without(self, gone: Set<u128>) -> HubModel {
        HubModel {
            channels: self.channels.map_values(|c: ChannelModel| c.without(gone)),
            clients: self.clients.filter(stays(gone)),
        }
    }

    /// Whether the hub can act on the command: a client can register
    /// once; subscribing takes a known client and a known channel,
    /// unsubscribing a subscriber of a known channel, an update a known
    /// channel.
    pub open spec fn accepts(self, command: Command) -> bool {
        match command {
            Command::Register { .. } => true,
            Command::ClientRegister { id, .. } => !self.clients.contains(id),
            Command::Subscribe { channel, id } => self.clients.contains(id) && self.channel_index(
                channel@,
            ) is Some,
            Command::Unsubscribe { channel, id } => self.subscribers(channel@).contains(id),
            Command::Update { channel, .. } => self.channel_index(channel@) is Some,
            Command::Ping => true,
            Command::StartSchedule { .. } => true,
            Command::StopSchedule => true,
            _ => false,
        }
    }

    /// The hub after the command, before anyone is dropped.
    pub open spec fn applied(self, command: Command) -> HubModel {
        match command {
            Command::Register { channel } => self.registered(channel@),
            Command::ClientRegister { id, .. } => self.joined(id),
            Command::Subscribe { channel, id } => self.subscribed(channel@, id),
            Command::Unsubscribe { channel, id } => self.unsubscribed(channel@, id),
            _ => self,
        }
    }

    /// The clients that the command has a message for, in the order in
    /// which they are tried: the new subscriber, the subscribers of the
    /// updated channel, or every client for a ping.
    pub open spec fn recipients(self, command: Command) -> Seq<u128> {
        match command {
            Command::Subscribe { id, .. } => if self.accepts(command) {
                seq![id]
            } else {
                Seq::empty()
            },
            Command::Update { channel, .. } => self.subscribers(channel@),
            Command::Ping => self.clients,
            _ => Seq::empty(),
        }
    }

    /// The channel and the data of the message that the command has for its
    /// recipients: a subscription that was accepted is acknowledged on the
    /// channel `system`, an update carries its own channel and data, and a
    /// ping goes out on the channel `ping`.
    pub open spec fn notice(self, command: Command) -> Option<(Seq<char>, Seq<char>)> {
        match command {
            Command::Subscribe { .. } => if self.accepts(command) {
                Some(("system"@, "success"@))
            } else {
                None
            },
            Command::Update { channel, data } => Some((channel@, data@)),
            Command::Ping => Some(("ping"@, "ping"@)),
            _ => None,
        }
    }

    /// The event that the command has for the kiln's inbox.
    pub open spec fn forwarded(command: Command) -> Option<KilnEvent> {
        match command {
            Command::StartSchedule { schedule } => Some(KilnEvent::Start(schedule)),
            Command::StopSchedule => Some(KilnEvent::Stop),
            _ => None,
        }
    }
}

/// What [`named_from`] finds is the least index at or after `from` with
/// the name, and it finds one wherever one exists.
pub proof fn lemma_named_from(channels: Seq<ChannelModel>, name: Seq<char>, from: int)
    requires
        0 <= from,
    ensures
        match named_from(channels, name, from) {
            Some(k) => from <= k < channels.len() && channels[k].name == name && forall|j: int|
                from <= j < k ==> (#[trigger] channels[j]).name != name,
            None => forall|j: int| from <= j < channels.len() ==> (#[trigger] channels[j]).name != name,
        },
    decreases channels.len() - from,
{
    if from < channels.len() && channels[from].name != name {
        lemma_named_from(channels, name, from + 1);
    }
}

/// Filtering keeps exactly the members that stay.
pub proof fn lemma_stays_membership(ids: Seq<u128>, gone: Set<u128>, id: u128)
    ensures
        ids.filter(stays(gone)).contains(id) <==> ids.contains(id) && !gone.contains(id),
{
    let kept = ids.filter(stays(gone));
    if kept.contains(id) {
        ids.lemma_filter_contains_rev(stays(gone), id);
        let i = choose|i: int| 0 <= i < kept.len() && kept[i] == id;
        ids.lemma_filter_pred(stays(gone), i);
    }
    if ids.contains(id) && !gone.contains(id) {
        let i = choose|i: int| 0 <= i < ids.len() && ids[i] == id;
        ids.lemma_filter_contains(stays(gone), i);
    }
}

/// Filtering a sequence without duplicates leaves one without duplicates.
pub proof fn lemma_stays_no_duplicates(ids: Seq<u128>, gone: Set<u128>)
    requires
        ids.no_duplicates(),
    ensures
        ids.filter(stays(gone)).no_duplicates(),
    decreases ids.len(),
{
    reveal(Seq::filter);
    if ids.len() > 0 {
        let front = ids.drop_last();
        lemma_stays_no_duplicates(front, gone);
        lemma_stays_membership(front, gone, ids.last());
    }
}

/// Where nobody is gone, filtering changes nothing.
pub proof fn lemma_stays_all(ids: Seq<u128>, gone: Set<u128>)
    requires
        forall|i: int| 0 <= i < ids.len() ==> !gone.contains(#[trigger] ids[i]),
    ensures
        ids.filter(stays(gone)) == ids,
    decreases ids.len(),
{
    reveal(Seq::filter);
    if ids.len() > 0 {
        lemma_stays_all(ids.drop_last(), gone);
    }
}

/// Dropping nobody leaves the hub as it was.
pub proof fn lemma_without_nobody(hub: HubModel, gone: Set<u128>)
    requires
        forall|id: u128| !gone.contains(id),
    ensures
        hub.without(gone) == hub,
{
    lemma_stays_all(hub.clients, gone);
    assert forall|k: int| 0 <= k < hub.channels.len() implies (#[trigger] hub.channels[k]).without(
        gone,
    ) == hub.channels[k] by {
        lemma_stays_all(hub.channels[k].subscribers, gone);
    };
    assert(hub.without(gone).channels =~= hub.channels);
}

/// Dropping clients keeps the registries sound.
pub proof fn lemma_without_wf(hub: HubModel, gone: Set<u128>)
    requires
        hub.wf(),
    ensures
        hub.without(gone).wf(),
{
    let after = hub.without(gone);
    lemma_stays_no_duplicates(hub.clients, gone);
    assert forall|k: int| 0 <= k < after.channels.len() implies (
    #[trigger] after.channels[k]).subscribers.no_duplicates() by {
        lemma_stays_no_duplicates(hub.channels[k].subscribers, gone);
    };
    assert forall|k: int, n: int|
        0 <= k < after.channels.len() && 0 <= n < after.channels[k].subscribers.len()
            implies after.clients.contains(#[trigger] after.channels[k].subscribers[n]) by {
        let id = after.channels[k].subscribers[n];
        lemma_stays_membership(hub.channels[k].subscribers, gone, id);
        lemma_stays_membership(hub.clients, gone, id);
    };
}

/// A client that is gone appears nowhere: not in the registry of
/// clients, and not among the subscribers of any channel.
pub proof fn lemma_gone_everywhere(hub: HubModel, gone: Set<u128>, id: u128)
    requires
        gone.contains(id),
    ensures
        !hub.without(gone).clients.contains(id),
        forall|k: int|
            0 <= k < hub.without(gone).channels.len() ==> !(#[trigger] hub.without(
                gone,
            ).channels[k]).subscribers.contains(id),
        !hub.without(gone).knows(id),
{
    lemma_stays_membership(hub.clients, gone, id);
    assert forall|k: int| 0 <= k < hub.without(gone).channels.len() implies !(
    #[trigger] hub.without(gone).channels[k]).subscribers.contains(id) by {
        lemma_stays_membership(hub.channels[k].subscribers, gone, id);
    };
}

/// Whoever is gone is known nowhere any more.
pub proof fn lemma_gone_are_unknown(hub: HubModel, gone: Set<u128>)
    ensures
        forall|id: u128| gone.contains(id) ==> !hub.without(gone).knows(id),
{
    assert forall|id: u128| gone.contains(id) implies !hub.without(gone).knows(id) by {
        lemma_gone_everywhere(hub, gone, id);
    };
}

/// A client that is not gone stays wherever it was, and the order of
/// those who stay is the order they had.
pub proof fn lemma_others_stay(hub: HubModel, gone: Set<u128>, id: u128)
    requires
        !gone.contains(id),
    ensures
        hub.without(gone).clients.contains(id) == hub.clients.contains(id),
        forall|k: int|
            0 <= k < hub.channels.len() ==> (#[trigger] hub.without(
                gone,
            ).channels[k]).subscribers.contains(id) == hub.channels[k].subscribers.contains(id),
{
    lemma_stays_membership(hub.clients, gone, id);
    assert forall|k: int| 0 <= k < hub.channels.len() implies (#[trigger] hub.without(
        gone,
    ).channels[k]).subscribers.contains(id) == hub.channels[k].subscribers.contains(id) by {
        lemma_stays_membership(hub.channels[k].subscribers, gone, id);
    };
}

/// An update is tried once for every subscriber of its channel and for
/// nobody else, in the order in which they subscribed.
pub proof fn lemma_update_once_each(hub: HubModel, channel: String, data: String)
    requires
        hub.wf(),
    ensures
        hub.recipients(Command::Update { channel, data }) == hub.subscribers(channel@),
        hub.recipients(Command::Update { channel, data }).no_duplicates(),
{
    lemma_named_from(hub.channels, channel@, 0);
}

/// Two registries of channels with the same names, one by one, find each
/// name at the same place.
pub proof fn lemma_named_alike(
    a: Seq<ChannelModel>,
    b: Seq<ChannelModel>,
    name: Seq<char>,
    from: int,
)
    requires
        a.len() == b.len(),
        forall|k: int| 0 <= k < a.len() ==> (#[trigger] a[k]).name == b[k].name,
    ensures
        named_from(a, name, from) == named_from(b, name, from),
    decreases a.len() - from,
{
    if 0 <= from < a.len() && a[from].name != name {
        lemma_named_alike(a, b, name, from + 1);
    }
}

/// Dropping clients leaves every channel in its place, with those of its
/// subscribers that stay, in the order they had.
pub proof fn lemma_without_keeps_order(hub: HubModel, gone: Set<u128>, name: Seq<char>)
    ensures
        hub.without(gone).channel_index(name) == hub.channel_index(name),
        hub.without(gone).subscribers(name) == hub.subscribers(name).filter(stays(gone)),
{
    lemma_named_alike(hub.without(gone).channels, hub.channels, name, 0);
    lemma_named_from(hub.channels, name, 0);
    if hub.channel_index(name) is None {
        reveal(Seq::filter);
    }
}

/// Updates reach a subscriber in the order in which they came: the update
/// that follows another on a channel is tried for exactly those subscribers
/// that the first was delivered to, in the same order, so that whoever got
/// the first gets the second after it, once.
pub proof fn lemma_updates_in_order(
    hub: HubModel,
    channel: String,
    first: String,
    second: String,
    attempts: Seq<Attempt>,
)
    requires
        hub.wf(),
        attempted(attempts) == hub.recipients(Command::Update { channel, data: first }),
    ensures
        hub.without(failed(attempts)).recipients(Command::Update { channel, data: second })
            == hub.recipients(Command::Update { channel, data: first }).filter(
            stays(failed(attempts)),
        ),
        hub.without(failed(attempts)).recipients(
            Command::Update { channel, data: second },
        ).no_duplicates(),
{
    lemma_without_keeps_order(hub, failed(attempts), channel@);
    lemma_without_wf(hub, failed(attempts));
    lemma_update_once_each(hub.without(failed(attempts)), channel, second);
}

/// Registering a channel keeps the registries sound.
pub proof fn lemma_registered_wf(hub: HubModel, name: Seq<char>)
    requires
        hub.wf(),
    ensures
        hub.registered(name).wf(),
{
    lemma_named_from(hub.channels, name, 0);
}

/// Registering a client keeps the registries sound.
pub proof fn lemma_joined_wf(hub: HubModel, id: u128)
    requires
        hub.wf(),
    ensures
        hub.joined(id).wf(),
{
    let after = hub.joined(id);
    if !hub.clients.contains(id) {
        assert forall|k: int, n: int|
            0 <= k < after.channels.len() && 0 <= n < after.channels[k].subscribers.len()
                implies after.clients.contains(#[trigger] after.channels[k].subscribers[n]) by {
            let subscriber = hub.channels[k].subscribers[n];
            let m = choose|m: int| 0 <= m < hub.clients.len() && hub.clients[m] == subscriber;
            assert(after.clients[m] == subscriber);
        };
    }
}

/// Subscribing keeps the registries sound.
pub proof fn lemma_subscribed_wf(hub: HubModel, name: Seq<char>, id: u128)
    requires
        hub.wf(),
    ensures
        hub.subscribed(name, id).wf(),
{
    lemma_named_from(hub.channels, name, 0);
}

/// Unsubscribing keeps the registries sound.
pub proof fn lemma_unsubscribed_wf(hub: HubModel, name: Seq<char>, id: u128)
    requires
        hub.wf(),
    ensures
        hub.unsubscribed(name, id).wf(),
{
    lemma_named_from(hub.channels, name, 0);
    let after = hub.unsubscribed(name, id);
    match hub.channel_index(name) {
        Some(c) => {
            let before = hub.channels[c].subscribers;
            assert forall|k: int| 0 <= k < after.channels.len() implies (
            #[trigger] after.channels[k]).subscribers.no_duplicates() by {
                if k == c {
                    lemma_stays_no_duplicates(before, set![id]);
                }
            };
            assert forall|k: int, n: int|
                0 <= k < after.channels.len() && 0 <= n < after.channels[k].subscribers.len()
                    implies after.clients.contains(#[trigger] after.channels[k].subscribers[n]) by {
                if k == c {
                    lemma_stays_membership(before, set![id], after.channels[k].subscribers[n]);
                }
            };
        },
        None => {},
    }
}

/// Whatever the command, applying it keeps the registries sound.
pub proof fn lemma_applied_wf(hub: HubModel, command: Command)
    requires
        hub.wf(),
    ensures
        hub.applied(command).wf(),
{
    match command {
        Command::Register { channel } => lemma_registered_wf(hub, channel@),
        Command::ClientRegister { id, .. } => lemma_joined_wf(hub, id),
        Command::Subscribe { channel, id } => lemma_subscribed_wf(hub, channel@, id),
        Command::Unsubscribe { channel, id } => lemma_unsubscribed_wf(hub, channel@, id),
        _ => {},
    }
}

} // verus!
