//! The viewer's end of the solar data stream: the state of the link, and what
//! each message from the server changes.
//!
//! Products arrive in their original form and are decoded by the caller before
//! they are stored; what is kept here is which of them are new.
use crate::digi_map::Heard;
use crate::text::{decimal, fmt_u64};
use vstd::prelude::*;

verus! {

/// The image resolution that a server starts its feed on.
pub const DEFAULT_RESOLUTION: u16 = 1024;

/// Connection state, as the overlay's status line reports it.
#[derive(PartialEq, Eq, Debug)]
pub enum Link {
    Connecting,
    Up,
    /// The socket closed or the handshake failed. The view keeps drawing
    /// whatever it already has, so this is a status line, not an error screen.
    Down(String),
}

/// A message to the server.
#[derive(Clone, Copy, Debug, PartialEq, Eq, Structural)]
pub enum ClientMsg {
    Hello { proto: u32 },
    SetChannel(u8),
    SetResolution(u16),
}

/// A message from the server, as far as it is not a product to be decoded.
#[derive(Debug)]
pub enum ServerMsg {
    HelloAck { proto: u32 },
    Error(String),
    Pong,
    Digi { my_grid: String, dx_grid: Option<String>, transmitting: bool },
    Decodes(Vec<Heard>),
    /// A decoded product, or the news that its bytes did not decode.
    Product(Product),
}

/// A product of the solar feed.
#[derive(Clone, Copy, Debug, PartialEq, Eq, Structural)]
pub enum Product {
    /// An image of the Sun.
    Sun { decoded: bool },
    /// A set of satellites: the geostationary ones or the amateur ones.
    Satellites { geo: bool },
    Aurora,
    /// A cloud plane: the infrared band or the visible one.
    Clouds { infrared: bool, decoded: bool },
    Weather,
    Events,
    Status,
}

/// Where a product is stored.
#[derive(Clone, Copy, Debug, PartialEq, Eq, Structural)]
pub enum Slot {
    Nowhere,
    Sun,
    GeoSatellites,
    AmateurSatellites,
    Aurora,
    /// The infrared cloud plane; the cloud layer is rebuilt from both planes.
    InfraredClouds,
    /// The visible cloud plane; the cloud layer is rebuilt from both planes.
    VisibleClouds,
    Weather,
    Events,
    Status,
}

/// What the socket reports.
#[derive(Debug)]
pub enum SocketEvent {
    Opened,
    /// A message that decoded.
    Message(ServerMsg),
    /// A message that did not, with the reason.
    BadMessage(String),
    /// A message of another kind than the protocol uses.
    Other,
    Error(String),
    Closed,
}

/// The viewer's end of the stream.
pub struct SolarClient {
    /// The protocol version that this viewer speaks.
    pub proto: u32,
    pub link: Link,
    /// Newest decode list, for the caller's own fade bookkeeping.
    pub decodes: Vec<Heard>,
    pub my_grid: String,
    pub dx_grid: Option<String>,
    pub transmitting: bool,
    /// How many solar images have been stored.
    pub sun_gen: u64,
    /// How many aurora ovals have been stored.
    pub aurora_gen: u64,
    /// Channel and resolution last requested, so a change is sent once.
    pub sent_channel: Option<(u8, u16)>,
}

/// What the server is told when the channel or the resolution differs from
/// what it has; before anything was sent it has its own defaults.
pub open spec fn channel_msgs(had: Option<(u8, u16)>, channel: u8, resolution: u16) -> Seq<
    ClientMsg,
> {
    let (c, r) = match had {
        Some(h) => h,
        None => (0u8, DEFAULT_RESOLUTION),
    };
    let first = if c != channel {
        seq![ClientMsg::SetChannel(channel)]
    } else {
        seq![]
    };
    let second = if r != resolution {
        seq![ClientMsg::SetResolution(resolution)]
    } else {
        seq![]
    };
    first + second
}

/// The status line of a server that speaks another version.
pub open spec fn mismatch_text(server: u32, client: u32) -> Seq<char> {
    "solar protocol mismatch: server "@ + decimal(server as nat) + ", client "@ + decimal(
        client as nat,
    )
}

/// Where a product is stored: nowhere if it did not decode.
pub open spec fn slot_of(p: Product) -> Slot {
    match p {
        Product::Sun { decoded } => if decoded {
            Slot::Sun
        } else {
            Slot::Nowhere
        },
        Product::Satellites { geo } => if geo {
            Slot::GeoSatellites
        } else {
            Slot::AmateurSatellites
        },
        Product::Aurora => Slot::Aurora,
        Product::Clouds { infrared, decoded } => if !decoded {
            Slot::Nowhere
        } else if infrared {
            Slot::InfraredClouds
        } else {
            Slot::VisibleClouds
        },
        Product::Weather => Slot::Weather,
        Product::Events => Slot::Events,
        Product::Status => Slot::Status,
    }
}

/// Whether the link is down for a reason.
pub open spec fn down_with(l: Link, why: Seq<char>) -> bool {
    l matches Link::Down(s) && s@ == why
}

impl SolarClient {
    /// A client whose socket is still connecting.
    pub fn connect(proto: u32) -> (r: SolarClient)
        ensures
            r.proto == proto,
            r.link is Connecting,
            r.decodes@.len() == 0,
            r.my_grid@.len() == 0,
            r.dx_grid is None,
            !r.transmitting,
            r.sun_gen == 0,
            r.aurora_gen == 0,
            r.sent_channel is None,
    {
        SolarClient {
            proto,
            link: Link::Connecting,
            decodes: Vec::new(),
            my_grid: String::new(),
            dx_grid: None,
            transmitting: false,
            sun_gen: 0,
            aurora_gen: 0,
            sent_channel: None,
        }
    }

    /// Everything but the link.
    pub open spec fn same_data(&self, o: &SolarClient) -> bool {
        &&& self.proto == o.proto
        &&& self.decodes == o.decodes
        &&& self.my_grid == o.my_grid
        &&& self.dx_grid == o.dx_grid
        &&& self.transmitting == o.transmitting
        &&& self.sun_gen == o.sun_gen
        &&& self.aurora_gen == o.aurora_gen
        &&& self.sent_channel == o.sent_channel
    }

    /// Everything but the contact that the server reports.
    pub open spec fn same_feed(&self, o: &SolarClient) -> bool {
        &&& self.proto == o.proto
        &&& self.link == o.link
        &&& self.decodes == o.decodes
        &&& self.sun_gen == o.sun_gen
        &&& self.aurora_gen == o.aurora_gen
        &&& self.sent_channel == o.sent_channel
    }

    /// Everything but the product counters.
    pub open spec fn same_state(&self, o: &SolarClient) -> bool {
        &&& self.proto == o.proto
        &&& self.link == o.link
        &&& self.decodes == o.decodes
        &&& self.my_grid == o.my_grid
        &&& self.dx_grid == o.dx_grid
        &&& self.transmitting == o.transmitting
        &&& self.sent_channel == o.sent_channel
    }

    /// Forward a channel or resolution change, once per change.
    ///
    /// Nothing sent before the handshake completes would arrive, so until then
    /// nothing is recorded as sent either.
    pub fn sync_channel(&mut self, channel: u8, resolution: u16) -> (r: Vec<ClientMsg>)
        ensures
            final(self).same_state(
                &SolarClient { sent_channel: final(self).sent_channel, ..*old(self) },
            ),
            final(self).sun_gen == old(self).sun_gen,
            final(self).aurora_gen == old(self).aurora_gen,
            old(self).link is Up ==> {
                &&& r@ == channel_msgs(old(self).sent_channel, channel, resolution)
                &&& final(self).sent_channel == Some((channel, resolution))
            },
            !(old(self).link is Up) ==> {
                &&& r@.len() == 0
                &&& final(self).sent_channel == old(self).sent_channel
            },
    {
        let mut out: Vec<ClientMsg> = Vec::new();
        match &self.link {
            Link::Up => {},
            _ => {
                return out;
            },
        }
        let (c, r) = match self.sent_channel {
            Some(h) => h,
            None => (0u8, DEFAULT_RESOLUTION),
        };
        self.sent_channel = Some((channel, resolution));
        if c != channel {
            out.push(ClientMsg::SetChannel(channel));
        }
        if r != resolution {
            out.push(ClientMsg::SetResolution(resolution));
        }
        assert(out@ =~= channel_msgs(old(self).sent_channel, channel, resolution));
        out
    }

    /// What a message from the server changes.
    pub open spec fn applied(&self, next: &SolarClient, msg: ServerMsg, slot: Slot) -> bool {
        match msg {
            ServerMsg::HelloAck { proto } => {
                &&& next.same_data(self)
                &&& slot == Slot::Nowhere
                &&& proto == self.proto ==> next.link is Up
                &&& proto != self.proto ==> down_with(
                    next.link,
                    mismatch_text(proto, self.proto),
                )
            },
            ServerMsg::Error(e) => {
                &&& next.same_data(self)
                &&& slot == Slot::Nowhere
                &&& down_with(next.link, e@)
            },
            ServerMsg::Pong => *next == *self && slot == Slot::Nowhere,
            ServerMsg::Digi { my_grid, dx_grid, transmitting } => {
                &&& next.same_feed(self)
                &&& slot == Slot::Nowhere
                &&& next.my_grid == my_grid
                &&& next.dx_grid == dx_grid
                &&& next.transmitting == transmitting
            },
            ServerMsg::Decodes(d) => {
                &&& *next == SolarClient { decodes: d, ..*self }
                &&& slot == Slot::Nowhere
            },
            ServerMsg::Product(p) => {
                &&& next.same_state(self)
                &&& slot == slot_of(p)
                &&& next.sun_gen == self.sun_gen + if slot == Slot::Sun {
                    1int
                } else {
                    0
                }
                &&& next.aurora_gen == self.aurora_gen + if slot == Slot::Aurora {
                    1int
                } else {
                    0
                }
            },
        }
    }

    /// Take in a message from the server. Gives where its product, if it is
    /// one, is to be stored.
    pub fn apply(&mut self, msg: ServerMsg) -> (slot: Slot)
        requires
            old(self).sun_gen < u64::MAX,
            old(self).aurora_gen < u64::MAX,
        ensures
            old(self).applied(final(self), msg, slot),
    {
        match msg {
            ServerMsg::HelloAck { proto } => {
                self.link = if proto == self.proto {
                    Link::Up
                } else {
                    let mut s = "solar protocol mismatch: server ".to_owned();
                    s.append(fmt_u64(proto as u64).as_str());
                    s.append(", client ");
                    s.append(fmt_u64(self.proto as u64).as_str());
                    Link::Down(s)
                };
                Slot::Nowhere
            },
            ServerMsg::Error(e) => {
                self.link = Link::Down(e);
                Slot::Nowhere
            },
            ServerMsg::Pong => Slot::Nowhere,
            ServerMsg::Digi { my_grid, dx_grid, transmitting } => {
                self.my_grid = my_grid;
                self.dx_grid = dx_grid;
                self.transmitting = transmitting;
                Slot::Nowhere
            },
            ServerMsg::Decodes(d) => {
                self.decodes = d;
                Slot::Nowhere
            },
            ServerMsg::Product(p) => self.store(p),
        }
    }

    /// Count a product that is stored.
    fn store(&mut self, p: Product) -> (slot: Slot)
        requires
            old(self).sun_gen < u64::MAX,
            old(self).aurora_gen < u64::MAX,
        ensures
            old(self).applied(final(self), ServerMsg::Product(p), slot),
    {
        match p {
            Product::Sun { decoded } => {
                if decoded {
                    self.sun_gen = self.sun_gen + 1;
                    Slot::Sun
                } else {
                    Slot::Nowhere
                }
            },
            Product::Satellites { geo } => {
                if geo {
                    Slot::GeoSatellites
                } else {
                    Slot::AmateurSatellites
                }
            },
            Product::Aurora => {
                self.aurora_gen = self.aurora_gen + 1;
                Slot::Aurora
            },
            Product::Clouds { infrared, decoded } => {
                if !decoded {
                    Slot::Nowhere
                } else if infrared {
                    Slot::InfraredClouds
                } else {
                    Slot::VisibleClouds
                }
            },
            Product::Weather => Slot::Weather,
            Product::Events => Slot::Events,
            Product::Status => Slot::Status,
        }
    }

    /// Take in what the socket reports. Gives the message to send, which is the
    /// greeting once the socket is open: sent earlier it would be lost. Gives
    /// also where a product is to be stored.
    pub fn poll(&mut self, ev: SocketEvent) -> (r: (Option<ClientMsg>, Slot))
        requires
            old(self).sun_gen < u64::MAX,
            old(self).aurora_gen < u64::MAX,
        ensures
            match ev {
                SocketEvent::Opened => {
                    &&& *final(self) == *old(self)
                    &&& r == (Some(ClientMsg::Hello { proto: old(self).proto }), Slot::Nowhere)
                },
                SocketEvent::Message(m) => r.0 is None && old(self).applied(final(self), m, r.1),
                SocketEvent::BadMessage(why) => {
                    &&& final(self).same_data(old(self))
                    &&& r == (None::<ClientMsg>, Slot::Nowhere)
                    &&& down_with(final(self).link, "bad message: "@ + why@)
                },
                SocketEvent::Other => *final(self) == *old(self) && r == (
                    None::<ClientMsg>,
                    Slot::Nowhere,
                ),
                SocketEvent::Error(why) => {
                    &&& final(self).same_data(old(self))
                    &&& r == (None::<ClientMsg>, Slot::Nowhere)
                    &&& down_with(final(self).link, why@)
                },
                SocketEvent::Closed => {
                    &&& final(self).same_data(old(self))
                    &&& r == (None::<ClientMsg>, Slot::Nowhere)
                    &&& down_with(final(self).link, "connection closed"@)
                },
            },
    {
        match ev {
            SocketEvent::Opened => (Some(ClientMsg::Hello { proto: self.proto }), Slot::Nowhere),
            SocketEvent::Message(m) => (None, self.apply(m)),
            SocketEvent::BadMessage(why) => {
                let mut s = "bad message: ".to_owned();
                s.append(why.as_str());
                self.link = Link::Down(s);
                (None, Slot::Nowhere)
            },
            SocketEvent::Other => (None, Slot::Nowhere),
            SocketEvent::Error(why) => {
                self.link = Link::Down(why);
                (None, Slot::Nowhere)
            },
            SocketEvent::Closed => {
                self.link = Link::Down("connection closed".to_owned());
                (None, Slot::Nowhere)
            },
        }
    }
}

/// Copy a server's source status over this viewer's: as many sources as both
/// have, since a server may have another list than this build.
pub fn fill_status<T: Copy>(slots: &mut Vec<T>, from: &[T])
    ensures
        final(slots)@ == Seq::new(
            old(slots)@.len(),
            |i: int|
                if i < from@.len() {
                    from@[i]
                } else {
                    old(slots)@[i]
                },
        ),
{
    let mut i: usize = 0;
    while i < slots.len() && i < from.len()
        invariant
            i <= slots@.len(),
            i <= from@.len(),
            slots@.len() == old(slots)@.len(),
            forall|k: int| 0 <= k < i ==> slots@[k] == from@[k],
            forall|k: int| i <= k < slots@.len() ==> slots@[k] == old(slots)@[k],
        decreases slots@.len() - i,
    {
        slots.set(i, from[i]);
        i = i + 1;
    }
    assert(slots@ =~= Seq::new(
        old(slots)@.len(),
        |i: int|
            if i < from@.len() {
                from@[i]
            } else {
                old(slots)@[i]
            },
    ));
}

/// A channel or resolution is sent once: asking for it again says nothing.
pub proof fn law_channel_sent_once(channel: u8, resolution: u16)
    ensures
        channel_msgs(Some((channel, resolution)), channel, resolution).len() == 0,
{
}

/// A server is told of a channel or a resolution just where it has another: before
/// anything was sent it has channel 0 and a resolution of 1024.
pub proof fn law_changes_are_sent(had: Option<(u8, u16)>, channel: u8, resolution: u16)
    ensures
        ({
            let r = channel_msgs(had, channel, resolution);
            let other_channel = match had {
                Some(h) => h.0 != channel,
                None => channel != 0,
            };
            let other_resolution = match had {
                Some(h) => h.1 != resolution,
                None => resolution != 1024,
            };
            &&& r.contains(ClientMsg::SetChannel(channel)) <==> other_channel
            &&& r.contains(ClientMsg::SetResolution(resolution)) <==> other_resolution
            &&& r.len() == (if other_channel {
                1int
            } else {
                0
            }) + (if other_resolution {
                1int
            } else {
                0
            })
        }),
{
    let r = channel_msgs(had, channel, resolution);
    if r.len() > 0 {
        assert(r[0] == r[0]);
        assert(r.contains(r[0]));
        assert(r.contains(r[r.len() - 1]));
    }
}

/// The link is up just when the server answered the greeting in this viewer's
/// version; an error or another version takes it down, and no other message
/// changes it.
pub proof fn law_only_the_greeting_brings_the_link_up(
    before: SolarClient,
    after: SolarClient,
    msg: ServerMsg,
    slot: Slot,
)
    requires
        before.applied(&after, msg, slot),
    ensures
        match msg {
            ServerMsg::HelloAck { proto } => after.link is Up <==> proto == before.proto,
            ServerMsg::Error(_) => after.link is Down,
            _ => after.link == before.link,
        },
        after.proto == before.proto,
        after.sent_channel == before.sent_channel,
{
}

/// What did not decode is stored nowhere and counts as nothing new; an image of the
/// Sun or an oval that is stored is counted once, so that it is drawn anew.
pub proof fn law_stored_products_are_counted(
    before: SolarClient,
    after: SolarClient,
    p: Product,
    slot: Slot,
)
    requires
        before.applied(&after, ServerMsg::Product(p), slot),
    ensures
        p == (Product::Sun { decoded: false }) || (p matches Product::Clouds { infrared, decoded }
            && !decoded) <==> slot == Slot::Nowhere,
        p == (Product::Sun { decoded: true }) ==> slot == Slot::Sun && after.sun_gen
            == before.sun_gen + 1,
        p != (Product::Sun { decoded: true }) ==> after.sun_gen == before.sun_gen,
        p == Product::Aurora ==> slot == Slot::Aurora && after.aurora_gen == before.aurora_gen + 1,
        p != Product::Aurora ==> after.aurora_gen == before.aurora_gen,
        p == (Product::Clouds { infrared: true, decoded: true }) <==> slot == Slot::InfraredClouds,
        p == (Product::Clouds { infrared: false, decoded: true }) <==> slot == Slot::VisibleClouds,
        p == (Product::Satellites { geo: true }) <==> slot == Slot::GeoSatellites,
        p == (Product::Satellites { geo: false }) <==> slot == Slot::AmateurSatellites,
        p == Product::Weather <==> slot == Slot::Weather,
        p == Product::Events <==> slot == Slot::Events,
        p == Product::Status <==> slot == Slot::Status,
{
}

/// What the server says of the contact and of what was heard is taken over as it is,
/// and each message leaves the rest alone.
pub proof fn law_server_reports_are_taken_over(
    before: SolarClient,
    after: SolarClient,
    msg: ServerMsg,
    slot: Slot,
)
    requires
        before.applied(&after, msg, slot),
    ensures
        msg matches ServerMsg::Digi { my_grid, dx_grid, transmitting } ==> after.my_grid == my_grid
            && after.dx_grid == dx_grid && after.transmitting == transmitting && after.decodes
            == before.decodes,
        msg matches ServerMsg::Decodes(d) ==> after.decodes == d && after.my_grid == before.my_grid
            && after.dx_grid == before.dx_grid && after.transmitting == before.transmitting,
        !(msg is Digi) ==> after.my_grid == before.my_grid && after.dx_grid == before.dx_grid
            && after.transmitting == before.transmitting,
        !(msg is Decodes) ==> after.decodes == before.decodes,
        !(msg is Product) ==> after.sun_gen == before.sun_gen && after.aurora_gen
            == before.aurora_gen && slot == Slot::Nowhere,
{
}

/// A link that is down says why: what the server answered, or which versions do not
/// go together.
pub proof fn law_a_broken_link_says_why(
    before: SolarClient,
    after: SolarClient,
    msg: ServerMsg,
    slot: Slot,
)
    requires
        before.applied(&after, msg, slot),
    ensures
        msg matches ServerMsg::Error(e) ==> (after.link matches Link::Down(s) && s@ == e@),
        msg matches ServerMsg::HelloAck { proto } ==> proto != before.proto ==> (
        after.link matches Link::Down(s) && s@ == "solar protocol mismatch: server "@ + decimal(
            proto as nat,
        ) + ", client "@ + decimal(before.proto as nat)),
{
}

} // verus!
