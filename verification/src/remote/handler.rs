use vstd::prelude::*;

use crate::remote::connection::{
    ClientType, ConnectionManager, ConnectionView, is_v4_uuid_text, role_taken, is_partner, has_partner,
    is_member_of, other_role, other_kind, kind_named, kind_from_name,
};
use crate::remote::heartbeat::{HeartbeatManager, HeartbeatView};
use crate::remote::message::{
    WrappedMessage, MessageView, MessageService, is_forward_target, has_type, processed_view,
    rejection_view, confirmation_view, connect_view, disconnect_view, heartbeat_response_view,
    send_confirmation_view,
};

verus! {

/// What the server reads from a client's socket, after the text frames have
/// been decoded: an envelope, a text frame that is no envelope, or one of
/// the other kinds of frames, or a failed read.
pub enum ClientEvent {
    Text(WrappedMessage),
    Malformed,
    Binary,
    Ping,
    Pong,
    Close,
    Frame,
    Failed,
}

/// What the server writes to a client: an envelope or a pong frame.
pub enum Payload {
    Envelope(WrappedMessage),
    Pong,
}

/// The value of a payload.
pub enum PayloadView {
    Envelope(MessageView),
    Pong,
}

impl View for Payload {
    type V = PayloadView;

    open spec fn view(&self) -> PayloadView {
        match self {
            Payload::Envelope(m) => PayloadView::Envelope(m@),
            Payload::Pong => PayloadView::Pong,
        }
    }
}

/// A payload for the connected client `to`.
pub struct Delivery {
    pub to: String,
    pub payload: Payload,
}

/// The value of a delivery.
pub struct DeliveryView {
    pub to: Seq<char>,
    pub payload: PayloadView,
}

impl View for Delivery {
    type V = DeliveryView;

    open spec fn view(&self) -> DeliveryView {
        DeliveryView { to: self.to@, payload: self.payload@ }
    }
}

/// The values of a list of deliveries, in order.
pub open spec fn deliveries_view(v: Seq<Delivery>) -> Seq<DeliveryView> {
    v.map_values(|d: Delivery| d@)
}

/// What the server does after reading one event from a client: the
/// deliveries to make, in order, and whether to keep reading.
pub struct SessionStep {
    pub deliveries: Vec<Delivery>,
    pub keep_open: bool,
}

/// The answer to a client that asks to join.
pub enum Admission {
    /// A client of that kind is already in the group: send this and close.
    Rejected(WrappedMessage),
    /// Registered under `client_id`: send `confirmation` to the client.
    Accepted { client_id: String, confirmation: WrappedMessage },
}

/// A payload for `me`, when `me` is connected.
pub open spec fn to_self<T>(m: Map<Seq<char>, ConnectionView<T>>, me: Seq<char>, payload: PayloadView) -> Seq<DeliveryView> {
    if m.contains_key(me) {
        seq![DeliveryView { to: me, payload }]
    } else {
        seq![]
    }
}

/// Whether `b` is the counterpart of the connected client `me` of kind `t`
/// in group `g`: another connected client of that group, of the other kind.
pub open spec fn is_counterpart<T>(m: Map<Seq<char>, ConnectionView<T>>, me: Seq<char>, g: Seq<char>, t: ClientType, b: Seq<char>) -> bool {
    &&& m.contains_key(me)
    &&& is_member_of(m, other_role(t), g, me, b)
}

/// The relay of an envelope `msg` from `me` to its target, if any.
pub open spec fn forward_notice<T>(m: Map<Seq<char>, ConnectionView<T>>, me: Seq<char>, msg: MessageView) -> Seq<DeliveryView> {
    if exists|b: Seq<char>| #[trigger] is_forward_target(m, me, msg, b) {
        let b = choose|b: Seq<char>| #[trigger] is_forward_target(m, me, msg, b);
        seq![DeliveryView { to: b, payload: PayloadView::Envelope(msg) }]
    } else {
        seq![]
    }
}

/// The deliveries owed after client `me`, of kind `t` in group `g`, sent
/// `event`, when the connection table is `m`.
pub open spec fn expected_deliveries<T>(m: Map<Seq<char>, ConnectionView<T>>, me: Seq<char>, t: ClientType, g: Seq<char>, event: ClientEvent) -> Seq<DeliveryView> {
    match event {
        ClientEvent::Text(msg) => {
            if has_type(msg@, "heartbeat"@) {
                to_self(m, me, PayloadView::Envelope(heartbeat_response_view(g, t)))
            } else if has_type(msg@, "disconnect"@) {
                to_self(m, me, PayloadView::Envelope(send_confirmation_view(g, t)))
            } else {
                forward_notice(m, me, processed_view(msg@, t, g))
                    + to_self(m, me, PayloadView::Envelope(send_confirmation_view(g, t)))
            }
        },
        ClientEvent::Ping => to_self(m, me, PayloadView::Pong),
        _ => seq![],
    }
}

/// Whether the server keeps reading from a client after `event`.
pub open spec fn keeps_open(event: ClientEvent) -> bool {
    match event {
        ClientEvent::Text(msg) => has_type(msg@, "heartbeat"@) || !has_type(msg@, "disconnect"@),
        ClientEvent::Close => false,
        ClientEvent::Failed => false,
        _ => true,
    }
}

/// Whether `event` shows that the client is alive.
pub open spec fn refreshes_heartbeat(event: ClientEvent) -> bool {
    match event {
        ClientEvent::Text(_) => true,
        ClientEvent::Ping => true,
        ClientEvent::Pong => true,
        _ => false,
    }
}

/// The counterpart of the connected client `client_id`, of kind
/// `client_type` in group `group_id`: another connected client of that
/// group, of the other kind, with its kind.
pub fn find_partner_connection<T>(connections: &ConnectionManager<T>, client_id: &str, group_id: &str, client_type: &ClientType) -> (r: Option<(String, ClientType)>)
    requires
        connections.wf(),
    ensures
        r is Some <==> exists|b: Seq<char>| #[trigger] is_counterpart(connections@, client_id@, group_id@, *client_type, b),
        r matches Some((p, pt)) ==> is_counterpart(connections@, client_id@, group_id@, *client_type, p@)
            && pt == connections@[p@].client_type,
{
    match connections.sender(client_id) {
        None => None,
        Some(_) => {
            let other = other_kind(*client_type);
            let found = connections.members_of(other, group_id, client_id);
            if found.len() == 0 {
                proof {
                    assert forall|b: Seq<char>| !(#[trigger] is_counterpart(connections@, client_id@, group_id@, *client_type, b)) by {
                        if is_counterpart(connections@, client_id@, group_id@, *client_type, b) {
                            assert(is_member_of(connections@, other, group_id@, client_id@, b));
                        }
                    }
                }
                None
            } else {
                let p = crate::text::copy_text(&found[0]);
                proof {
                    assert(is_member_of(connections@, other, group_id@, client_id@, found@[0]@));
                    assert(is_counterpart(connections@, client_id@, group_id@, *client_type, p@));
                }
                Some((p, other))
            }
        },
    }
}

/// The notice for `partner_id` that a client of kind `client_type` in group
/// `group_id` left, with the channel to deliver it on; `None` when
/// `partner_id` is not connected.
pub fn notify_partner_disconnect<'a, T>(connections: &'a ConnectionManager<T>, partner_id: &str, client_type: ClientType, group_id: String, message_service: &MessageService) -> (r: Option<(&'a T, WrappedMessage)>)
    requires
        connections.wf(),
    ensures
        r is Some <==> connections@.contains_key(partner_id@),
        r matches Some((tx, m)) ==> *tx == connections@[partner_id@].tx && m@ == disconnect_view(group_id@, client_type),
{
    match connections.sender(partner_id) {
        None => None,
        Some(tx) => Some((tx, message_service.build_disconnect_message(group_id, client_type))),
    }
}

/// The server: who is connected, who was last heard from when, and how
/// envelopes are written.
pub struct WebSocketHandler<T> {
    pub connection_manager: ConnectionManager<T>,
    pub message_service: MessageService,
    pub heartbeat_manager: HeartbeatManager,
}

impl<T> WebSocketHandler<T> {
    pub open spec fn wf(&self) -> bool {
        &&& self.connection_manager.wf()
        &&& self.heartbeat_manager.wf()
    }

    pub fn new(connection_manager: ConnectionManager<T>, heartbeat_manager: HeartbeatManager) -> (r: WebSocketHandler<T>)
        ensures
            r.connection_manager == connection_manager,
            r.heartbeat_manager == heartbeat_manager,
    {
        WebSocketHandler { connection_manager, message_service: MessageService::new(), heartbeat_manager }
    }

    /// The kind and group a client announces in its first envelope; `None`
    /// when its sender field names no client kind.
    pub fn parse_client_info(&self, init_msg: &WrappedMessage) -> (r: Option<(ClientType, String)>)
        ensures
            r is Some <==> kind_named(init_msg@.sender_type) is Some,
            r matches Some((t, g)) ==> kind_named(init_msg@.sender_type) == Some(t) && g@ == init_msg@.group_id,
    {
        match kind_from_name(init_msg.sender_type.as_str()) {
            None => None,
            Some(t) => Some((t, crate::text::copy_text(&init_msg.group_id))),
        }
    }

    /// Admits a client of kind `client_type` to group `group_id`, reachable
    /// on `tx`, at time `now`: refused with a rejection when its kind is
    /// taken in the group; otherwise registered under a fresh id, with a
    /// heartbeat record at `now`, and answered with a confirmation.
    pub fn admit_client(&mut self, client_type: ClientType, group_id: String, tx: T, now: u64) -> (r: Admission)
        requires
            old(self).wf(),
        ensures
            final(self).wf(),
            final(self).heartbeat_manager.timeout_seconds() == old(self).heartbeat_manager.timeout_seconds(),
            match r {
                Admission::Rejected(m) => {
                    &&& role_taken(old(self).connection_manager@, client_type, group_id@)
                    &&& m@ == rejection_view(group_id@, client_type)
                    &&& final(self).connection_manager@ == old(self).connection_manager@
                    &&& final(self).heartbeat_manager@ == old(self).heartbeat_manager@
                },
                Admission::Accepted { client_id, confirmation } => {
                    &&& !role_taken(old(self).connection_manager@, client_type, group_id@)
                    &&& is_v4_uuid_text(client_id@)
                    &&& final(self).connection_manager@ == old(self).connection_manager@.insert(
                        client_id@, ConnectionView { client_type, group_id: group_id@, tx })
                    &&& final(self).heartbeat_manager@ == old(self).heartbeat_manager@.insert(
                        client_id@, HeartbeatView { last_heartbeat: now, client_type, group_id: group_id@ })
                    &&& confirmation@ == confirmation_view(group_id@, client_type, client_id@)
                },
            },
    {
        if !self.connection_manager.validate_new_connection(&client_type, group_id.as_str()) {
            return Admission::Rejected(self.message_service.build_rejection_message(group_id, client_type));
        }
        let client_id = self.connection_manager.generate_client_id();
        let added = self.connection_manager.add_connection(
            crate::text::copy_text(&client_id), client_type, crate::text::copy_text(&group_id), tx);
        assert(added);
        self.heartbeat_manager.update_heartbeat(client_id.as_str(), client_type, crate::text::copy_text(&group_id), now);
        let confirmation = self.message_service.build_confirmation_message(group_id, client_type, crate::text::copy_text(&client_id));
        Admission::Accepted { client_id, confirmation }
    }

    /// The notice for `partner_id` that a client of kind `client_type` in
    /// group `group_id` joined, with the channel to deliver it on.
    pub fn notify_partner_connect(&self, partner_id: &str, client_type: ClientType, group_id: String) -> (r: Option<(&T, WrappedMessage)>)
        requires
            self.wf(),
        ensures
            r is Some <==> self.connection_manager@.contains_key(partner_id@),
            r matches Some((tx, m)) ==> *tx == self.connection_manager@[partner_id@].tx
                && m@ == connect_view(group_id@, client_type),
    {
        self.connection_manager.notify_partner_connect(partner_id, client_type, group_id)
    }

    /// The notice owed to the partner of the newly admitted `client_id`, of
    /// kind `client_type` in group `group_id`, that it joined, with the
    /// partner's channel; `None` when it has no partner.
    pub fn partner_join_notice(&self, client_id: &str, client_type: ClientType, group_id: String) -> (r: Option<(&T, WrappedMessage)>)
        requires
            self.wf(),
        ensures
            r is Some <==> has_partner(self.connection_manager@, client_id@),
            r matches Some((tx, m)) ==> (exists|p: Seq<char>| #[trigger] is_partner(self.connection_manager@, client_id@, p)
                && *tx == self.connection_manager@[p].tx)
                && m@ == connect_view(group_id@, client_type),
    {
        match self.connection_manager.find_partner(client_id) {
            None => None,
            Some((partner_id, _)) => self.notify_partner_connect(partner_id.as_str(), client_type, group_id),
        }
    }

    /// Appends `payload` for `client_id` to `deliveries` when it is connected.
    fn reply_to_self(&self, client_id: &str, payload: Payload, deliveries: &mut Vec<Delivery>)
        requires
            self.wf(),
        ensures
            deliveries_view(final(deliveries)@) == deliveries_view(old(deliveries)@)
                + to_self(self.connection_manager@, client_id@, payload@),
    {
        let ghost before = deliveries@;
        if self.connection_manager.sender(client_id).is_some() {
            deliveries.push(Delivery { to: String::from_str(client_id), payload });
            assert(deliveries_view(deliveries@) =~= deliveries_view(before)
                + to_self(self.connection_manager@, client_id@, payload@));
        } else {
            assert(deliveries_view(deliveries@) =~= deliveries_view(before)
                + to_self(self.connection_manager@, client_id@, payload@));
        }
    }

    /// One step of the session of client `client_id`, of kind `client_type`
    /// in group `group_id`, after reading `event` at time `now`: a heartbeat
    /// is answered; a notice of departure is acknowledged and ends the
    /// session, whose last step, `handle_disconnect`, tells the partner; any other envelope is rewritten,
    /// relayed to its target and acknowledged; a ping is answered with a
    /// pong; a close or a failed read ends the session. Envelopes, pings and
    /// pongs count as signs of life.
    pub fn handle_client_message(&mut self, client_id: &str, client_type: ClientType, group_id: &str, event: ClientEvent, now: u64) -> (r: SessionStep)
        requires
            old(self).wf(),
        ensures
            final(self).wf(),
            final(self).connection_manager == old(self).connection_manager,
            final(self).heartbeat_manager.timeout_seconds() == old(self).heartbeat_manager.timeout_seconds(),
            final(self).heartbeat_manager@ == if refreshes_heartbeat(event) {
                old(self).heartbeat_manager@.insert(client_id@, HeartbeatView { last_heartbeat: now, client_type, group_id: group_id@ })
            } else {
                old(self).heartbeat_manager@
            },
            r.keep_open == keeps_open(event),
            deliveries_view(r.deliveries@) == expected_deliveries(old(self).connection_manager@, client_id@, client_type, group_id@, event),
    {
        let ghost m = self.connection_manager@;
        let ghost ev = event;
        let mut deliveries: Vec<Delivery> = Vec::new();
        assert(deliveries_view(deliveries@) =~= seq![]);
        match event {
            ClientEvent::Text(parsed_msg) => {
                self.heartbeat_manager.update_heartbeat(client_id, client_type, String::from_str(group_id), now);
                if self.message_service.is_heartbeat(&parsed_msg) {
                    let response = self.message_service.build_heartbeat_response(String::from_str(group_id), client_type);
                    self.reply_to_self(client_id, Payload::Envelope(response), &mut deliveries);
                    assert(deliveries_view(deliveries@) =~= expected_deliveries(m, client_id@, client_type, group_id@, ev));
                    return SessionStep { deliveries, keep_open: true };
                }
                if self.message_service.is_disconnect(&parsed_msg) {
                    let confirm = self.message_service.build_send_confirmation(String::from_str(group_id), client_type);
                    self.reply_to_self(client_id, Payload::Envelope(confirm), &mut deliveries);
                    assert(deliveries_view(deliveries@) =~= expected_deliveries(m, client_id@, client_type, group_id@, ev));
                    return SessionStep { deliveries, keep_open: false };
                }
                let processed_msg = self.message_service.process_message(parsed_msg, &client_type, group_id, client_id);
                let targets = self.message_service.forward_message(&processed_msg, &self.connection_manager, client_id);
                if targets.len() == 1 {
                    let target = crate::text::copy_text(&targets[0]);
                    proof {
                        let b = choose|b: Seq<char>| #[trigger] is_forward_target(m, client_id@, processed_msg@, b);
                        assert(is_forward_target(m, client_id@, processed_msg@, target@));
                        self.connection_manager.lemma_one_per_role();
                        assert(m.contains_key(b) && m.contains_key(target@));
                        assert(b == target@);
                    }
                    deliveries.push(Delivery { to: target, payload: Payload::Envelope(processed_msg) });
                    assert(deliveries_view(deliveries@) =~= forward_notice(m, client_id@, processed_view(parsed_msg@, client_type, group_id@)));
                } else {
                    proof {
                        assert forall|b: Seq<char>| !(#[trigger] is_forward_target(m, client_id@, processed_msg@, b)) by {
                            if is_forward_target(m, client_id@, processed_msg@, b) {
                                let i = choose|i: int| 0 <= i < targets@.len() && #[trigger] targets@[i]@ == b;
                            }
                        }
                    }
                    assert(deliveries_view(deliveries@) =~= forward_notice(m, client_id@, processed_view(parsed_msg@, client_type, group_id@)));
                }
                let confirm = self.message_service.build_send_confirmation(String::from_str(group_id), client_type);
                self.reply_to_self(client_id, Payload::Envelope(confirm), &mut deliveries);
                assert(deliveries_view(deliveries@) =~= expected_deliveries(m, client_id@, client_type, group_id@, ev));
                SessionStep { deliveries, keep_open: true }
            },
            ClientEvent::Ping => {
                self.reply_to_self(client_id, Payload::Pong, &mut deliveries);
                self.heartbeat_manager.update_heartbeat(client_id, client_type, String::from_str(group_id), now);
                assert(deliveries_view(deliveries@) =~= expected_deliveries(m, client_id@, client_type, group_id@, ev));
                SessionStep { deliveries, keep_open: true }
            },
            ClientEvent::Pong => {
                self.heartbeat_manager.update_heartbeat(client_id, client_type, String::from_str(group_id), now);
                SessionStep { deliveries, keep_open: true }
            },
            ClientEvent::Close => SessionStep { deliveries, keep_open: false },
            ClientEvent::Failed => SessionStep { deliveries, keep_open: false },
            ClientEvent::Malformed => SessionStep { deliveries, keep_open: true },
            ClientEvent::Binary => SessionStep { deliveries, keep_open: true },
            ClientEvent::Frame => SessionStep { deliveries, keep_open: true },
        }
    }

    /// Ends the session of `client_id`: drops it from the connection table
    /// and, when it was there, from the heartbeat records; then gives back
    /// the notice owed to its partner, found before the removal: the
    /// partner's id and the disconnect message for the client's kind and
    /// group. `None` when the client was not connected or had no partner.
    pub fn handle_disconnect(&mut self, client_id: &str) -> (r: Option<(String, WrappedMessage)>)
        requires
            old(self).wf(),
        ensures
            final(self).wf(),
            final(self).heartbeat_manager.timeout_seconds() == old(self).heartbeat_manager.timeout_seconds(),
            final(self).connection_manager@ == old(self).connection_manager@.remove(client_id@),
            final(self).heartbeat_manager@ == if old(self).connection_manager@.contains_key(client_id@) {
                old(self).heartbeat_manager@.remove(client_id@)
            } else {
                old(self).heartbeat_manager@
            },
            r is Some <==> has_partner(old(self).connection_manager@, client_id@),
            r matches Some((p, m)) ==> {
                &&& is_partner(old(self).connection_manager@, client_id@, p@)
                &&& final(self).connection_manager@.contains_key(p@)
                &&& m@ == disconnect_view(
                    old(self).connection_manager@[client_id@].group_id,
                    old(self).connection_manager@[client_id@].client_type,
                )
            },
    {
        let partner = self.connection_manager.find_partner(client_id);
        if let Some((client_type, group_id)) = self.connection_manager.remove_connection(client_id) {
            self.heartbeat_manager.remove_heartbeat(client_id);
            if let Some((partner_id, _)) = partner {
                if let Some((_, notice)) = self.connection_manager.notify_partner_disconnect(partner_id.as_str(), client_type, group_id) {
                    return Some((partner_id, notice));
                }
            }
        }
        None
    }
}

} // verus!
