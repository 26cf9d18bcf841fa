//! Properties that hold across the operations of the library.

use vstd::prelude::*;

use crate::remote::connection::{
    ClientType, ConnectionView, role_name, other_role, role_taken, one_per_role, is_partner, kind_named,
};
use crate::remote::message::{
    MessageView, processed_view, names_a_client, has_type, heartbeat_response_view,
    disconnect_view, connect_view, send_confirmation_view, confirmation_view, rejection_view,
    confirmation_text,
};
use crate::remote::heartbeat::timed_out;
use crate::remote::message::{WrappedMessage, is_forward_target};
use crate::remote::handler::{
    ClientEvent, DeliveryView, PayloadView, expected_deliveries, keeps_open, to_self, refreshes_heartbeat,
};
use crate::center::message::{client_message, rendered};

verus! {

/// Admitting a client under a new id and then removing it gives back the
/// table as it was.
pub proof fn add_then_remove_restores<T>(m: Map<Seq<char>, ConnectionView<T>>, id: Seq<char>, conn: ConnectionView<T>)
    requires
        !m.contains_key(id),
    ensures
        m.insert(id, conn).remove(id) == m,
{
    assert(m.insert(id, conn).remove(id) =~= m);
}

/// Admitting a client whose kind is free in its group keeps at most one
/// client of each kind per group.
pub proof fn admission_keeps_one_per_role<T>(m: Map<Seq<char>, ConnectionView<T>>, id: Seq<char>, conn: ConnectionView<T>)
    requires
        one_per_role(m),
        !role_taken(m, conn.client_type, conn.group_id),
    ensures
        one_per_role(m.insert(id, conn)),
{
    let m2 = m.insert(id, conn);
    assert forall|a: Seq<char>, b: Seq<char>|
        #![trigger m2.contains_key(a), m2.contains_key(b)]
        m2.contains_key(a) && m2.contains_key(b) && m2[a].client_type == m2[b].client_type
            && m2[a].group_id == m2[b].group_id implies a == b by {
        if a != id && b != id {
            assert(m.contains_key(a) && m.contains_key(b));
        } else if a == id && b != id {
            assert(m.contains_key(b));
        } else if b == id && a != id {
            assert(m.contains_key(a));
        }
    }
}

/// Partnership is mutual: if `b` is the partner of `a`, `a` is the partner of `b`.
pub proof fn partner_is_mutual<T>(m: Map<Seq<char>, ConnectionView<T>>, a: Seq<char>, b: Seq<char>)
    requires
        is_partner(m, a, b),
    ensures
        is_partner(m, b, a),
{
}

/// A client has at most one partner.
pub proof fn partner_is_unique<T>(m: Map<Seq<char>, ConnectionView<T>>, a: Seq<char>, b: Seq<char>, c: Seq<char>)
    requires
        one_per_role(m),
        is_partner(m, a, b),
        is_partner(m, a, c),
    ensures
        b == c,
{
    assert(m[b].client_type == other_role(m[a].client_type)) by {
        match m[a].client_type {
            ClientType::Center => {},
            ClientType::Local => {},
        }
    }
    assert(m[c].client_type == other_role(m[a].client_type)) by {
        match m[a].client_type {
            ClientType::Center => {},
            ClientType::Local => {},
        }
    }
    assert(m.contains_key(b) && m.contains_key(c));
}

/// The notices about a client of kind `t` are addressed to the kind of its
/// partner.
pub proof fn notices_reach_the_partner_kind<T>(m: Map<Seq<char>, ConnectionView<T>>, a: Seq<char>, b: Seq<char>)
    requires
        is_partner(m, a, b),
    ensures
        disconnect_view(m[a].group_id, m[a].client_type).receiver_type == role_name(m[b].client_type),
        connect_view(m[a].group_id, m[a].client_type).receiver_type == role_name(m[b].client_type),
{
    match m[a].client_type {
        ClientType::Center => {},
        ClientType::Local => {},
    }
}

/// The server rewrites an envelope once and for all: rewriting it again for
/// the same client changes nothing, and the receiver always names a client kind.
pub proof fn processing_is_idempotent(msg: MessageView, t: ClientType, g: Seq<char>)
    ensures
        processed_view(processed_view(msg, t, g), t, g) == processed_view(msg, t, g),
        names_a_client(processed_view(msg, t, g).receiver_type),
        processed_view(msg, t, g).sender_type == role_name(t),
        processed_view(msg, t, g).group_id == g,
        processed_view(msg, t, g).content == msg.content,
{
    match t {
        ClientType::Center => {},
        ClientType::Local => {},
    }
}

/// A plain message the center client writes for the local client, relayed
/// by the server for a center client of group `g`, keeps its text and
/// receiver and carries the group and kind of the connection.
pub proof fn client_message_is_relayed_as_written(g0: Seq<char>, s: Seq<char>, content: Seq<char>, g: Seq<char>)
    ensures
        processed_view(client_message(g0, s, "local"@, content, None), ClientType::Center, g)
            == client_message(g, "center"@, "local"@, content, None),
{
}

/// A client just heard from is not timed out, and a client timed out stays
/// timed out as time goes on.
pub proof fn heartbeat_expiry_is_monotone(last: u64, now: u64, later: u64, timeout_seconds: u64)
    ensures
        !timed_out(last, last, timeout_seconds),
        timed_out(now, last, timeout_seconds) && now <= later ==> timed_out(later, last, timeout_seconds),
{
}

/// The notices the server writes are recognised by their type on the
/// client side and rendered as such.
pub proof fn server_notices_are_recognised(g: Seq<char>, t: ClientType)
    ensures
        has_type(heartbeat_response_view(g, t), "heartbeat"@),
        has_type(disconnect_view(g, t), "disconnect"@),
        has_type(connect_view(g, t), "connect"@),
        rendered(heartbeat_response_view(g, t)) == "[心跳响应]: "@ + "心跳确认"@,
        rendered(disconnect_view(g, t)) == "[断开通知]: "@ + (role_name(t) + "已断开连接"@),
        rendered(connect_view(g, t)) == "[上线通知]: "@ + (role_name(t) + "已上线连接"@),
{
    reveal_strlit("heartbeat");
    reveal_strlit("disconnect");
    reveal_strlit("connect");
    assert("disconnect"@.len() != "heartbeat"@.len());
    assert("connect"@.len() != "heartbeat"@.len());
    assert("connect"@.len() != "disconnect"@.len());
}

/// A client that announces its departure gets the acknowledgement and
/// nothing else, and its session ends; the partner is told once, by the
/// last step of the session (`WebSocketHandler::handle_disconnect`).
pub proof fn departure_ends_the_session<T>(
    m: Map<Seq<char>, ConnectionView<T>>,
    me: Seq<char>,
    t: ClientType,
    g: Seq<char>,
    msg: WrappedMessage,
)
    requires
        has_type(msg@, "disconnect"@),
    ensures
        !keeps_open(ClientEvent::Text(msg)),
        expected_deliveries(m, me, t, g, ClientEvent::Text(msg))
            == to_self(m, me, PayloadView::Envelope(send_confirmation_view(g, t))),
{
    reveal_strlit("heartbeat");
    reveal_strlit("disconnect");
    assert("disconnect"@.len() != "heartbeat"@.len());
}

/// A plain message is relayed, rewritten, to its target, if any.
pub proof fn message_reaches_its_target<T>(
    m: Map<Seq<char>, ConnectionView<T>>,
    me: Seq<char>,
    t: ClientType,
    g: Seq<char>,
    msg: WrappedMessage,
    b: Seq<char>,
)
    requires
        one_per_role(m),
        msg@.message_type is None,
        is_forward_target(m, me, processed_view(msg@, t, g), b),
    ensures
        expected_deliveries(m, me, t, g, ClientEvent::Text(msg)).contains(
            DeliveryView { to: b, payload: PayloadView::Envelope(processed_view(msg@, t, g)) }),
{
    let p = processed_view(msg@, t, g);
    let c = choose|c: Seq<char>| #[trigger] is_forward_target(m, me, p, c);
    assert(m.contains_key(b) && m.contains_key(c));
    assert(c == b);
    let d = expected_deliveries(m, me, t, g, ClientEvent::Text(msg));
    assert(d[0] == DeliveryView { to: b, payload: PayloadView::Envelope(p) });
}

/// Only a client of the same kind in the same group blocks an admission: a
/// kind is taken in a group exactly when some connected client has that kind
/// and that group; clients of the other kind, or of other groups, never
/// block it.
pub proof fn only_same_kind_same_group_blocks<T>(m: Map<Seq<char>, ConnectionView<T>>, t: ClientType, g: Seq<char>, id: Seq<char>)
    ensures
        (m.contains_key(id) && m[id].client_type == t && m[id].group_id == g) ==> role_taken(m, t, g),
        (forall|b: Seq<char>| #[trigger] m.contains_key(b) ==> m[b].client_type != t || m[b].group_id != g)
            ==> !role_taken(m, t, g),
        (forall|b: Seq<char>| #[trigger] m.contains_key(b) ==> m[b].client_type == other_role(t))
            ==> !role_taken(m, t, g),
{
    if m.contains_key(id) {
        assert(m.contains_key(id));
    }
    match t {
        ClientType::Center => {},
        ClientType::Local => {},
    }
}

/// A center and a local can form a pair in a group whichever joins first:
/// once a client of kind `t` joins group `g`, where neither kind was taken,
/// the other kind is still free there and `t` itself is taken.
pub proof fn pair_forms_in_either_order<T>(m: Map<Seq<char>, ConnectionView<T>>, id: Seq<char>, t: ClientType, g: Seq<char>, tx: T)
    requires
        !role_taken(m, t, g),
        !role_taken(m, other_role(t), g),
    ensures
        !role_taken(m.insert(id, ConnectionView { client_type: t, group_id: g, tx }), other_role(t), g),
        role_taken(m.insert(id, ConnectionView { client_type: t, group_id: g, tx }), t, g),
{
    let m2 = m.insert(id, ConnectionView { client_type: t, group_id: g, tx });
    assert(m2.contains_key(id));
    if role_taken(m2, other_role(t), g) {
        let b = choose|b: Seq<char>| #[trigger] m2.contains_key(b) && m2[b].client_type == other_role(t) && m2[b].group_id == g;
        if b == id {
            match t {
                ClientType::Center => {},
                ClientType::Local => {},
            }
        } else {
            assert(m.contains_key(b));
        }
    }
}

/// Each kind is named by its wire name, and the two names differ.
pub proof fn kinds_are_named(t: ClientType)
    ensures
        kind_named(role_name(t)) == Some(t),
        role_name(t) != role_name(other_role(t)),
        other_role(other_role(t)) == t,
        other_role(t) != t,
{
    reveal_strlit("center");
    reveal_strlit("local");
    assert("center"@.len() != "local"@.len());
}

/// An envelope whose receiver field names a kind reaches every connected
/// client of that kind in the envelope's group other than the sender, for
/// either kind; and a target always has the named kind, the envelope's
/// group, and is not the sender.
pub proof fn forward_reaches_the_named_kind<T>(m: Map<Seq<char>, ConnectionView<T>>, sender: Seq<char>, msg: MessageView, b: Seq<char>)
    ensures
        (m.contains_key(b) && b != sender && msg.receiver_type == role_name(m[b].client_type)
            && m[b].group_id == msg.group_id) ==> is_forward_target(m, sender, msg, b),
        is_forward_target(m, sender, msg, b) ==> m.contains_key(b) && b != sender
            && msg.receiver_type == role_name(m[b].client_type) && m[b].group_id == msg.group_id,
{
    reveal_strlit("center");
    reveal_strlit("local");
    assert("center"@.len() != "local"@.len());
    if m.contains_key(b) {
        kinds_are_named(m[b].client_type);
    }
}

/// Every text envelope except a notice of departure keeps the session open,
/// whatever its receiver or content; a notice of departure ends it.
pub proof fn only_departure_ends_a_session(msg: WrappedMessage)
    ensures
        msg@.message_type != Some("disconnect"@) ==> keeps_open(ClientEvent::Text(msg)),
        msg@.message_type == Some("disconnect"@) ==> !keeps_open(ClientEvent::Text(msg)),
{
    reveal_strlit("heartbeat");
    reveal_strlit("disconnect");
    assert("disconnect"@.len() != "heartbeat"@.len());
}

/// Every text envelope, whatever its type, and every ping or pong counts as
/// a sign of life; close frames, other frames and failed reads do not.
pub proof fn every_envelope_is_a_sign_of_life(msg: WrappedMessage)
    ensures
        refreshes_heartbeat(ClientEvent::Text(msg)),
        refreshes_heartbeat(ClientEvent::Ping),
        refreshes_heartbeat(ClientEvent::Pong),
        !refreshes_heartbeat(ClientEvent::Close),
        !refreshes_heartbeat(ClientEvent::Failed),
        !refreshes_heartbeat(ClientEvent::Malformed),
        !refreshes_heartbeat(ClientEvent::Binary),
        !refreshes_heartbeat(ClientEvent::Frame),
{
}

/// Every envelope the server writes for group `g` carries that group and
/// "server" as sender, for either kind of client; replies go to the client's
/// own kind and notices about a client to the other kind.
pub proof fn server_envelopes_carry_the_group(g: Seq<char>, t: ClientType, id: Seq<char>)
    ensures
        connect_view(g, t).group_id == g,
        connect_view(g, t).sender_type == "server"@,
        connect_view(g, t).receiver_type == role_name(other_role(t)),
        connect_view(g, t).content == role_name(t) + "已上线连接"@,
        connect_view(g, t).message_type == Some("connect"@),
        disconnect_view(g, t).group_id == g,
        disconnect_view(g, t).sender_type == "server"@,
        disconnect_view(g, t).receiver_type == role_name(other_role(t)),
        disconnect_view(g, t).content == role_name(t) + "已断开连接"@,
        disconnect_view(g, t).message_type == Some("disconnect"@),
        heartbeat_response_view(g, t).group_id == g,
        heartbeat_response_view(g, t).sender_type == "server"@,
        heartbeat_response_view(g, t).receiver_type == role_name(t),
        rejection_view(g, t).group_id == g,
        rejection_view(g, t).sender_type == "server"@,
        rejection_view(g, t).receiver_type == role_name(t),
        send_confirmation_view(g, t).group_id == g,
        send_confirmation_view(g, t).sender_type == "server"@,
        send_confirmation_view(g, t).receiver_type == role_name(t),
        confirmation_view(g, t, id).group_id == g,
        confirmation_view(g, t, id).sender_type == "server"@,
        confirmation_view(g, t, id).receiver_type == role_name(t),
        confirmation_view(g, t, id).content == "连接成功，您的ID是: "@ + id,
{
}

} // verus!
