use vstd::prelude::*;

use crate::remote::connection::{
    ClientType, ConnectionManager, ConnectionView, role_name, other_role, other_kind, kind_named, kind_from_name,
    is_member_of,
};
use crate::text::{same_text, optional_text_is, copy_text, copy_optional_text};

verus! {

/// The envelope of every message exchanged between clients and the server.
#[derive(Debug, Clone, PartialEq, Eq)]
pub struct WrappedMessage {
    /// The group the message belongs to.
    pub group_id: String,
    /// Who sent it: "center", "local" or "server".
    pub sender_type: String,
    /// Who it is for: "center", "local" or "server".
    pub receiver_type: String,
    /// The text of the message.
    pub content: String,
    /// "heartbeat", "disconnect", "connect", "rejection", or none for a plain message.
    pub message_type: Option<String>,
}

/// The mathematical value of an envelope: each field as a sequence of characters.
pub struct MessageView {
    pub group_id: Seq<char>,
    pub sender_type: Seq<char>,
    pub receiver_type: Seq<char>,
    pub content: Seq<char>,
    pub message_type: Option<Seq<char>>,
}

impl View for WrappedMessage {
    type V = MessageView;

    open spec fn view(&self) -> MessageView {
        MessageView {
            group_id: self.group_id@,
            sender_type: self.sender_type@,
            receiver_type: self.receiver_type@,
            content: self.content@,
            message_type: match self.message_type {
                Some(s) => Some(s@),
                None => None,
            },
        }
    }
}

impl WrappedMessage {
    /// A field-by-field copy of this envelope.
    pub fn duplicate(&self) -> (r: WrappedMessage)
        ensures
            r@ == self@,
    {
        WrappedMessage {
            group_id: copy_text(&self.group_id),
            sender_type: copy_text(&self.sender_type),
            receiver_type: copy_text(&self.receiver_type),
            content: copy_text(&self.content),
            message_type: copy_optional_text(&self.message_type),
        }
    }
}

/// An envelope that the server writes to one client.
pub open spec fn server_message(
    group_id: Seq<char>,
    receiver_type: Seq<char>,
    content: Seq<char>,
    message_type: Option<Seq<char>>,
) -> MessageView {
    MessageView { group_id, sender_type: "server"@, receiver_type, content, message_type }
}

/// The text that tells a newly admitted client its id.
pub open spec fn confirmation_text(client_id: Seq<char>) -> Seq<char> {
    "连接成功，您的ID是: "@ + client_id
}

/// The reply to a newly admitted client.
pub open spec fn confirmation_view(group_id: Seq<char>, t: ClientType, client_id: Seq<char>) -> MessageView {
    server_message(group_id, role_name(t), confirmation_text(client_id), None)
}

/// The reply to a heartbeat.
pub open spec fn heartbeat_response_view(group_id: Seq<char>, t: ClientType) -> MessageView {
    server_message(group_id, role_name(t), "心跳确认"@, Some("heartbeat"@))
}

/// The reply to a client whose kind is already present in its group.
pub open spec fn rejection_view(group_id: Seq<char>, t: ClientType) -> MessageView {
    server_message(group_id, role_name(t), "连接被拒绝：同组内已存在相同类型的客户端"@, Some("rejection"@))
}

/// The acknowledgement of a message a client sent.
pub open spec fn send_confirmation_view(group_id: Seq<char>, t: ClientType) -> MessageView {
    server_message(group_id, role_name(t), "消息已发送"@, None)
}

/// The notice to the counterpart of a client of kind `t` that the client left.
pub open spec fn disconnect_view(group_id: Seq<char>, t: ClientType) -> MessageView {
    server_message(group_id, role_name(other_role(t)), role_name(t) + "已断开连接"@, Some("disconnect"@))
}

/// The notice to the counterpart of a client of kind `t` that the client joined.
pub open spec fn connect_view(group_id: Seq<char>, t: ClientType) -> MessageView {
    server_message(group_id, role_name(other_role(t)), role_name(t) + "已上线连接"@, Some("connect"@))
}

/// Whether a receiver field names one of the two client kinds.
pub open spec fn names_a_client(receiver: Seq<char>) -> bool {
    receiver == "center"@ || receiver == "local"@
}

/// A message from a client of kind `t` in group `group_id`, as the server
/// relays it: the group and sender are those of the connection, and a
/// receiver that names no client kind becomes the counterpart kind.
pub open spec fn processed_view(msg: MessageView, t: ClientType, group_id: Seq<char>) -> MessageView {
    MessageView {
        group_id,
        sender_type: role_name(t),
        receiver_type: if names_a_client(msg.receiver_type) {
            msg.receiver_type
        } else {
            role_name(other_role(t))
        },
        ..msg
    }
}

/// Whether an envelope carries the given message type.
pub open spec fn has_type(msg: MessageView, kind: Seq<char>) -> bool {
    msg.message_type == Some(kind)
}

/// Whether `b` receives a message with envelope `msg` that the server relays
/// from `sender`: a connected client, not the sender, of the group of the
/// envelope and of the kind its receiver field names.
pub open spec fn is_forward_target<T>(m: Map<Seq<char>, ConnectionView<T>>, sender: Seq<char>, msg: MessageView, b: Seq<char>) -> bool {
    &&& kind_named(msg.receiver_type) matches Some(t)
    &&& is_member_of(m, t, msg.group_id, sender, b)
}

/// Builds the envelopes the server writes and reads the ones it receives.
#[derive(Clone)]
pub struct MessageService {}

impl MessageService {
    pub fn new() -> (r: MessageService) {
        MessageService {}
    }

    /// The reply that tells a newly admitted client its id.
    pub fn build_confirmation_message(&self, group_id: String, client_type: ClientType, client_id: String) -> (r: WrappedMessage)
        ensures
            r@ == confirmation_view(group_id@, client_type, client_id@),
    {
        let content = String::from_str("连接成功，您的ID是: ").concat(client_id.as_str());
        WrappedMessage {
            group_id,
            sender_type: String::from_str("server"),
            receiver_type: client_type.role_text(),
            content,
            message_type: None,
        }
    }

    /// The reply to a heartbeat.
    pub fn build_heartbeat_response(&self, group_id: String, client_type: ClientType) -> (r: WrappedMessage)
        ensures
            r@ == heartbeat_response_view(group_id@, client_type),
    {
        WrappedMessage {
            group_id,
            sender_type: String::from_str("server"),
            receiver_type: client_type.role_text(),
            content: String::from_str("心跳确认"),
            message_type: Some(String::from_str("heartbeat")),
        }
    }

    /// The reply to a client whose kind is already present in its group.
    pub fn build_rejection_message(&self, group_id: String, client_type: ClientType) -> (r: WrappedMessage)
        ensures
            r@ == rejection_view(group_id@, client_type),
    {
        WrappedMessage {
            group_id,
            sender_type: String::from_str("server"),
            receiver_type: client_type.role_text(),
            content: String::from_str("连接被拒绝：同组内已存在相同类型的客户端"),
            message_type: Some(String::from_str("rejection")),
        }
    }

    /// The acknowledgement of a message a client sent.
    pub fn build_send_confirmation(&self, group_id: String, client_type: ClientType) -> (r: WrappedMessage)
        ensures
            r@ == send_confirmation_view(group_id@, client_type),
    {
        WrappedMessage {
            group_id,
            sender_type: String::from_str("server"),
            receiver_type: client_type.role_text(),
            content: String::from_str("消息已发送"),
            message_type: None,
        }
    }

    /// The notice, for the counterpart, that a client of kind `client_type` left.
    pub fn build_disconnect_message(&self, group_id: String, client_type: ClientType) -> (r: WrappedMessage)
        ensures
            r@ == disconnect_view(group_id@, client_type),
    {
        let disconnected_type = client_type.role_text();
        let receiver_type = other_kind(client_type).role_text();
        WrappedMessage {
            group_id,
            sender_type: String::from_str("server"),
            receiver_type,
            content: disconnected_type.concat("已断开连接"),
            message_type: Some(String::from_str("disconnect")),
        }
    }

    /// The notice, for the counterpart, that a client of kind `client_type` joined.
    pub fn build_connect_message(&self, group_id: String, client_type: ClientType) -> (r: WrappedMessage)
        ensures
            r@ == connect_view(group_id@, client_type),
    {
        let connected_type = client_type.role_text();
        let receiver_type = other_kind(client_type).role_text();
        WrappedMessage {
            group_id,
            sender_type: String::from_str("server"),
            receiver_type,
            content: connected_type.concat("已上线连接"),
            message_type: Some(String::from_str("connect")),
        }
    }

    /// Rewrites the envelope of a message from a client of kind `client_type`
    /// in group `group_id`, as the server relays it.
    pub fn process_message(&self, msg: WrappedMessage, client_type: &ClientType, group_id: &str, _client_id: &str) -> (r: WrappedMessage)
        ensures
            r@ == processed_view(msg@, *client_type, group_id@),
    {
        let mut msg = msg;
        let requested_receiver = copy_text(&msg.receiver_type);
        msg.group_id = String::from_str(group_id);
        msg.sender_type = client_type.role_text();
        if !(same_text(requested_receiver.as_str(), "center") || same_text(requested_receiver.as_str(), "local")) {
            msg.receiver_type = other_kind(*client_type).role_text();
        } else {
            msg.receiver_type = requested_receiver;
        }
        msg
    }

    /// The clients that a message from `sender_id` with envelope `msg` is
    /// forwarded to: each connected client other than the sender whose group
    /// is the envelope's and whose kind the receiver field names. None when
    /// the receiver field names no client kind. There is at most one.
    pub fn forward_message<T>(&self, msg: &WrappedMessage, connections: &ConnectionManager<T>, sender_id: &str) -> (r: Vec<String>)
        requires
            connections.wf(),
        ensures
            forall|i: int| 0 <= i < r@.len() ==> is_forward_target(connections@, sender_id@, msg@, #[trigger] r@[i]@),
            forall|b: Seq<char>| #[trigger] is_forward_target(connections@, sender_id@, msg@, b)
                ==> exists|i: int| 0 <= i < r@.len() && #[trigger] r@[i]@ == b,
            r@.len() <= 1,
    {
        match kind_from_name(msg.receiver_type.as_str()) {
            None => Vec::new(),
            Some(target_type) => {
                let r = connections.members_of(target_type, msg.group_id.as_str(), sender_id);
                proof {
                    assert forall|b: Seq<char>| #[trigger] is_forward_target(connections@, sender_id@, msg@, b)
                        implies exists|i: int| 0 <= i < r@.len() && #[trigger] r@[i]@ == b by {
                        assert(is_member_of(connections@, target_type, msg@.group_id, sender_id@, b));
                    }
                }
                r
            },
        }
    }

    /// Whether the message is a heartbeat.
    pub fn is_heartbeat(&self, msg: &WrappedMessage) -> (r: bool)
        ensures
            r == has_type(msg@, "heartbeat"@),
    {
        optional_text_is(&msg.message_type, "heartbeat")
    }

    /// Whether the message announces that its sender is leaving.
    pub fn is_disconnect(&self, msg: &WrappedMessage) -> (r: bool)
        ensures
            r == has_type(msg@, "disconnect"@),
    {
        optional_text_is(&msg.message_type, "disconnect")
    }
}

} // verus!
