use vstd::prelude::*;

pub use crate::remote::message::{WrappedMessage, MessageView, has_type};
use crate::text::{copy_text, same_text, optional_text_is};

verus! {

/// An envelope the center client writes: its group and kind as sender.
pub open spec fn client_message(
    group_id: Seq<char>,
    sender_type: Seq<char>,
    receiver_type: Seq<char>,
    content: Seq<char>,
    message_type: Option<Seq<char>>,
) -> MessageView {
    MessageView { group_id, sender_type, receiver_type, content, message_type }
}

/// How the client shows a received envelope: notices by their type, other
/// messages by their sender.
pub open spec fn rendered(msg: MessageView) -> Seq<char> {
    if has_type(msg, "heartbeat"@) {
        "[心跳响应]: "@ + msg.content
    } else if has_type(msg, "disconnect"@) {
        "[断开通知]: "@ + msg.content
    } else if has_type(msg, "connect"@) {
        "[上线通知]: "@ + msg.content
    } else if msg.sender_type == "server"@ {
        "[服务器]: "@ + msg.content
    } else if msg.sender_type == "local"@ {
        "[Local -> Center]: "@ + msg.content
    } else {
        "[未知发送方 "@ + msg.sender_type + "]: "@ + msg.content
    }
}

/// Builds the envelopes the center client sends and reads the ones it
/// receives.
pub struct MessageService {
    pub group_id: String,
    pub client_type: String,
}

impl MessageService {
    /// The service of a center client in group `group_id`.
    pub fn new(group_id: String) -> (r: MessageService)
        ensures
            r.group_id@ == group_id@,
            r.client_type@ == "center"@,
    {
        MessageService { group_id, client_type: String::from_str("center") }
    }

    /// The first envelope, which asks the server to admit the client.
    pub fn create_init_message(&self) -> (r: WrappedMessage)
        ensures
            r@ == client_message(self.group_id@, self.client_type@, "server"@, "初始化连接"@, None),
    {
        WrappedMessage {
            group_id: copy_text(&self.group_id),
            sender_type: copy_text(&self.client_type),
            receiver_type: String::from_str("server"),
            content: String::from_str("初始化连接"),
            message_type: None,
        }
    }

    /// A heartbeat for the server.
    pub fn create_heartbeat_message(&self) -> (r: WrappedMessage)
        ensures
            r@ == client_message(self.group_id@, self.client_type@, "server"@, "心跳"@, Some("heartbeat"@)),
    {
        WrappedMessage {
            group_id: copy_text(&self.group_id),
            sender_type: copy_text(&self.client_type),
            receiver_type: String::from_str("server"),
            content: String::from_str("心跳"),
            message_type: Some(String::from_str("heartbeat")),
        }
    }

    /// The notice that the client is leaving.
    pub fn create_disconnect_message(&self) -> (r: WrappedMessage)
        ensures
            r@ == client_message(self.group_id@, self.client_type@, "server"@, "客户端主动断开连接"@, Some("disconnect"@)),
    {
        WrappedMessage {
            group_id: copy_text(&self.group_id),
            sender_type: copy_text(&self.client_type),
            receiver_type: String::from_str("server"),
            content: String::from_str("客户端主动断开连接"),
            message_type: Some(String::from_str("disconnect")),
        }
    }

    /// A plain message with text `content` for the local client.
    pub fn create_message(&self, content: String) -> (r: WrappedMessage)
        ensures
            r@ == client_message(self.group_id@, self.client_type@, "local"@, content@, None),
    {
        WrappedMessage {
            group_id: copy_text(&self.group_id),
            sender_type: copy_text(&self.client_type),
            receiver_type: String::from_str("local"),
            content,
            message_type: None,
        }
    }

    /// The line the client shows for a received envelope.
    pub fn process_received_message(&self, message: &WrappedMessage) -> (r: String)
        ensures
            r@ == rendered(message@),
    {
        if optional_text_is(&message.message_type, "heartbeat") {
            return String::from_str("[心跳响应]: ").concat(message.content.as_str());
        }
        if optional_text_is(&message.message_type, "disconnect") {
            return String::from_str("[断开通知]: ").concat(message.content.as_str());
        }
        if optional_text_is(&message.message_type, "connect") {
            return String::from_str("[上线通知]: ").concat(message.content.as_str());
        }
        if same_text(message.sender_type.as_str(), "server") {
            String::from_str("[服务器]: ").concat(message.content.as_str())
        } else if same_text(message.sender_type.as_str(), "local") {
            String::from_str("[Local -> Center]: ").concat(message.content.as_str())
        } else {
            String::from_str("[未知发送方 ").concat(message.sender_type.as_str()).concat("]: ").concat(message.content.as_str())
        }
    }

    /// Whether the envelope answers a heartbeat.
    pub fn is_heartbeat_response(&self, message: &WrappedMessage) -> (r: bool)
        ensures
            r == has_type(message@, "heartbeat"@),
    {
        optional_text_is(&message.message_type, "heartbeat")
    }

    /// Whether the envelope says that the counterpart left.
    pub fn is_disconnect_notification(&self, message: &WrappedMessage) -> (r: bool)
        ensures
            r == has_type(message@, "disconnect"@),
    {
        optional_text_is(&message.message_type, "disconnect")
    }

    /// Whether the envelope says that the counterpart joined.
    pub fn is_connect_notification(&self, message: &WrappedMessage) -> (r: bool)
        ensures
            r == has_type(message@, "connect"@),
    {
        optional_text_is(&message.message_type, "connect")
    }
}

} // verus!
