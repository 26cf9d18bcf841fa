use vstd::prelude::*;

use crate::text::{same_text, copy_text};
use crate::table::KeyedTable;
use crate::remote::message::{WrappedMessage, MessageService, disconnect_view, connect_view};

verus! {

/// The two kinds of clients that share a group.
#[derive(Debug, Clone, Copy, PartialEq, Eq, Structural)]
pub enum ClientType {
    Center,
    Local,
}

/// The name of a client kind on the wire.
pub open spec fn role_name(t: ClientType) -> Seq<char> {
    match t {
        ClientType::Center => "center"@,
        ClientType::Local => "local"@,
    }
}

/// The kind that is the counterpart of `t` in a group.
pub open spec fn other_role(t: ClientType) -> ClientType {
    match t {
        ClientType::Center => ClientType::Local,
        ClientType::Local => ClientType::Center,
    }
}

impl ClientType {
    /// The wire name of this kind: "center" or "local".
    pub fn role_text(&self) -> (r: String)
        ensures
            r@ == role_name(*self),
    {
        match self {
            ClientType::Center => String::from_str("center"),
            ClientType::Local => String::from_str("local"),
        }
    }
}

/// The client kind a wire name stands for, if any.
pub open spec fn kind_named(s: Seq<char>) -> Option<ClientType> {
    if s == "center"@ {
        Some(ClientType::Center)
    } else if s == "local"@ {
        Some(ClientType::Local)
    } else {
        None
    }
}

/// The client kind that the wire name `s` stands for, if any.
pub fn kind_from_name(s: &str) -> (r: Option<ClientType>)
    ensures
        r == kind_named(s@),
{
    if same_text(s, "center") {
        Some(ClientType::Center)
    } else if same_text(s, "local") {
        Some(ClientType::Local)
    } else {
        None
    }
}

/// The counterpart kind of `t`.
pub fn other_kind(t: ClientType) -> (r: ClientType)
    ensures
        r == other_role(t),
{
    match t {
        ClientType::Center => ClientType::Local,
        ClientType::Local => ClientType::Center,
    }
}

/// Whether `c` is a lowercase hexadecimal digit.
pub open spec fn is_lower_hex(c: char) -> bool {
    ('0' <= c && c <= '9') || ('a' <= c && c <= 'f')
}

/// Whether `s` is the text of a random (version 4) UUID as the `uuid` crate
/// writes it: 36 characters, hyphens at positions 8, 13, 18 and 23, lowercase
/// hexadecimal digits elsewhere, the version digit '4' at position 14 and a
/// variant digit among '8', '9', 'a', 'b' at position 19.
pub open spec fn is_v4_uuid_text(s: Seq<char>) -> bool {
    &&& s.len() == 36
    &&& forall|i: int| 0 <= i < 36 ==> if i == 8 || i == 13 || i == 18 || i == 23 {
        #[trigger] s[i] == '-'
    } else {
        is_lower_hex(s[i])
    }
    &&& s[14] == '4'
    &&& (s[19] == '8' || s[19] == '9' || s[19] == 'a' || s[19] == 'b')
}

/// Calls `uuid::Uuid::new_v4` and writes the result with its `Display`
/// impl. The value is random; what every outcome has in common is its
/// shape: the hyphenated lowercase form with the version and variant bits
/// that `new_v4` sets. `new_v4` panics when the operating system gives it
/// no random bytes, which no argument decides; that is left unsaid.
#[verifier::external_body]
fn random_uuid_text() -> (r: String)
    ensures
        is_v4_uuid_text(r@),
{
    uuid::Uuid::new_v4().to_string()
}

/// A connected client: its kind, its group, and the channel `tx` on which
/// the server delivers messages to it.
pub struct Connection<T> {
    pub client_type: ClientType,
    pub group_id: String,
    pub tx: T,
}

/// The value of a connection: its kind, its group as text, and its channel.
pub struct ConnectionView<T> {
    pub client_type: ClientType,
    pub group_id: Seq<char>,
    pub tx: T,
}

impl<T> View for Connection<T> {
    type V = ConnectionView<T>;

    open spec fn view(&self) -> ConnectionView<T> {
        ConnectionView { client_type: self.client_type, group_id: self.group_id@, tx: self.tx }
    }
}

/// Whether some client of kind `t` is connected in group `g`.
pub open spec fn role_taken<T>(m: Map<Seq<char>, ConnectionView<T>>, t: ClientType, g: Seq<char>) -> bool {
    exists|id: Seq<char>| #[trigger] m.contains_key(id) && m[id].client_type == t && m[id].group_id == g
}

/// At most one client of each kind is connected in each group.
pub open spec fn one_per_role<T>(m: Map<Seq<char>, ConnectionView<T>>) -> bool {
    forall|a: Seq<char>, b: Seq<char>|
        #![trigger m.contains_key(a), m.contains_key(b)]
        m.contains_key(a) && m.contains_key(b) && m[a].client_type == m[b].client_type
            && m[a].group_id == m[b].group_id ==> a == b
}

/// Whether `b` is the partner of `a`: another connected client of the same
/// group and of the other kind.
pub open spec fn is_partner<T>(m: Map<Seq<char>, ConnectionView<T>>, a: Seq<char>, b: Seq<char>) -> bool {
    &&& m.contains_key(a)
    &&& m.contains_key(b)
    &&& a != b
    &&& m[b].group_id == m[a].group_id
    &&& m[b].client_type != m[a].client_type
}

/// Whether `a` is connected and has a partner.
pub open spec fn has_partner<T>(m: Map<Seq<char>, ConnectionView<T>>, a: Seq<char>) -> bool {
    exists|b: Seq<char>| #[trigger] is_partner(m, a, b)
}

/// Whether `b` is a connected client of kind `t` in group `g`, other than `except`.
pub open spec fn is_member_of<T>(m: Map<Seq<char>, ConnectionView<T>>, t: ClientType, g: Seq<char>, except: Seq<char>, b: Seq<char>) -> bool {
    &&& m.contains_key(b)
    &&& b != except
    &&& m[b].client_type == t
    &&& m[b].group_id == g
}

/// The table of connected clients, keyed by client id.
pub struct ConnectionManager<T> {
    connections: KeyedTable<Connection<T>>,
}

impl<T> View for ConnectionManager<T> {
    type V = Map<Seq<char>, ConnectionView<T>>;

    closed spec fn view(&self) -> Map<Seq<char>, ConnectionView<T>> {
        self.connections@
    }
}

impl<T> ConnectionManager<T> {
    /// The table is well formed and no two clients of one group have the
    /// same kind.
    pub closed spec fn wf(&self) -> bool {
        &&& self.connections.wf()
        &&& one_per_role(self.connections@)
    }

    /// A well-formed table has at most one client of each kind per group.
    pub proof fn lemma_one_per_role(&self)
        requires
            self.wf(),
        ensures
            one_per_role(self@),
    {
    }

    /// An empty table.
    pub fn new() -> (r: ConnectionManager<T>)
        ensures
            r.wf(),
            r@ == Map::<Seq<char>, ConnectionView<T>>::empty(),
    {
        ConnectionManager { connections: KeyedTable::new() }
    }

    /// The number of connected clients.
    pub fn len(&self) -> (r: usize)
        requires
            self.wf(),
        ensures
            r == self@.dom().len(),
    {
        self.connections.size()
    }

    /// A fresh client id: the text of a random UUID.
    pub fn generate_client_id(&self) -> (r: String)
        ensures
            is_v4_uuid_text(r@),
    {
        random_uuid_text()
    }

    /// Whether a client of kind `client_type` may join group `group_id`:
    /// true exactly when no client of that kind is connected in the group.
    pub fn validate_new_connection(&self, client_type: &ClientType, group_id: &str) -> (r: bool)
        requires
            self.wf(),
        ensures
            r == !role_taken(self@, *client_type, group_id@),
    {
        let n = self.connections.size();
        let mut i: usize = 0;
        while i < n
            invariant
                self.wf(),
                n == self.connections.len(),
                i <= n,
                forall|j: int| 0 <= j < i ==> !(self.connections.value_at(j).client_type == *client_type
                    && self.connections.value_at(j).group_id@ == group_id@),
            decreases n - i,
        {
            let (_, conn) = self.connections.entry(i);
            if same_text(conn.group_id.as_str(), group_id) && conn.client_type == *client_type {
                proof {
                    self.connections.lemma_entry(i as int);
                    assert(self@.contains_key(self.connections.key_at(i as int)));
                }
                return false;
            }
            i = i + 1;
        }
        proof {
            if role_taken(self@, *client_type, group_id@) {
                let id = choose|id: Seq<char>| #[trigger] self@.contains_key(id) && self@[id].client_type == *client_type
                    && self@[id].group_id == group_id@;
                let k = self.connections.lemma_key(id);
                self.connections.lemma_entry(k);
            }
        }
        true
    }

    /// Registers `client_id` as a client of kind `client_type` in group
    /// `group_id`, reachable on `tx`. Refused, leaving the table unchanged,
    /// when a client of that kind is already connected in that group.
    pub fn add_connection(&mut self, client_id: String, client_type: ClientType, group_id: String, tx: T) -> (r: bool)
        requires
            old(self).wf(),
        ensures
            final(self).wf(),
            r == !role_taken(old(self)@, client_type, group_id@),
            r ==> final(self)@ == old(self)@.insert(client_id@, ConnectionView { client_type, group_id: group_id@, tx }),
            !r ==> final(self)@ == old(self)@,
    {
        if !self.validate_new_connection(&client_type, group_id.as_str()) {
            return false;
        }
        let ghost old_m = self@;
        let ghost id = client_id@;
        self.connections.insert(client_id, Connection { client_type, group_id, tx });
        proof {
            let m = self@;
            assert forall|a: Seq<char>, b: Seq<char>|
                #![trigger m.contains_key(a), m.contains_key(b)]
                m.contains_key(a) && m.contains_key(b) && m[a].client_type == m[b].client_type
                    && m[a].group_id == m[b].group_id implies a == b by {
                if a != id && b != id {
                    assert(old_m.contains_key(a) && old_m.contains_key(b));
                } else if a == id && b != id {
                    assert(old_m.contains_key(b));
                } else if b == id && a != id {
                    assert(old_m.contains_key(a));
                }
            }
        }
        true
    }

    /// Removes `client_id` from the table and gives back its kind and group,
    /// or `None` when it was not connected.
    pub fn remove_connection(&mut self, client_id: &str) -> (r: Option<(ClientType, String)>)
        requires
            old(self).wf(),
        ensures
            final(self).wf(),
            final(self)@ == old(self)@.remove(client_id@),
            r is Some <==> old(self)@.contains_key(client_id@),
            r matches Some((t, g)) ==> t == old(self)@[client_id@].client_type && g@ == old(self)@[client_id@].group_id,
    {
        let ghost old_m = self@;
        let removed = self.connections.remove(client_id);
        proof {
            let m = self@;
            assert forall|a: Seq<char>, b: Seq<char>|
                #![trigger m.contains_key(a), m.contains_key(b)]
                m.contains_key(a) && m.contains_key(b) && m[a].client_type == m[b].client_type
                    && m[a].group_id == m[b].group_id implies a == b by {
                assert(old_m.contains_key(a) && old_m.contains_key(b));
            }
        }
        match removed {
            None => None,
            Some(conn) => Some((conn.client_type, conn.group_id)),
        }
    }

    /// The partner of `client_id`: the other connected client of its group,
    /// of the other kind, with that client's kind. `None` when `client_id`
    /// is not connected or has no partner.
    pub fn find_partner(&self, client_id: &str) -> (r: Option<(String, ClientType)>)
        requires
            self.wf(),
        ensures
            r is Some <==> has_partner(self@, client_id@),
            r matches Some((p, t)) ==> is_partner(self@, client_id@, p@) && t == self@[p@].client_type,
    {
        match self.connections.get(client_id) {
            None => None,
            Some(me) => {
                let n = self.connections.size();
                let mut i: usize = 0;
                while i < n
                    invariant
                        self.wf(),
                        n == self.connections.len(),
                        i <= n,
                        self@.contains_key(client_id@),
                        me@ == self@[client_id@],
                        forall|j: int| 0 <= j < i ==> !is_partner(self@, client_id@, #[trigger] self.connections.key_at(j)),
                    decreases n - i,
                {
                    let (id, other) = self.connections.entry(i);
                    proof {
                        self.connections.lemma_entry(i as int);
                    }
                    if !same_text(id.as_str(), client_id) && same_text(other.group_id.as_str(), me.group_id.as_str())
                        && other.client_type != me.client_type {
                        proof {
                            assert(is_partner(self@, client_id@, id@));
                        }
                        return Some((copy_text(id), other.client_type));
                    }
                    i = i + 1;
                }
                proof {
                    if has_partner(self@, client_id@) {
                        let b = choose|b: Seq<char>| #[trigger] is_partner(self@, client_id@, b);
                        let k = self.connections.lemma_key(b);
                        assert(is_partner(self@, client_id@, self.connections.key_at(k)));
                    }
                }
                None
            },
        }
    }

    /// The connected clients of kind `client_type` in group `group_id`,
    /// other than `except`, each once. There is at most one.
    pub fn members_of(&self, client_type: ClientType, group_id: &str, except: &str) -> (r: Vec<String>)
        requires
            self.wf(),
        ensures
            forall|i: int| 0 <= i < r@.len() ==> is_member_of(self@, client_type, group_id@, except@, #[trigger] r@[i]@),
            forall|b: Seq<char>| #[trigger] is_member_of(self@, client_type, group_id@, except@, b)
                ==> exists|i: int| 0 <= i < r@.len() && #[trigger] r@[i]@ == b,
            r@.len() <= 1,
    {
        let mut r: Vec<String> = Vec::new();
        let n = self.connections.size();
        let mut i: usize = 0;
        while i < n
            invariant
                self.wf(),
                n == self.connections.len(),
                i <= n,
                forall|k: int| 0 <= k < r@.len() ==> is_member_of(self@, client_type, group_id@, except@, #[trigger] r@[k]@),
                forall|k: int| 0 <= k < r@.len() ==> exists|j: int| 0 <= j < i && #[trigger] r@[k]@ == self.connections.key_at(j),
                forall|j: int| 0 <= j < i && #[trigger] is_member_of(self@, client_type, group_id@, except@, self.connections.key_at(j))
                    ==> exists|k: int| 0 <= k < r@.len() && #[trigger] r@[k]@ == self.connections.key_at(j),
                r@.len() <= 1,
            decreases n - i,
        {
            let (id, conn) = self.connections.entry(i);
            proof { self.connections.lemma_entry(i as int); }
            if !same_text(id.as_str(), except) && conn.client_type == client_type && same_text(conn.group_id.as_str(), group_id) {
                let ghost old_r = r@;
                proof {
                    if old_r.len() == 1 {
                        assert(is_member_of(self@, client_type, group_id@, except@, old_r[0]@));
                        assert(self@.contains_key(old_r[0]@) && self@.contains_key(id@));
                        let j = choose|j: int| 0 <= j < i && #[trigger] old_r[0]@ == self.connections.key_at(j);
                        self.connections.lemma_distinct(j, i as int);
                    }
                }
                r.push(copy_text(id));
                proof {
                    assert forall|k: int| 0 <= k < r@.len() implies exists|j: int| 0 <= j < i + 1 && #[trigger] r@[k]@ == self.connections.key_at(j) by {
                        if k < old_r.len() {
                            assert(r@[k] == old_r[k]);
                        } else {
                            assert(r@[k]@ == self.connections.key_at(i as int));
                        }
                    }
                    assert forall|j: int| 0 <= j < i + 1 && #[trigger] is_member_of(self@, client_type, group_id@, except@, self.connections.key_at(j))
                        implies exists|k: int| 0 <= k < r@.len() && #[trigger] r@[k]@ == self.connections.key_at(j) by {
                        if j < i {
                            let k = choose|k: int| 0 <= k < old_r.len() && #[trigger] old_r[k]@ == self.connections.key_at(j);
                            assert(r@[k] == old_r[k]);
                        } else {
                            assert(r@[old_r.len() as int]@ == self.connections.key_at(j));
                        }
                    }
                }
            }
            i = i + 1;
        }
        proof {
            assert forall|b: Seq<char>| #[trigger] is_member_of(self@, client_type, group_id@, except@, b)
                implies exists|k: int| 0 <= k < r@.len() && #[trigger] r@[k]@ == b by {
                let j = self.connections.lemma_key(b);
                assert(is_member_of(self@, client_type, group_id@, except@, self.connections.key_at(j)));
            }
        }
        r
    }

    /// The channel of `client_id`, or `None` when it is not connected.
    pub fn sender(&self, client_id: &str) -> (r: Option<&T>)
        requires
            self.wf(),
        ensures
            r is Some <==> self@.contains_key(client_id@),
            r matches Some(tx) ==> *tx == self@[client_id@].tx,
    {
        match self.connections.get(client_id) {
            None => None,
            Some(conn) => Some(&conn.tx),
        }
    }

    /// The notice for `partner_id` that a client of kind `client_type` in
    /// group `group_id` left, with the channel to deliver it on; `None`
    /// when `partner_id` is not connected.
    pub fn notify_partner_disconnect(&self, partner_id: &str, client_type: ClientType, group_id: String) -> (r: Option<(&T, WrappedMessage)>)
        requires
            self.wf(),
        ensures
            r is Some <==> self@.contains_key(partner_id@),
            r matches Some((tx, m)) ==> *tx == self@[partner_id@].tx && m@ == disconnect_view(group_id@, client_type),
    {
        match self.sender(partner_id) {
            None => None,
            Some(tx) => {
                let message_service = MessageService::new();
                Some((tx, message_service.build_disconnect_message(group_id, client_type)))
            },
        }
    }

    /// The notice for `partner_id` that a client of kind `client_type` in
    /// group `group_id` joined, with the channel to deliver it on; `None`
    /// when `partner_id` is not connected.
    pub fn notify_partner_connect(&self, partner_id: &str, client_type: ClientType, group_id: String) -> (r: Option<(&T, WrappedMessage)>)
        requires
            self.wf(),
        ensures
            r is Some <==> self@.contains_key(partner_id@),
            r matches Some((tx, m)) ==> *tx == self@[partner_id@].tx && m@ == connect_view(group_id@, client_type),
    {
        match self.sender(partner_id) {
            None => None,
            Some(tx) => {
                let message_service = MessageService::new();
                Some((tx, message_service.build_connect_message(group_id, client_type)))
            },
        }
    }
}

} // verus!
