use vstd::prelude::*;

verus! {

/// Identifier of a participant, assigned by the relay.
pub type UserId = String;

/// Serialized negotiation descriptor.
pub type SDP = String;

/// One entry of a conversation.
#[derive(Clone, Debug, PartialEq)]
pub struct ChaosMessage {
    pub client_id: String,
    pub message_content: String,
}

/// Stage of the handshake with one remote peer.
#[derive(Clone, Copy, Debug, PartialEq, Eq, Structural, Default)]
pub enum ConnectionProgress {
    #[default]
    Closed,
    CallRequestSent,
    CallRequestReceived,
    CallRequestAccepted,
    CallAnswerSent,
    CallAnswerReceived,
    CallReplySent,
    CallReplyReceived,
    Established,
}

/// Identity and descriptor of one endpoint.
#[derive(Clone, Debug, PartialEq, Default)]
pub struct ConnectionDetails {
    pub id: UserId,
    pub sdp: SDP,
}

/// What a connection holds, as mathematical values.
pub struct ConnectionView {
    pub id: Seq<char>,
    pub sdp: Seq<char>,
    pub messages: Seq<ChaosMessage>,
    pub progress: ConnectionProgress,
}

/// The connection with one remote peer.
#[derive(Clone, Debug, PartialEq)]
pub struct Connection {
    remote: ConnectionDetails,
    messages: Vec<ChaosMessage>,
    pub progress: ConnectionProgress,
}

impl View for Connection {
    type V = ConnectionView;

    closed spec fn view(&self) -> ConnectionView {
        ConnectionView {
            id: self.remote.id@,
            sdp: self.remote.sdp@,
            messages: self.messages@,
            progress: self.progress,
        }
    }
}

impl Connection {
    /// A fresh, closed connection with `remote_id`, with no descriptor and no messages.
    pub fn new(remote_id: UserId) -> (r: Self)
        ensures
            r@ == (ConnectionView {
                id: remote_id@,
                sdp: Seq::empty(),
                messages: Seq::empty(),
                progress: ConnectionProgress::Closed,
            }),
    {
        Connection {
            remote: ConnectionDetails { id: remote_id, sdp: String::new() },
            messages: Vec::new(),
            progress: ConnectionProgress::Closed,
        }
    }

    /// Moves the connection to `progress`; nothing else changes.
    pub fn set_progress(&mut self, progress: ConnectionProgress)
        ensures
            final(self)@ == with_progress(old(self)@, progress),
    {
        self.progress = progress;
    }

    /// The identifier of the remote peer.
    pub fn remote_id(&self) -> (r: &UserId)
        ensures
            r@ == self@.id,
    {
        &self.remote.id
    }

    /// A copy that holds the same values.
    pub fn deep_copy(&self) -> (r: Connection)
        ensures
            r@ == self@,
    {
        let mut messages: Vec<ChaosMessage> = Vec::new();
        let n = self.messages.len();
        for i in 0..n
            invariant
                n == self.messages@.len(),
                messages@ == self.messages@.subrange(0, i as int),
        {
            messages.push(self.messages[i].deep_copy());
            assert(messages@ =~= self.messages@.subrange(0, i + 1));
        }
        assert(messages@ =~= self.messages@);
        Connection {
            remote: ConnectionDetails { id: self.remote.id.clone(), sdp: self.remote.sdp.clone() },
            messages,
            progress: self.progress,
        }
    }
}

impl ChaosMessage {
    /// A copy that holds the same values.
    pub fn deep_copy(&self) -> (r: ChaosMessage)
        ensures
            r == *self,
    {
        ChaosMessage {
            client_id: self.client_id.clone(),
            message_content: self.message_content.clone(),
        }
    }
}

/// `c` with its progress replaced by `p`.
pub open spec fn with_progress(c: ConnectionView, p: ConnectionProgress) -> ConnectionView {
    ConnectionView { progress: p, ..c }
}

/// The connection table as mathematical values: the local identifier and the
/// connections in the order in which they were created.
pub struct StateView {
    pub local_id: Seq<char>,
    pub connections: Seq<ConnectionView>,
}

/// No two connections share a remote identifier.
pub open spec fn ids_unique(cs: Seq<ConnectionView>) -> bool {
    forall|i: int, j: int| 0 <= i < j < cs.len() ==> cs[i].id != cs[j].id
}

/// Some connection has remote identifier `r`.
pub open spec fn has_id(cs: Seq<ConnectionView>, r: Seq<char>) -> bool {
    exists|i: int| 0 <= i < cs.len() && cs[i].id == r
}

/// The progress of the connection with `r`, if there is one.
pub open spec fn progress_of(cs: Seq<ConnectionView>, r: Seq<char>) -> Option<ConnectionProgress> {
    if has_id(cs, r) {
        Some(cs[choose|i: int| 0 <= i < cs.len() && cs[i].id == r].progress)
    } else {
        None
    }
}

/// The table after the connection with `r` is set to `p`; a connection is
/// created at the end where none has `r`.
pub open spec fn upsert(cs: Seq<ConnectionView>, r: Seq<char>, p: ConnectionProgress) -> Seq<
    ConnectionView,
> {
    if has_id(cs, r) {
        Seq::new(cs.len(), |i: int| if cs[i].id == r { with_progress(cs[i], p) } else { cs[i] })
    } else {
        cs.push(
            ConnectionView { id: r, sdp: Seq::empty(), messages: Seq::empty(), progress: p },
        )
    }
}

/// Some connection is at progress `a` or `b`.
pub open spec fn any_at(cs: Seq<ConnectionView>, a: ConnectionProgress, b: ConnectionProgress) -> bool {
    exists|i: int| 0 <= i < cs.len() && (cs[i].progress == a || cs[i].progress == b)
}

/// The table after every connection at progress `a` or `b` is moved to `to`.
pub open spec fn move_all(
    cs: Seq<ConnectionView>,
    a: ConnectionProgress,
    b: ConnectionProgress,
    to: ConnectionProgress,
) -> Seq<ConnectionView> {
    Seq::new(
        cs.len(),
        |i: int|
            if cs[i].progress == a || cs[i].progress == b {
                with_progress(cs[i], to)
            } else {
                cs[i]
            },
    )
}

/// After `upsert`, the connection with `r` is at `p`, every other connection
/// keeps its progress, and no identifier appears twice.
pub proof fn lemma_upsert(cs: Seq<ConnectionView>, r: Seq<char>, p: ConnectionProgress)
    requires
        ids_unique(cs),
    ensures
        ids_unique(upsert(cs, r, p)),
        has_id(upsert(cs, r, p), r),
        progress_of(upsert(cs, r, p), r) == Some(p),
        forall|o: Seq<char>| o != r ==> progress_of(upsert(cs, r, p), o) == progress_of(cs, o),
        upsert(cs, r, p).len() == if has_id(cs, r) {
            cs.len()
        } else {
            cs.len() + 1
        },
{
    let us = upsert(cs, r, p);
    assert forall|i: int| 0 <= i < us.len() implies #[trigger] us[i].id == (if i < cs.len() {
        cs[i].id
    } else {
        r
    }) by {}
    assert(ids_unique(us)) by {
        assert forall|i: int, j: int| 0 <= i < j < us.len() implies us[i].id != us[j].id by {
            if j < cs.len() {
                assert(cs[i].id != cs[j].id);
            } else {
                assert(cs[i].id != r);
            }
        }
    }
    let k = choose|k: int| 0 <= k < us.len() && us[k].id == r;
    assert(has_id(us, r)) by {
        if has_id(cs, r) {
            let w = choose|w: int| 0 <= w < cs.len() && cs[w].id == r;
            assert(us[w].id == r);
        } else {
            assert(us[cs.len() as int].id == r);
        }
    }
    assert(us[k].progress == p);
    assert forall|o: Seq<char>| o != r implies progress_of(us, o) == progress_of(cs, o) by {
        if has_id(cs, o) {
            let w = choose|w: int| 0 <= w < cs.len() && cs[w].id == o;
            assert(us[w].id == o);
            let x = choose|x: int| 0 <= x < us.len() && us[x].id == o;
            assert(x < cs.len());
            if x < w {
                assert(us[x].id != us[w].id);
            } else if x > w {
                assert(us[w].id != us[x].id);
            }
        } else {
            assert(!has_id(us, o));
        }
    }
}

/// After `move_all`, a connection that was at `a` or `b` is at `to`, every
/// other connection keeps its progress, and the identifiers are unchanged.
pub proof fn lemma_move_all(
    cs: Seq<ConnectionView>,
    a: ConnectionProgress,
    b: ConnectionProgress,
    to: ConnectionProgress,
)
    requires
        ids_unique(cs),
    ensures
        ids_unique(move_all(cs, a, b, to)),
        move_all(cs, a, b, to).len() == cs.len(),
        forall|o: Seq<char>|
            has_id(move_all(cs, a, b, to), o) == has_id(cs, o),
        forall|o: Seq<char>|
            #[trigger] progress_of(move_all(cs, a, b, to), o) == match progress_of(cs, o) {
                Some(q) => if q == a || q == b {
                    Some(to)
                } else {
                    Some(q)
                },
                None => None,
            },
{
    let ms = move_all(cs, a, b, to);
    assert forall|i: int| 0 <= i < ms.len() implies #[trigger] ms[i].id == cs[i].id by {}
    assert forall|o: Seq<char>| has_id(ms, o) == has_id(cs, o) by {
        if has_id(cs, o) {
            let w = choose|w: int| 0 <= w < cs.len() && cs[w].id == o;
            assert(ms[w].id == o);
        }
        if has_id(ms, o) {
            let w = choose|w: int| 0 <= w < ms.len() && ms[w].id == o;
            assert(cs[w].id == o);
        }
    }
    assert forall|o: Seq<char>|
        #[trigger] progress_of(ms, o) == match progress_of(cs, o) {
            Some(q) => if q == a || q == b {
                Some(to)
            } else {
                Some(q)
            },
            None => None,
        } by {
        if has_id(cs, o) {
            let w = choose|w: int| 0 <= w < cs.len() && cs[w].id == o;
            assert(ms[w].id == o);
            let x = choose|x: int| 0 <= x < ms.len() && ms[x].id == o;
            if x < w {
                assert(cs[x].id != cs[w].id);
            } else if x > w {
                assert(cs[w].id != cs[x].id);
            }
        }
    }
}

/// The authoritative connection table.
#[derive(Clone, Debug, PartialEq)]
pub struct IndependentState {
    pub connection_details: ConnectionDetails,
    pub connections: Vec<Connection>,
}

impl View for IndependentState {
    type V = StateView;

    open spec fn view(&self) -> StateView {
        StateView {
            local_id: self.connection_details.id@,
            connections: self.connections@.map_values(|c: Connection| c@),
        }
    }
}

impl Default for IndependentState {
    /// An empty table with an empty local identifier.
    fn default() -> (r: Self)
        ensures
            r@.local_id == Seq::<char>::empty(),
            r@.connections == Seq::<ConnectionView>::empty(),
            r.wf(),
    {
        let r = IndependentState {
            connection_details: ConnectionDetails { id: String::new(), sdp: String::new() },
            connections: Vec::new(),
        };
        assert(r@.connections =~= Seq::<ConnectionView>::empty());
        r
    }
}

impl IndependentState {
    /// No two connections share a remote identifier.
    pub open spec fn wf(&self) -> bool {
        ids_unique(self@.connections)
    }

    /// Whether no two connections share a remote identifier.
    pub fn is_well_formed(&self) -> (r: bool)
        ensures
            r == self.wf(),
    {
        let n = self.connections.len();
        for i in 0..n
            invariant
                n == self.connections@.len(),
                forall|a: int, b: int|
                    0 <= a < b < n && a < i ==> self@.connections[a].id != self@.connections[b].id,
        {
            for j in i + 1..n
                invariant
                    n == self.connections@.len(),
                    i < n,
                    forall|b: int|
                        i < b < j ==> self@.connections[i as int].id != self@.connections[b].id,
            {
                assert(self@.connections[j as int] == self.connections@[j as int]@);
                assert(self@.connections[i as int] == self.connections@[i as int]@);
                if self.connections[i].remote_id().eq(self.connections[j].remote_id()) {
                    return false;
                }
            }
        }
        true
    }

    /// A copy that holds the same values.
    pub fn snapshot(&self) -> (r: IndependentState)
        ensures
            r@ == self@,
    {
        let mut connections: Vec<Connection> = Vec::new();
        let n = self.connections.len();
        for i in 0..n
            invariant
                n == self.connections@.len(),
                connections@.len() == i,
                forall|j: int| 0 <= j < i ==> connections@[j]@ == self.connections@[j]@,
        {
            connections.push(self.connections[i].deep_copy());
        }
        assert(connections@.map_values(|c: Connection| c@) =~= self@.connections);
        IndependentState {
            connection_details: ConnectionDetails {
                id: self.connection_details.id.clone(),
                sdp: self.connection_details.sdp.clone(),
            },
            connections,
        }
    }

    /// The progress of the connection with `r`, if there is one.
    pub fn progress_of(&self, r: &UserId) -> (p: Option<ConnectionProgress>)
        requires
            self.wf(),
        ensures
            p == progress_of(self@.connections, r@),
    {
        let n = self.connections.len();
        for i in 0..n
            invariant
                n == self.connections@.len(),
                self.wf(),
                forall|j: int| 0 <= j < i ==> self@.connections[j].id != r@,
        {
            assert(self@.connections[i as int] == self.connections@[i as int]@);
            if self.connections[i].remote_id().eq(r) {
                let ghost cs = self@.connections;
                assert(cs[i as int].id == r@);
                assert(has_id(cs, r@));
                let ghost k = choose|k: int| 0 <= k < cs.len() && cs[k].id == r@;
                proof {
                    if k < i {
                        assert(cs[k].id != cs[i as int].id);
                    } else if k > i {
                        assert(cs[i as int].id != cs[k].id);
                    }
                }
                return Some(self.connections[i].progress);
            }
        }
        None
    }

    /// Sets the progress of the connection with `r` to `p`, creating it where
    /// there is none.
    pub fn upsert(&mut self, r: &UserId, p: ConnectionProgress)
        requires
            old(self).wf(),
        ensures
            final(self).wf(),
            final(self)@.local_id == old(self)@.local_id,
            final(self)@.connections == upsert(old(self)@.connections, r@, p),
    {
        let ghost vs = self.connections@;
        let n = self.connections.len();
        let mut found = false;
        for i in 0..n
            invariant
                n == self.connections@.len(),
                n == vs.len(),
                vs == old(self).connections@,
                self@.local_id == old(self)@.local_id,
                found == exists|j: int| 0 <= j < i && vs[j]@.id == r@,
                forall|j: int|
                    0 <= j < n ==> self.connections@[j]@ == if j < i && vs[j]@.id == r@ {
                        with_progress(vs[j]@, p)
                    } else {
                        vs[j]@
                    },
        {
            if self.connections[i].remote_id().eq(r) {
                self.connections[i].set_progress(p);
                found = true;
            }
        }
        let ghost cs = old(self)@.connections;
        assert(forall|j: int| 0 <= j < n ==> cs[j] == vs[j]@);
        if found {
            let ghost w = choose|j: int| 0 <= j < n && vs[j]@.id == r@;
            assert(cs[w].id == r@);
            assert(has_id(cs, r@));
        } else {
            assert(!has_id(cs, r@));
            let mut c = Connection::new(r.clone());
            c.set_progress(p);
            self.connections.push(c);
        }
        assert(self@.connections =~= upsert(cs, r@, p));
        assert forall|a: int, b: int|
            0 <= a < b < self@.connections.len() implies self@.connections[a].id
            != self@.connections[b].id by {
            if b < n {
                assert(cs[a].id != cs[b].id);
            } else {
                assert(cs[a].id != r@);
            }
        }
    }

    /// Whether some connection is at progress `a` or `b`.
    pub fn any_at(&self, a: ConnectionProgress, b: ConnectionProgress) -> (r: bool)
        ensures
            r == any_at(self@.connections, a, b),
    {
        let n = self.connections.len();
        for i in 0..n
            invariant
                n == self.connections@.len(),
                forall|j: int|
                    0 <= j < i ==> self@.connections[j].progress != a
                        && self@.connections[j].progress != b,
        {
            assert(self@.connections[i as int] == self.connections@[i as int]@);
            let q = self.connections[i].progress;
            if q == a || q == b {
                return true;
            }
        }
        false
    }

    /// Moves every connection at progress `a` or `b` to `to`.
    pub fn move_all(&mut self, a: ConnectionProgress, b: ConnectionProgress, to: ConnectionProgress)
        requires
            old(self).wf(),
        ensures
            final(self).wf(),
            final(self)@.local_id == old(self)@.local_id,
            final(self)@.connections == move_all(old(self)@.connections, a, b, to),
    {
        let ghost vs = self.connections@;
        let n = self.connections.len();
        for i in 0..n
            invariant
                n == self.connections@.len(),
                n == vs.len(),
                vs == old(self).connections@,
                self@.local_id == old(self)@.local_id,
                forall|j: int|
                    0 <= j < n ==> self.connections@[j]@ == if j < i && (vs[j]@.progress == a
                        || vs[j]@.progress == b) {
                        with_progress(vs[j]@, to)
                    } else {
                        vs[j]@
                    },
        {
            let q = self.connections[i].progress;
            if q == a || q == b {
                self.connections[i].set_progress(to);
            }
        }
        let ghost cs = old(self)@.connections;
        assert(forall|j: int| 0 <= j < n ==> cs[j] == vs[j]@);
        assert(self@.connections =~= move_all(cs, a, b, to));
        assert forall|x: int, y: int|
            0 <= x < y < n implies self@.connections[x].id != self@.connections[y].id by {
            assert(cs[x].id != cs[y].id);
        }
    }
}

/// The sidebar entry that the presentation layer shows.
#[derive(Clone, Debug, PartialEq, Eq, Default)]
pub enum SidebarButton {
    #[default]
    NewConnection,
    Chat(UserId),
}

/// What the presentation layer holds: its inputs and the last snapshot of the
/// table.
#[derive(Clone, Debug, PartialEq, Default)]
pub struct GUIState {
    pub remote_id: String,
    pub current_message: String,
    pub current_sidebar_button: SidebarButton,
    pub display_state: IndependentState,
}

} // verus!
