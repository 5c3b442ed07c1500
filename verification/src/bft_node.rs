//! A replica of the three-phase consensus. The node's decisions are verified
//! here: which sequence number the primary assigns, when a replica votes
//! prepare or commit, when it replies to the client, how a joining node is
//! numbered. What a node sends is queued in its outbox as an action; the
//! program around the library encodes and delivers it.
use vstd::prelude::*;
use std::collections::HashMap;
use crate::bft_message::{
    Bft_Message, Bft_Replay, Bft_PrePrepare_Message, Bft_Prepare_Message, Bft_Commit_Message,
    spec_message_digest,
};
use crate::text::{str_equal, push_decimal, spec_decimal};

verus! {

/// A member of the consensus network: its id, where it listens, and its key.
pub struct Btf_Node_Simple {
    pub node_id: u64,
    pub address: String,
    pub port: String,
    pub public_key: String,
}

impl Clone for Btf_Node_Simple {
    fn clone(&self) -> (r: Self)
        ensures
            r == *self,
    {
        Btf_Node_Simple {
            node_id: self.node_id,
            address: self.address.clone(),
            port: self.port.clone(),
            public_key: self.public_key.clone(),
        }
    }
}

impl Btf_Node_Simple {
    pub fn get_node_id(&self) -> (id: u64)
        ensures
            id == self.node_id,
    {
        self.node_id
    }

    pub fn new(_node_id: u64, _address: &str, _port: &str, _pub_key: &str) -> (node: Btf_Node_Simple)
        ensures
            node.node_id == _node_id,
            node.address@ == _address@,
            node.port@ == _port@,
            node.public_key@ == _pub_key@,
    {
        Btf_Node_Simple {
            node_id: _node_id,
            address: _address.to_string(),
            port: _port.to_string(),
            public_key: _pub_key.to_string(),
        }
    }
}

/// A request of a new node to join the network.
pub struct Bft_Regist_Msg {
    pub address: String,
    pub port: String,
    pub public_key: String,
}

impl Bft_Regist_Msg {
    pub fn new(_ip: &str, _port: &str, _pub_key: &str) -> (msg: Bft_Regist_Msg)
        ensures
            msg.address@ == _ip@,
            msg.port@ == _port@,
            msg.public_key@ == _pub_key@,
    {
        Bft_Regist_Msg {
            address: _ip.to_string(),
            port: _port.to_string(),
            public_key: _pub_key.to_string(),
        }
    }
}

/// The primary's answer to a joining node: the members, the view, and the
/// id given to the new node.
pub struct Bft_Regist_Reply {
    pub node_list: Vec<Btf_Node_Simple>,
    pub view_num: u64,
    pub check_point_num: u64,
    pub node_id: u64,
}

impl Bft_Regist_Reply {
    pub fn new(_node_list: Vec<Btf_Node_Simple>, _view_num: u64, _check_point_num: u64, _node_id: u64) -> (reply: Bft_Regist_Reply)
        ensures
            reply.node_list@ == _node_list@,
            reply.view_num == _view_num,
            reply.check_point_num == _check_point_num,
            reply.node_id == _node_id,
    {
        Bft_Regist_Reply {
            node_list: _node_list,
            view_num: _view_num,
            check_point_num: _check_point_num,
            node_id: _node_id,
        }
    }

    pub fn get_view_num(&self) -> (v: u64)
        ensures
            v == self.view_num,
    {
        self.view_num
    }

    pub fn get_node_id(&self) -> (n: u64)
        ensures
            n == self.node_id,
    {
        self.node_id
    }

    /// The members that the reply lists (the name is the wire protocol's).
    pub fn get_node_ist(self) -> (list: Vec<Btf_Node_Simple>)
        ensures
            list@ == self.node_list@,
    {
        self.node_list
    }
}

/// A replica's request to change the view when a request has waited too long.
pub struct Bft_View_Change_Message {
    pub view_num: u64,
    pub sequence_num: u64,
    pub check_point_num: u64,
    pub sign: String,
    pub node_id: u64,
}

impl Bft_View_Change_Message {
    pub fn new(_view_num: u64, _sequence_num: u64, _check_point_num: u64, _sign: &str, _node_id: u64) -> (msg: Bft_View_Change_Message)
        ensures
            msg.view_num == _view_num,
            msg.sequence_num == _sequence_num,
            msg.check_point_num == _check_point_num,
            msg.sign@ == _sign@,
            msg.node_id == _node_id,
    {
        Bft_View_Change_Message {
            view_num: _view_num,
            sequence_num: _sequence_num,
            check_point_num: _check_point_num,
            sign: _sign.to_string(),
            node_id: _node_id,
        }
    }
}

impl Clone for Bft_View_Change_Message {
    fn clone(&self) -> (r: Self)
        ensures
            r == *self,
    {
        Bft_View_Change_Message {
            view_num: self.view_num,
            sequence_num: self.sequence_num,
            check_point_num: self.check_point_num,
            sign: self.sign.clone(),
            node_id: self.node_id,
        }
    }
}

/// A message that a node sends to the other members.
pub enum Bft_Broadcast_Msg {
    PrePrepare(Bft_PrePrepare_Message),
    Prepare(Bft_Prepare_Message),
    Commit(Bft_Commit_Message),
    Replay(Bft_Replay),
    NewNode(Btf_Node_Simple),
    ViewChange(Bft_View_Change_Message),
}

impl Bft_Broadcast_Msg {
    /// The command word under which the message travels.
    pub fn command(&self) -> (c: &'static str)
        ensures
            c@ == spec_command(*self),
    {
        match self {
            Bft_Broadcast_Msg::PrePrepare(_) => "prePrepare",
            Bft_Broadcast_Msg::Prepare(_) => "prepare",
            Bft_Broadcast_Msg::Commit(_) => "commit",
            Bft_Broadcast_Msg::Replay(_) => "replay",
            Bft_Broadcast_Msg::NewNode(_) => "newnode",
            Bft_Broadcast_Msg::ViewChange(_) => "viewchange",
        }
    }
}

/// The command word of each kind of broadcast message.
pub open spec fn spec_command(m: Bft_Broadcast_Msg) -> Seq<char> {
    match m {
        Bft_Broadcast_Msg::PrePrepare(_) => "prePrepare"@,
        Bft_Broadcast_Msg::Prepare(_) => "prepare"@,
        Bft_Broadcast_Msg::Commit(_) => "commit"@,
        Bft_Broadcast_Msg::Replay(_) => "replay"@,
        Bft_Broadcast_Msg::NewNode(_) => "newnode"@,
        Bft_Broadcast_Msg::ViewChange(_) => "viewchange"@,
    }
}

/// What a node asks the program around it to do.
pub enum Node_Action {
    /// Send `msg` to each of `targets`.
    Broadcast { targets: Vec<Btf_Node_Simple>, msg: Bft_Broadcast_Msg },
    /// Append `line` to the message log.
    SaveLog { line: String },
}

/// A broadcast message, with the text fields that the node builds taken by
/// their characters.
pub enum Broadcast_View {
    PrePrepare { view_num: u64, sequence_num: u64, msg_digest: Seq<char>, client_msg: Bft_Message },
    Prepare(Bft_Prepare_Message),
    Commit(Bft_Commit_Message),
    Replay { view_num: u64, timestamp: u64, client_id: String, node_id: u64, payload: Seq<char> },
    NewNode(Btf_Node_Simple),
    ViewChange { view_num: u64, sequence_num: u64, check_point_num: u64, sign: Seq<char>, node_id: u64 },
}

/// An action of the outbox, as the contracts speak of it.
pub enum Action_View {
    Broadcast { targets: Seq<Btf_Node_Simple>, msg: Broadcast_View },
    SaveLog(Seq<char>),
}

pub open spec fn broadcast_view(m: Bft_Broadcast_Msg) -> Broadcast_View {
    match m {
        Bft_Broadcast_Msg::PrePrepare(p) => Broadcast_View::PrePrepare {
            view_num: p.view_num,
            sequence_num: p.sequence_num,
            msg_digest: p.msg_digest@,
            client_msg: p.client_msg,
        },
        Bft_Broadcast_Msg::Prepare(p) => Broadcast_View::Prepare(p),
        Bft_Broadcast_Msg::Commit(c) => Broadcast_View::Commit(c),
        Bft_Broadcast_Msg::Replay(r) => Broadcast_View::Replay {
            view_num: r.view_num,
            timestamp: r.timestamp,
            client_id: r.client_id,
            node_id: r.node_id,
            payload: r.payload@,
        },
        Bft_Broadcast_Msg::NewNode(n) => Broadcast_View::NewNode(n),
        Bft_Broadcast_Msg::ViewChange(v) => Broadcast_View::ViewChange {
            view_num: v.view_num,
            sequence_num: v.sequence_num,
            check_point_num: v.check_point_num,
            sign: v.sign@,
            node_id: v.node_id,
        },
    }
}

pub open spec fn action_view(a: Node_Action) -> Action_View {
    match a {
        Node_Action::Broadcast { targets, msg } => Action_View::Broadcast {
            targets: targets@,
            msg: broadcast_view(msg),
        },
        Node_Action::SaveLog { line } => Action_View::SaveLog(line@),
    }
}

/// The abstract state of a node.
pub struct Bft_Node_State {
    pub base: Btf_Node_Simple,
    pub status: Seq<char>,
    pub view_num: u64,
    pub is_primary: bool,
    pub node_list: Seq<Btf_Node_Simple>,
    /// The requests known to this node, by sequence number.
    pub msg_cache: Map<u64, Bft_Message>,
    /// The prepare votes received, by sequence number, in arrival order.
    pub prepare_cache: Map<u64, Seq<Bft_Prepare_Message>>,
    /// The commit votes received, by sequence number, in arrival order.
    pub commit_cache: Map<u64, Seq<Bft_Commit_Message>>,
    pub private_key: Seq<char>,
    /// The actions not yet handed to the program, oldest first.
    pub outbox: Seq<Action_View>,
}

/// A consensus replica.
pub struct Btf_Node {
    base: Btf_Node_Simple,
    status: String,
    view_num: u64,
    is_primary: bool,
    node_list: Vec<Btf_Node_Simple>,
    msg_cache: HashMap<u64, Bft_Message>,
    prepare_cache: HashMap<u64, Vec<Bft_Prepare_Message>>,
    commit_cache: HashMap<u64, Vec<Bft_Commit_Message>>,
    private_key: String,
    outbox: Vec<Node_Action>,
}

/// A map of vectors taken as a map of sequences.
pub open spec fn seq_cache<T>(m: Map<u64, Vec<T>>) -> Map<u64, Seq<T>> {
    Map::new(|k: u64| m.contains_key(k), |k: u64| m[k]@)
}

impl View for Btf_Node {
    type V = Bft_Node_State;

    closed spec fn view(&self) -> Bft_Node_State {
        Bft_Node_State {
            base: self.base,
            status: self.status@,
            view_num: self.view_num,
            is_primary: self.is_primary,
            node_list: self.node_list@,
            msg_cache: self.msg_cache@,
            prepare_cache: seq_cache(self.prepare_cache@),
            commit_cache: seq_cache(self.commit_cache@),
            private_key: self.private_key@,
            outbox: self.outbox@.map_values(|a: Node_Action| action_view(a)),
        }
    }
}

// ---------------------------------------------------------------------------
// The protocol, stated over the abstract state.
// ---------------------------------------------------------------------------

/// The members that a broadcast reaches: every member but the sender.
pub open spec fn broadcast_targets(list: Seq<Btf_Node_Simple>, self_id: u64) -> Seq<Btf_Node_Simple> {
    list.filter(|n: Btf_Node_Simple| n.node_id != self_id)
}

/// Appends `x` to the list kept under `k`, starting the list if there is none.
pub open spec fn cache_push<T>(cache: Map<u64, Seq<T>>, k: u64, x: T) -> Map<u64, Seq<T>> {
    cache.insert(k, if cache.contains_key(k) { cache[k].push(x) } else { seq![x] })
}

/// The first prepare vote in `list` cast by node `id`.
pub open spec fn first_vote_of(list: Seq<Bft_Prepare_Message>, id: u64) -> Option<Bft_Prepare_Message>
    decreases list.len(),
{
    if list.len() == 0 {
        None
    } else if list[0].node_id == id {
        Some(list[0])
    } else {
        first_vote_of(list.drop_first(), id)
    }
}

/// The last member of `list` with id `id`.
pub open spec fn find_member(list: Seq<Btf_Node_Simple>, id: u64) -> Option<Btf_Node_Simple>
    decreases list.len(),
{
    if list.len() == 0 {
        None
    } else if list.last().node_id == id {
        Some(list.last())
    } else {
        find_member(list.drop_last(), id)
    }
}

/// The largest member id of `list`, 0 for an empty list.
pub open spec fn max_member_id(list: Seq<Btf_Node_Simple>) -> u64
    decreases list.len(),
{
    if list.len() == 0 {
        0
    } else {
        let m = max_member_id(list.drop_last());
        if m < list.last().node_id { list.last().node_id } else { m }
    }
}

/// Prepare votes needed before a node commits: more than two thirds of the members.
pub open spec fn prepare_quorum(members: nat) -> nat {
    members * 2 / 3 + 1
}

/// The number of faulty members that `members` members tolerate:
/// f = (members - 1) / 3.
pub open spec fn faults_tolerated(members: nat) -> nat {
    if members == 0 { 0 } else { ((members - 1) / 3) as nat }
}

/// Commit votes needed before a node replies while its view is unchanged
/// (a node never changes its view): 2f + 1 of the members.
pub open spec fn commit_quorum(members: nat) -> nat {
    2 * faults_tolerated(members) + 1
}

/// Adds an action to the outbox.
pub open spec fn emit(s: Bft_Node_State, a: Action_View) -> Bft_Node_State {
    Bft_Node_State { outbox: s.outbox.push(a), ..s }
}

/// Broadcasts a message to every other member.
pub open spec fn emit_broadcast(s: Bft_Node_State, msg: Broadcast_View) -> Bft_Node_State {
    emit(s, Action_View::Broadcast { targets: broadcast_targets(s.node_list, s.base.node_id), msg })
}

/// This node's prepare vote for `seq`.
pub open spec fn own_prepare(s: Bft_Node_State, seq: u64) -> Bft_Prepare_Message {
    Bft_Prepare_Message {
        view_num: s.view_num,
        sequence_num: seq,
        msg_digest: s.base.public_key,
        node_id: s.base.node_id,
    }
}

/// This node's commit vote for `seq`.
pub open spec fn own_commit(s: Bft_Node_State, seq: u64) -> Bft_Commit_Message {
    Bft_Commit_Message {
        view_num: s.view_num,
        sequence_num: seq,
        msg_digest: s.base.public_key,
        node_id: s.base.node_id,
    }
}

/// A request with its progress set to `status`.
pub open spec fn with_status(m: Bft_Message, status: u64) -> Bft_Message {
    Bft_Message { status, ..m }
}

/// The log line written when a request commits.
pub open spec fn commit_log_line(seq: u64, payload: Seq<char>) -> Seq<char> {
    "commit "@ + spec_decimal(seq as nat) + " "@ + payload
}

/// The primary accepts a client request under sequence number `num`.
pub open spec fn spec_accept_client_msg(s: Bft_Node_State, msg: Bft_Message, num: u64) -> Bft_Node_State {
    let s1 = Bft_Node_State { msg_cache: s.msg_cache.insert(num, msg), ..s };
    emit_broadcast(s1, Broadcast_View::PrePrepare {
        view_num: s.view_num,
        sequence_num: num,
        msg_digest: spec_message_digest(msg),
        client_msg: msg,
    })
}

/// A replica handles the primary's pre-prepare: it records the request as
/// prepared and votes prepare, once; a proposal of another view, or of a
/// sequence number already taken by another request, changes nothing.
pub open spec fn spec_do_prepare(s: Bft_Node_State, m: Bft_PrePrepare_Message) -> Bft_Node_State {
    let seq = m.sequence_num;
    if m.view_num != s.view_num {
        s
    } else if s.msg_cache.contains_key(seq) {
        if s.msg_cache[seq].id@ == m.client_msg.id@ {
            let own = if s.prepare_cache.contains_key(seq) {
                first_vote_of(s.prepare_cache[seq], s.base.node_id)
            } else {
                None
            };
            let s1 = match own {
                Some(p) => emit_broadcast(s, Broadcast_View::Prepare(p)),
                None => emit_broadcast(
                    Bft_Node_State {
                        prepare_cache: cache_push(s.prepare_cache, seq, own_prepare(s, seq)),
                        ..s
                    },
                    Broadcast_View::Prepare(own_prepare(s, seq)),
                ),
            };
            Bft_Node_State {
                msg_cache: s1.msg_cache.insert(seq, with_status(s.msg_cache[seq], 2)),
                ..s1
            }
        } else {
            s
        }
    } else {
        let s1 = Bft_Node_State {
            msg_cache: s.msg_cache.insert(seq, with_status(m.client_msg, 2)),
            prepare_cache: cache_push(s.prepare_cache, seq, own_prepare(s, seq)),
            ..s
        };
        emit_broadcast(s1, Broadcast_View::Prepare(own_prepare(s, seq)))
    }
}

/// Whether the prepare votes for `seq` reach the quorum.
pub open spec fn spec_can_commit(s: Bft_Node_State, seq: u64) -> bool {
    s.prepare_cache.contains_key(seq)
        && s.prepare_cache[seq].len() >= prepare_quorum(s.node_list.len())
}

/// A replica records a prepare vote of a known member of its view; once the
/// votes reach the quorum for a request it knows, it votes commit and, the
/// first time, logs the commit and broadcasts its vote.
pub open spec fn spec_receive_prepare(s: Bft_Node_State, m: Bft_Prepare_Message) -> Bft_Node_State {
    let seq = m.sequence_num;
    if m.view_num != s.view_num || find_member(s.node_list, m.node_id) is None {
        s
    } else {
        let s1 = Bft_Node_State { prepare_cache: cache_push(s.prepare_cache, seq, m), ..s };
        if spec_can_commit(s1, seq) && s1.msg_cache.contains_key(seq) {
            let c = own_commit(s1, seq);
            let s2 = Bft_Node_State { commit_cache: cache_push(s1.commit_cache, seq, c), ..s1 };
            if s1.msg_cache[seq].status != 3 {
                let s3 = emit(s2, Action_View::SaveLog(commit_log_line(seq, s1.msg_cache[seq].payload@)));
                let s4 = Bft_Node_State {
                    msg_cache: s3.msg_cache.insert(seq, with_status(s1.msg_cache[seq], 3)),
                    ..s3
                };
                emit_broadcast(s4, Broadcast_View::Commit(c))
            } else {
                s2
            }
        } else {
            s1
        }
    }
}

/// A replica replies to the client once the commit votes for a request it
/// knows reach the quorum.
pub open spec fn spec_do_replay(s: Bft_Node_State, seq: u64) -> Bft_Node_State {
    if !s.commit_cache.contains_key(seq) || !s.msg_cache.contains_key(seq) {
        s
    } else if s.commit_cache[seq].len() >= commit_quorum(s.node_list.len()) {
        let m = s.msg_cache[seq];
        emit_broadcast(s, Broadcast_View::Replay {
            view_num: s.view_num,
            timestamp: m.timestamp,
            client_id: m.client_id,
            node_id: s.base.node_id,
            payload: "succes process"@,
        })
    } else {
        s
    }
}

/// A replica records a commit vote whose digest is the key of a known
/// member, then replies if the votes suffice.
pub open spec fn spec_receive_commit(s: Bft_Node_State, m: Bft_Commit_Message) -> Bft_Node_State {
    match find_member(s.node_list, m.node_id) {
        None => s,
        Some(n) => if n.public_key@ != m.msg_digest@ {
            s
        } else {
            spec_do_replay(
                Bft_Node_State {
                    commit_cache: cache_push(s.commit_cache, m.sequence_num, m),
                    ..s
                },
                m.sequence_num,
            )
        },
    }
}

/// The member that registration adds for a joining node.
pub open spec fn registered_member(s: Bft_Node_State, msg: Bft_Regist_Msg) -> Btf_Node_Simple {
    Btf_Node_Simple {
        node_id: (max_member_id(s.node_list) + 1) as u64,
        address: msg.address,
        port: msg.port,
        public_key: msg.public_key,
    }
}

/// The primary registers a joining node: it announces it to the members and
/// adds it to its list.
pub open spec fn spec_regist_node(s: Bft_Node_State, msg: Bft_Regist_Msg) -> Bft_Node_State {
    let member = registered_member(s, msg);
    let s1 = emit_broadcast(s, Broadcast_View::NewNode(member));
    Bft_Node_State { node_list: s1.node_list.push(member), ..s1 }
}

/// A replica learns of a new member; the primary, which registered it, ignores this.
pub open spec fn spec_receive_new_node(s: Bft_Node_State, n: Btf_Node_Simple) -> Bft_Node_State {
    if s.is_primary {
        s
    } else {
        Bft_Node_State { node_list: s.node_list.push(n), ..s }
    }
}

/// Whether a request that waited too long starts a view change.
pub open spec fn spec_expires(s: Bft_Node_State, seq: u64) -> bool {
    s.msg_cache.contains_key(seq) && s.msg_cache[seq].status == 1
}

/// The view change that a node broadcasts for an expired request.
pub open spec fn spec_view_change(s: Bft_Node_State, seq: u64) -> Broadcast_View {
    Broadcast_View::ViewChange {
        view_num: s.view_num,
        sequence_num: seq,
        check_point_num: 0,
        sign: "signed"@,
        node_id: s.base.node_id,
    }
}

// ---------------------------------------------------------------------------
// Executable node.
// ---------------------------------------------------------------------------

/// Appends `x` to the list kept under `k`.
fn push_to_cache<T>(cache: &mut HashMap<u64, Vec<T>>, k: u64, x: T)
    ensures
        seq_cache(final(cache)@) == cache_push(seq_cache(old(cache)@), k, x),
{
    let ghost old_view = seq_cache(cache@);
    match cache.remove(&k) {
        Some(mut list) => {
            list.push(x);
            cache.insert(k, list);
        },
        None => {
            let mut list = Vec::new();
            list.push(x);
            cache.insert(k, list);
        },
    }
    assert(seq_cache(cache@) =~= cache_push(old_view, k, x));
}

fn next_sequence_number(cache: &HashMap<u64, Bft_Message>) -> (num: u64)
    requires
        forall|k: u64| cache@.contains_key(k) ==> k < u64::MAX,
    ensures
        is_next_sequence(cache@.dom(), num),
{
    let mut num: u64 = 0;
    for key in it: cache.keys()
        invariant
            forall|k: u64| cache@.contains_key(k) ==> k < u64::MAX,
            it.seq().unref().to_set() == cache@.dom(),
            forall|j: int| 0 <= j < it.seq().len() ==> cache@.contains_key(#[trigger] it.seq().unref()[j]),
            forall|j: int| 0 <= j < it.index() ==> *it.seq()[j] < num,
            forall|k: u64| cache@.contains_key(k) ==> (k < num || exists|j: int|
                it.index() <= j < it.seq().len() && *it.seq()[j] == k),
            num == 0 || cache@.contains_key((num - 1) as u64),
    {
        if num <= *key {
            num = *key + 1;
        }
    }
    num
}


/// Whether `s` is the state of a node just created with these parameters:
/// the node adds itself to the member list, and its caches and outbox are empty.
pub open spec fn is_new_node_state(
    s: Bft_Node_State,
    view_num: u64,
    node_list: Seq<Btf_Node_Simple>,
    ip: Seq<char>,
    port: Seq<char>,
    node_id: u64,
    is_primary: bool,
) -> bool {
    &&& s.base.node_id == node_id
    &&& s.base.address@ == ip
    &&& s.base.port@ == port
    &&& s.base.public_key@ == ""@
    &&& s.status == "new"@
    &&& s.view_num == view_num
    &&& s.is_primary == is_primary
    &&& s.node_list == node_list.push(s.base)
    &&& s.msg_cache == Map::<u64, Bft_Message>::empty()
    &&& s.prepare_cache == Map::<u64, Seq<Bft_Prepare_Message>>::empty()
    &&& s.commit_cache == Map::<u64, Seq<Bft_Commit_Message>>::empty()
    &&& s.private_key == "private"@
    &&& s.outbox == Seq::<Action_View>::empty()
}

impl Btf_Node {
    fn new(_view_num: u64, _node_list: Vec<Btf_Node_Simple>, _ip: &str, _port: &str, _node_id: u64, isPrimary: bool) -> (node: Btf_Node)
        ensures
            is_new_node_state(node@, _view_num, _node_list@, _ip@, _port@, _node_id, isPrimary),
    {
        let bft_simple = Btf_Node_Simple {
            node_id: _node_id,
            address: _ip.to_string(),
            port: _port.to_string(),
            public_key: "".to_string(),
        };
        let mut node_list = _node_list;
        node_list.push(bft_simple.clone());
        let node = Btf_Node {
            base: bft_simple,
            status: "new".to_string(),
            view_num: _view_num,
            is_primary: isPrimary,
            node_list,
            msg_cache: HashMap::new(),
            prepare_cache: HashMap::new(),
            commit_cache: HashMap::new(),
            private_key: "private".to_string(),
            outbox: Vec::new(),
        };
        assert(seq_cache(node.prepare_cache@) =~= Map::<u64, Seq<Bft_Prepare_Message>>::empty());
        assert(seq_cache(node.commit_cache@) =~= Map::<u64, Seq<Bft_Commit_Message>>::empty());
        assert(node@.outbox =~= Seq::<Action_View>::empty());
        node
    }

    /// Starts a node. Without a primary address it is the first node, the
    /// primary of view 1 with id 1. Otherwise it joins as a replica with the
    /// view, members and id of the primary's registration reply, or, without
    /// a reply, of view 0 with id 1 and no other member.
    pub fn start_node(
        _primary_address: &str,
        _primary_port: &str,
        _ip: &str,
        _port: &str,
        reply: Option<Bft_Regist_Reply>,
    ) -> (node: Btf_Node)
        ensures
            _primary_address@.len() > 0 ==> match reply {
                Some(r) => is_new_node_state(node@, r.view_num, r.node_list@, _ip@, _port@, r.node_id, false),
                None => is_new_node_state(node@, 0, Seq::empty(), _ip@, _port@, 1, false),
            },
            _primary_address@.len() == 0 ==> is_new_node_state(node@, 1, Seq::empty(), _ip@, _port@, 1, true),
    {
        if _primary_address.unicode_len() > 0 {
            match reply {
                Some(r) => {
                    let view_num = r.get_view_num();
                    let node_id = r.get_node_id();
                    let list = r.get_node_ist();
                    Btf_Node::new(view_num, list, _ip, _port, node_id, false)
                },
                None => Btf_Node::new(0, Vec::new(), _ip, _port, 1, false),
            }
        } else {
            Btf_Node::new(1, Vec::new(), _ip, _port, 1, true)
        }
    }

    pub fn get_node_base(&self) -> (base: &Btf_Node_Simple)
        ensures
            *base == self@.base,
    {
        &self.base
    }

    pub fn get_view_num(&self) -> (v: u64)
        ensures
            v == self@.view_num,
    {
        self.view_num
    }

    /// Hands the queued actions to the caller, oldest first, and empties the outbox.
    pub fn take_actions(&mut self) -> (actions: Vec<Node_Action>)
        ensures
            actions@.map_values(|a: Node_Action| action_view(a)) == old(self)@.outbox,
            final(self)@ == (Bft_Node_State { outbox: Seq::empty(), ..old(self)@ }),
    {
        let mut actions = Vec::new();
        std::mem::swap(&mut actions, &mut self.outbox);
        assert(self@.outbox =~= Seq::<Action_View>::empty());
        actions
    }

    /// Whether the node can take a client's request: a replica always can;
    /// the primary can while no request it knows has the largest sequence
    /// number.
    pub fn can_receive_client_msg(&self) -> (r: bool)
        ensures
            r == (self@.is_primary ==> forall|k: u64| self@.msg_cache.contains_key(k) ==> k < u64::MAX),
    {
        if !self.is_primary {
            return true;
        }
        for key in it: self.msg_cache.keys()
            invariant
                self.is_primary,
                it.seq().unref().to_set() == self.msg_cache@.dom(),
                forall|j: int| 0 <= j < it.seq().len() ==> self.msg_cache@.contains_key(#[trigger] it.seq().unref()[j]),
                forall|k: u64| self.msg_cache@.contains_key(k) ==> (k < u64::MAX || exists|j: int|
                    it.index() <= j < it.seq().len() && *it.seq()[j] == k),
        {
            if *key == u64::MAX {
                assert(*it.seq()[it.index() as int] == *key);
                assert(self.msg_cache@.contains_key(it.seq().unref()[it.index() as int]));
                assert(self@.msg_cache.contains_key(*key));
                return false;
            }
        }
        true
    }

    /// Whether the primary has a node id left for a joining node: no member
    /// has the largest id.
    pub fn has_free_node_id(&self) -> (r: bool)
        ensures
            r == (max_member_id(self@.node_list) < u64::MAX),
    {
        let mut max: u64 = 0;
        let n = self.node_list.len();
        for i in 0..n
            invariant
                n == self.node_list@.len(),
                max == max_member_id(self.node_list@.take(i as int)),
        {
            assert(self.node_list@.take(i + 1).drop_last() =~= self.node_list@.take(i as int));
            if max < self.node_list[i].node_id {
                max = self.node_list[i].node_id;
            }
        }
        assert(self.node_list@.take(n as int) =~= self.node_list@);
        max < u64::MAX
    }

    /// The members that a broadcast from this node reaches.
    pub fn broadcast_targets(&self) -> (targets: Vec<Btf_Node_Simple>)
        ensures
            targets@ == broadcast_targets(self@.node_list, self@.base.node_id),
    {
        let ghost pred = |n: Btf_Node_Simple| n.node_id != self.base.node_id;
        let mut targets: Vec<Btf_Node_Simple> = Vec::new();
        let n = self.node_list.len();
        for i in 0..n
            invariant
                n == self.node_list@.len(),
                pred == (|n: Btf_Node_Simple| n.node_id != self.base.node_id),
                targets@ == self.node_list@.take(i as int).filter(pred),
        {
            let member = &self.node_list[i];
            proof {
                assert(self.node_list@.take(i + 1) =~= self.node_list@.take(i as int).push(self.node_list@[i as int]));
                self.node_list@.take(i as int).lemma_filter_push(self.node_list@[i as int], pred);
            }
            if member.node_id != self.base.node_id {
                targets.push(member.clone());
            }
        }
        assert(self.node_list@.take(n as int) =~= self.node_list@);
        targets
    }

    fn push_action(&mut self, a: Node_Action)
        ensures
            final(self)@ == emit(old(self)@, action_view(a)),
    {
        let ghost old_out = self.outbox@;
        self.outbox.push(a);
        assert(self.outbox@.map_values(|a: Node_Action| action_view(a))
            =~= old_out.map_values(|a: Node_Action| action_view(a)).push(action_view(a)));
    }

    fn broadcastMsg(&mut self, msg: Bft_Broadcast_Msg)
        ensures
            final(self)@ == emit_broadcast(old(self)@, broadcast_view(msg)),
    {
        let targets = self.broadcast_targets();
        self.push_action(Node_Action::Broadcast { targets, msg });
    }

    fn set_msg_status(&mut self, seq: u64, status: u64)
        requires
            old(self)@.msg_cache.contains_key(seq),
        ensures
            final(self)@ == (Bft_Node_State {
                msg_cache: old(self)@.msg_cache.insert(seq, with_status(old(self)@.msg_cache[seq], status)),
                ..old(self)@
            }),
    {
        let ghost old_cache = self.msg_cache@;
        match self.msg_cache.remove(&seq) {
            Some(mut m) => {
                m.set_status(status);
                self.msg_cache.insert(seq, m);
            },
            None => {},
        }
        assert(self.msg_cache@ =~= old_cache.insert(seq, with_status(old_cache[seq], status)));
    }

    /// The last member with id `id`.
    fn find_node(&self, id: u64) -> (found: Option<Btf_Node_Simple>)
        ensures
            found == find_member(self@.node_list, id),
    {
        let mut i = self.node_list.len();
        assert(self.node_list@.take(i as int) =~= self.node_list@);
        while i > 0
            invariant
                i <= self.node_list@.len(),
                find_member(self.node_list@, id) == find_member(self.node_list@.take(i as int), id),
            decreases i,
        {
            let ghost prefix = self.node_list@.take(i as int);
            assert(prefix.drop_last() =~= self.node_list@.take(i - 1));
            if self.node_list[i - 1].node_id == id {
                return Some(self.node_list[i - 1].clone());
            }
            i -= 1;
        }
        assert(self.node_list@.take(0) =~= Seq::<Btf_Node_Simple>::empty());
        None
    }

    /// This node's own prepare vote for `seq`, if it has cast one.
    fn find_own_prepare(&self, seq: u64) -> (found: Option<Bft_Prepare_Message>)
        ensures
            found == (if self@.prepare_cache.contains_key(seq) {
                first_vote_of(self@.prepare_cache[seq], self@.base.node_id)
            } else {
                None
            }),
    {
        match self.prepare_cache.get(&seq) {
            None => None,
            Some(list) => {
                assert(list@ == self@.prepare_cache[seq]);
                assert(list@.skip(0) =~= list@);
                let mut i: usize = 0;
                while i < list.len()
                    invariant
                        i <= list@.len(),
                        self@.prepare_cache.contains_key(seq),
                        list@ == self@.prepare_cache[seq],
                        first_vote_of(list@, self.base.node_id) == first_vote_of(list@.skip(i as int), self.base.node_id),
                    decreases list.len() - i,
                {
                    assert(list@.skip(i as int).drop_first() =~= list@.skip(i + 1));
                    if list[i].node_id == self.base.node_id {
                        assert(list@.skip(i as int)[0] == list@[i as int]);
                        return Some(list[i].clone());
                    }
                    i += 1;
                }
                None
            },
        }
    }

    fn own_prepare(&self, seq: u64) -> (p: Bft_Prepare_Message)
        ensures
            p == own_prepare(self@, seq),
    {
        Bft_Prepare_Message {
            view_num: self.view_num,
            sequence_num: seq,
            msg_digest: self.base.public_key.clone(),
            node_id: self.base.node_id,
        }
    }

    fn own_commit(&self, seq: u64) -> (c: Bft_Commit_Message)
        ensures
            c == own_commit(self@, seq),
    {
        Bft_Commit_Message {
            view_num: self.view_num,
            sequence_num: seq,
            msg_digest: self.base.public_key.clone(),
            node_id: self.base.node_id,
        }
    }

    /// The primary accepts a client request: it gives it the next free
    /// sequence number and broadcasts its pre-prepare; the number is returned.
    /// A replica ignores client requests and returns 0.
    pub fn receiveClientMsg(&mut self, msg: Bft_Message) -> (num: u64)
        requires
            old(self)@.is_primary ==> forall|k: u64| old(self)@.msg_cache.contains_key(k) ==> k < u64::MAX,
        ensures
            old(self)@.is_primary ==> {
                &&& is_next_sequence(old(self)@.msg_cache.dom(), num)
                &&& final(self)@ == spec_accept_client_msg(old(self)@, msg, num)
            },
            !old(self)@.is_primary ==> num == 0 && final(self)@ == old(self)@,
    {
        if self.is_primary {
            assert forall|k: u64| self.msg_cache@.contains_key(k) implies k < u64::MAX by {
                assert(old(self)@.msg_cache.contains_key(k));
            }
            let num = next_sequence_number(&self.msg_cache);
            self.msg_cache.insert(num, msg.clone());
            let pre_prepare = Bft_PrePrepare_Message::new(self.view_num, num, msg);
            self.broadcastMsg(Bft_Broadcast_Msg::PrePrepare(pre_prepare));
            num
        } else {
            0
        }
    }

    /// Handles the primary's pre-prepare (see `spec_do_prepare`); returns the
    /// proposal's view and sequence number.
    pub fn doPrepare(&mut self, msg: Bft_PrePrepare_Message) -> (r: (u64, u64))
        ensures
            r == (msg.view_num, msg.sequence_num),
            final(self)@ == spec_do_prepare(old(self)@, msg),
    {
        let view_num = msg.get_view_num();
        let seq = msg.get_sequence_num();
        if view_num != self.view_num {
            return (view_num, seq);
        }
        if self.msg_cache.contains_key(&seq) {
            let same = match self.msg_cache.get(&seq) {
                Some(receive_msg) => str_equal(receive_msg.get_id(), msg.get_client_msg().get_id()),
                None => false,
            };
            if same {
                match self.find_own_prepare(seq) {
                    Some(prepare_msg) => {
                        self.broadcastMsg(Bft_Broadcast_Msg::Prepare(prepare_msg));
                    },
                    None => {
                        let prepare_msg = self.own_prepare(seq);
                        push_to_cache(&mut self.prepare_cache, seq, prepare_msg.clone());
                        self.broadcastMsg(Bft_Broadcast_Msg::Prepare(prepare_msg));
                    },
                }
                self.set_msg_status(seq, 2);
            }
            (view_num, seq)
        } else {
            let mut client_msg = msg.get_client_msg().clone();
            client_msg.set_status(2);
            self.msg_cache.insert(seq, client_msg);
            let prepare_msg = self.own_prepare(seq);
            push_to_cache(&mut self.prepare_cache, seq, prepare_msg.clone());
            self.broadcastMsg(Bft_Broadcast_Msg::Prepare(prepare_msg));
            (view_num, seq)
        }
    }

    /// Whether the prepare votes for `seq` reach the quorum.
    fn checkIfCommit(&self, _sequence_num: u64) -> (r: bool)
        ensures
            r == spec_can_commit(self@, _sequence_num),
    {
        match self.prepare_cache.get(&_sequence_num) {
            None => false,
            Some(list) => {
                let min_pass_count: u128 = (self.node_list.len() as u128) * 2 / 3 + 1;
                (list.len() as u128) >= min_pass_count
            },
        }
    }

    /// Handles a prepare vote (see `spec_receive_prepare`).
    pub fn receivePrepare(&mut self, msg: Bft_Prepare_Message)
        ensures
            final(self)@ == spec_receive_prepare(old(self)@, msg),
    {
        if msg.get_view_num() != self.view_num {
            return;
        }
        if self.find_node(msg.get_node_id()).is_none() {
            return;
        }
        let seq = msg.get_sequence_num();
        push_to_cache(&mut self.prepare_cache, seq, msg);
        let has_commit = self.checkIfCommit(seq);
        if has_commit && self.msg_cache.contains_key(&seq) {
            let commit_msg = self.own_commit(seq);
            push_to_cache(&mut self.commit_cache, seq, commit_msg.clone());
            let log_line = match self.msg_cache.get(&seq) {
                Some(receive_msg) => if receive_msg.get_status() != 3 {
                    let mut line = "commit ".to_string();
                    push_decimal(&mut line, seq);
                    line.append(" ");
                    line.append(receive_msg.get_payload());
                    Some(line)
                } else {
                    None
                },
                None => None,
            };
            match log_line {
                Some(line) => {
                    self.push_action(Node_Action::SaveLog { line });
                    self.set_msg_status(seq, 3);
                    self.broadcastMsg(Bft_Broadcast_Msg::Commit(commit_msg));
                },
                None => {},
            }
        }
    }

    /// Handles a commit vote (see `spec_receive_commit`).
    pub fn receiveCommit(&mut self, msg: Bft_Commit_Message)
        ensures
            final(self)@ == spec_receive_commit(old(self)@, msg),
    {
        match self.find_node(msg.get_node_id()) {
            None => {
                return;
            },
            Some(simple_node) => {
                if !str_equal(simple_node.public_key.as_str(), msg.get_msg_digest().as_str()) {
                    return;
                }
            },
        }
        let seq = msg.get_sequence_num();
        push_to_cache(&mut self.commit_cache, seq, msg);
        self.doReplay(seq);
    }

    /// Replies to the client of request `seq` if the commit votes suffice
    /// (see `spec_do_replay`).
    pub fn doReplay(&mut self, _sequence_num: u64)
        ensures
            final(self)@ == spec_do_replay(old(self)@, _sequence_num),
    {
        if !self.commit_cache.contains_key(&_sequence_num) {
            return;
        }
        if !self.msg_cache.contains_key(&_sequence_num) {
            return;
        }
        let msg = match self.msg_cache.get(&_sequence_num) {
            Some(m) => m.clone(),
            None => {
                return;
            },
        };
        let count = match self.commit_cache.get(&_sequence_num) {
            Some(list) => list.len(),
            None => 0,
        };
        let members = self.node_list.len();
        let min_pass_count = if members == 0 { 1 } else { 2 * ((members - 1) / 3) + 1 };
        if count >= min_pass_count {
            let replay_msg = Bft_Replay::new(self.view_num, "succes process", self.base.node_id, msg);
            self.broadcastMsg(Bft_Broadcast_Msg::Replay(replay_msg));
        }
    }

    /// Starts a view change for request `seq` if it is still waiting
    /// (status 1), broadcasting and returning the view change message.
    pub fn handler_expire(&mut self, seq_num: u64) -> (r: Option<Bft_View_Change_Message>)
        ensures
            spec_expires(old(self)@, seq_num) ==> (r matches Some(v) && {
                &&& broadcast_view(Bft_Broadcast_Msg::ViewChange(v)) == spec_view_change(old(self)@, seq_num)
                &&& final(self)@ == emit_broadcast(old(self)@, spec_view_change(old(self)@, seq_num))
            }),
            !spec_expires(old(self)@, seq_num) ==> r is None && final(self)@ == old(self)@,
    {
        let status = match self.msg_cache.get(&seq_num) {
            None => {
                return None;
            },
            Some(m) => m.get_status(),
        };
        if status != 1 {
            return None;
        }
        let view_change_msg = Bft_View_Change_Message::new(self.view_num, seq_num, 0, "signed", self.base.get_node_id());
        self.broadcastMsg(Bft_Broadcast_Msg::ViewChange(view_change_msg.clone()));
        Some(view_change_msg)
    }

    /// Registers a joining node (see `spec_regist_node`) and returns the
    /// reply for it: the members before it joined, the view, and its id.
    pub fn regist_node(&mut self, msg: Bft_Regist_Msg) -> (reply: Bft_Regist_Reply)
        requires
            max_member_id(old(self)@.node_list) < u64::MAX,
        ensures
            reply.node_list@ == old(self)@.node_list,
            reply.view_num == old(self)@.view_num,
            reply.check_point_num == 0,
            reply.node_id == registered_member(old(self)@, msg).node_id,
            final(self)@ == spec_regist_node(old(self)@, msg),
    {
        let mut node_list: Vec<Btf_Node_Simple> = Vec::new();
        let mut node_id: u64 = 0;
        let n = self.node_list.len();
        for i in 0..n
            invariant
                n == self.node_list@.len(),
                node_list@ == self.node_list@.take(i as int),
                node_id == max_member_id(self.node_list@.take(i as int)),
        {
            proof {
                assert(self.node_list@.take(i + 1).drop_last() =~= self.node_list@.take(i as int));
            }
            let node = &self.node_list[i];
            if node_id < node.node_id {
                node_id = node.node_id;
            }
            node_list.push(node.clone());
            assert(node_list@ =~= self.node_list@.take(i + 1));
        }
        assert(self.node_list@.take(n as int) =~= self.node_list@);
        node_id += 1;
        let reply = Bft_Regist_Reply::new(node_list, self.view_num, 0, node_id);
        let bft_slave = Btf_Node_Simple {
            node_id,
            address: msg.address,
            port: msg.port,
            public_key: msg.public_key,
        };
        self.broadcastMsg(Bft_Broadcast_Msg::NewNode(bft_slave.clone()));
        self.node_list.push(bft_slave);
        reply
    }

    /// A replica adds a member that the primary announced.
    pub fn receive_new_node(&mut self, new_node: Btf_Node_Simple)
        ensures
            final(self)@ == spec_receive_new_node(old(self)@, new_node),
    {
        if self.is_primary {
            return;
        }
        self.node_list.push(new_node);
    }
}

/// Whether `num` is the sequence number that the primary gives the next
/// request: one above every number in use, or 0 when none is.
pub open spec fn is_next_sequence(used: Set<u64>, num: u64) -> bool {
    &&& forall|k: u64| used.contains(k) ==> k < num
    &&& (num == 0 || used.contains((num - 1) as u64))
}

} // verus!

verus! {

/// The frame in which a broadcast message travels to each target: its
/// command word, version "v0.1", and `payload`, the message's encoding.
pub fn broadcast_frame(msg: &Bft_Broadcast_Msg, payload: String) -> (frame: crate::communication::BftCommunicationMsg)
    ensures
        frame.command@ == spec_command(*msg),
        frame.version@ == "v0.1"@,
        frame.payload == payload,
        frame.id@ == Seq::<char>::empty(),
        !frame.is_sys,
        frame.from@ == Seq::<char>::empty(),
{
    crate::communication::BftCommunicationMsg {
        id: String::new(),
        is_sys: false,
        command: msg.command().to_string(),
        version: "v0.1".to_string(),
        payload,
        from: String::new(),
    }
}

} // verus!

verus! {

/// The line that records a client's request in the message log:
/// "receiveMsg", the request's digest and its payload.
pub fn receive_log_line(sign: &str, payload: &str) -> (line: String)
    ensures
        line@ == "receiveMsg "@ + sign@ + " "@ + payload@,
{
    let mut line = "receiveMsg ".to_string();
    line.append(sign);
    line.append(" ");
    line.append(payload);
    line
}

/// How long a request may wait, in nanoseconds (180 seconds), before the
/// node takes it as expired and asks for a view change.
pub const EXPIRE_NANOS: u128 = 180_000_000_000;

/// Whether a request that has waited `waited_nanos` nanoseconds has expired:
/// it has waited longer than 180 seconds.
pub fn is_expired(waited_nanos: u128) -> (r: bool)
    ensures
        r == (waited_nanos > EXPIRE_NANOS),
{
    waited_nanos > EXPIRE_NANOS
}

} // verus!
