//! Properties of the consensus protocol that hold over every state and
//! message, stated over the node's abstract transitions.
use vstd::prelude::*;
use crate::bft_message::{Bft_Message, Bft_PrePrepare_Message, Bft_Prepare_Message, Bft_Commit_Message};
use crate::bft_node::{
    Bft_Node_State, Bft_Regist_Msg, Btf_Node_Simple, cache_push, first_vote_of, is_next_sequence,
    max_member_id, registered_member, spec_do_prepare, spec_receive_prepare, spec_receive_commit,
    spec_do_replay, spec_can_commit, prepare_quorum, commit_quorum,
};

verus! {

/// Every list of votes kept before is still kept, as a prefix of the new list.
pub open spec fn votes_kept<T>(before: Map<u64, Seq<T>>, after: Map<u64, Seq<T>>) -> bool {
    forall|k: u64| #[trigger] before.contains_key(k) ==> {
        &&& after.contains_key(k)
        &&& before[k].len() <= after[k].len()
        &&& after[k].subrange(0, before[k].len() as int) == before[k]
    }
}

proof fn lemma_cache_push_keeps<T>(cache: Map<u64, Seq<T>>, k: u64, x: T)
    ensures
        votes_kept(cache, cache_push(cache, k, x)),
{
    let after = cache_push(cache, k, x);
    assert forall|j: u64| #[trigger] cache.contains_key(j) implies {
        &&& after.contains_key(j)
        &&& cache[j].len() <= after[j].len()
        &&& after[j].subrange(0, cache[j].len() as int) == cache[j]
    } by {
        if j == k {
            assert(after[j].subrange(0, cache[j].len() as int) =~= cache[j]);
        } else {
            assert(after[j].subrange(0, cache[j].len() as int) =~= cache[j]);
        }
    }
}

proof fn lemma_votes_kept_refl<T>(cache: Map<u64, Seq<T>>)
    ensures
        votes_kept(cache, cache),
{
    assert forall|j: u64| #[trigger] cache.contains_key(j) implies
        cache[j].subrange(0, cache[j].len() as int) == cache[j] by {
        assert(cache[j].subrange(0, cache[j].len() as int) =~= cache[j]);
    }
}

/// A node never loses a vote: handling a pre-prepare, a prepare or a commit
/// only adds votes to the lists it keeps, never removes or reorders one.
pub proof fn law_votes_never_lost(
    s: Bft_Node_State,
    pp: Bft_PrePrepare_Message,
    p: Bft_Prepare_Message,
    c: Bft_Commit_Message,
    seq: u64,
)
    ensures
        votes_kept(s.prepare_cache, spec_do_prepare(s, pp).prepare_cache),
        votes_kept(s.commit_cache, spec_do_prepare(s, pp).commit_cache),
        votes_kept(s.prepare_cache, spec_receive_prepare(s, p).prepare_cache),
        votes_kept(s.commit_cache, spec_receive_prepare(s, p).commit_cache),
        votes_kept(s.prepare_cache, spec_receive_commit(s, c).prepare_cache),
        votes_kept(s.commit_cache, spec_receive_commit(s, c).commit_cache),
        votes_kept(s.prepare_cache, spec_do_replay(s, seq).prepare_cache),
        votes_kept(s.commit_cache, spec_do_replay(s, seq).commit_cache),
{
    lemma_votes_kept_refl(s.prepare_cache);
    lemma_votes_kept_refl(s.commit_cache);
    lemma_cache_push_keeps(s.prepare_cache, pp.sequence_num, crate::bft_node::own_prepare(s, pp.sequence_num));
    lemma_cache_push_keeps(s.prepare_cache, p.sequence_num, p);
    let pc1 = cache_push(s.prepare_cache, p.sequence_num, p);
    let s1 = Bft_Node_State { prepare_cache: pc1, ..s };
    lemma_cache_push_keeps(s.commit_cache, p.sequence_num, crate::bft_node::own_commit(s1, p.sequence_num));
    lemma_cache_push_keeps(s.commit_cache, c.sequence_num, c);
}

proof fn lemma_first_vote_of_push(list: Seq<Bft_Prepare_Message>, x: Bft_Prepare_Message, id: u64)
    requires
        x.node_id == id,
    ensures
        first_vote_of(list.push(x), id) is Some,
    decreases list.len(),
{
    if list.len() == 0 {
        assert(list.push(x)[0] == x);
    } else if list[0].node_id == id {
    } else {
        assert(list.push(x).drop_first() =~= list.drop_first().push(x));
        lemma_first_vote_of_push(list.drop_first(), x, id);
    }
}

/// A replica casts its prepare vote for a proposal once: handling the same
/// pre-prepare a second time re-sends the vote already cast and adds none.
pub proof fn law_prepare_vote_cast_once(s: Bft_Node_State, m: Bft_PrePrepare_Message)
    ensures
        spec_do_prepare(spec_do_prepare(s, m), m).prepare_cache == spec_do_prepare(s, m).prepare_cache,
{
    let seq = m.sequence_num;
    let s1 = spec_do_prepare(s, m);
    if m.view_num == s.view_num {
        let mine = crate::bft_node::own_prepare(s, seq);
        if s.prepare_cache.contains_key(seq) {
            lemma_first_vote_of_push(s.prepare_cache[seq], mine, s.base.node_id);
        } else {
            lemma_first_vote_of_push(Seq::empty(), mine, s.base.node_id);
            assert(seq![mine] =~= Seq::<Bft_Prepare_Message>::empty().push(mine));
        }
    }
}

/// Messages of another view change nothing at a replica.
pub proof fn law_other_views_ignored(s: Bft_Node_State, pp: Bft_PrePrepare_Message, p: Bft_Prepare_Message)
    requires
        pp.view_num != s.view_num,
        p.view_num != s.view_num,
    ensures
        spec_do_prepare(s, pp) == s,
        spec_receive_prepare(s, p) == s,
{
}

/// A replica sends anything on a prepare vote only once the prepare votes
/// for its sequence number reach more than two thirds of the members.
pub proof fn law_commit_needs_quorum(s: Bft_Node_State, p: Bft_Prepare_Message)
    ensures
        spec_receive_prepare(s, p).outbox != s.outbox ==> {
            let after = spec_receive_prepare(s, p);
            &&& after.prepare_cache.contains_key(p.sequence_num)
            &&& after.prepare_cache[p.sequence_num].len() >= prepare_quorum(s.node_list.len())
        },
{
}

/// A request already committed at a replica (status 3) makes later prepare
/// votes for it send nothing: the commit is logged and broadcast once.
pub proof fn law_commit_sent_once(s: Bft_Node_State, p: Bft_Prepare_Message)
    requires
        s.msg_cache.contains_key(p.sequence_num),
        s.msg_cache[p.sequence_num].status == 3,
    ensures
        spec_receive_prepare(s, p).outbox == s.outbox,
{
}

/// A prepare vote that makes a replica broadcast its commit leaves the
/// request committed (status 3).
pub proof fn law_commit_marks_request(s: Bft_Node_State, p: Bft_Prepare_Message)
    requires
        spec_receive_prepare(s, p).outbox != s.outbox,
    ensures
        spec_receive_prepare(s, p).msg_cache.contains_key(p.sequence_num),
        spec_receive_prepare(s, p).msg_cache[p.sequence_num].status == 3,
{
}

/// A replica replies to a client only once the commit votes for the request
/// reach 2f + 1, where f = (n - 1) / 3 of its n members may be faulty.
pub proof fn law_reply_needs_quorum(s: Bft_Node_State, c: Bft_Commit_Message)
    ensures
        spec_receive_commit(s, c).outbox != s.outbox ==> {
            let after = spec_receive_commit(s, c);
            &&& after.commit_cache.contains_key(c.sequence_num)
            &&& after.commit_cache[c.sequence_num].len() >= commit_quorum(s.node_list.len())
        },
{
}

/// The primary numbers consecutive requests consecutively: after a request
/// takes number `n1`, the next request takes `n1 + 1`.
pub proof fn law_sequence_numbers_consecutive(used: Set<u64>, n1: u64, n2: u64)
    requires
        is_next_sequence(used, n1),
        is_next_sequence(used.insert(n1), n2),
    ensures
        n2 == n1 + 1,
{
    assert(used.insert(n1).contains(n1));
    if n2 - 1 != n1 {
        assert(used.contains((n2 - 1) as u64));
    }
}

/// The sequence number of the next request is determined by the numbers in use.
pub proof fn law_sequence_number_unique(used: Set<u64>, n1: u64, n2: u64)
    requires
        is_next_sequence(used, n1),
        is_next_sequence(used, n2),
    ensures
        n1 == n2,
{
    if n1 < n2 {
        assert(used.contains((n2 - 1) as u64));
    } else if n2 < n1 {
        assert(used.contains((n1 - 1) as u64));
    }
}

proof fn lemma_max_member_id(list: Seq<Btf_Node_Simple>)
    ensures
        forall|i: int| 0 <= i < list.len() ==> list[i].node_id <= max_member_id(list),
    decreases list.len(),
{
    if list.len() > 0 {
        lemma_max_member_id(list.drop_last());
        assert forall|i: int| 0 <= i < list.len() implies list[i].node_id <= max_member_id(list) by {
            if i < list.len() - 1 {
                assert(list.drop_last()[i] == list[i]);
            }
        }
    }
}

/// A joining node gets an id above that of every member, so no two members
/// share the id that registration gives.
pub proof fn law_registered_id_fresh(s: Bft_Node_State, msg: Bft_Regist_Msg)
    requires
        max_member_id(s.node_list) < u64::MAX,
    ensures
        forall|i: int| 0 <= i < s.node_list.len() ==> s.node_list[i].node_id < registered_member(s, msg).node_id,
{
    lemma_max_member_id(s.node_list);
}

} // verus!

verus! {

/// Every prepare vote a node keeps is of its own view and is filed under
/// its own sequence number.
pub open spec fn votes_in_view(s: Bft_Node_State) -> bool {
    forall|k: u64, i: int| s.prepare_cache.contains_key(k) && 0 <= i < s.prepare_cache[k].len()
        ==> (#[trigger] s.prepare_cache[k][i]).view_num == s.view_num && s.prepare_cache[k][i].sequence_num == k
}

/// Whether each action added after the first `from` actions of `s`'s outbox
/// that broadcasts a prepare vote carries view `view`, sequence number `seq`
/// and voter `voter`.
pub open spec fn prepares_sent_are(s: Bft_Node_State, from: int, view: u64, seq: u64, voter: u64) -> bool {
    forall|i: int| from <= i < s.outbox.len() ==> match #[trigger] s.outbox[i] {
        crate::bft_node::Action_View::Broadcast { msg: crate::bft_node::Broadcast_View::Prepare(p), .. } =>
            p.view_num == view && p.sequence_num == seq && p.node_id == voter,
        _ => true,
    }
}

proof fn lemma_first_vote_of_is_in(list: Seq<Bft_Prepare_Message>, id: u64)
    ensures
        first_vote_of(list, id) matches Some(p) ==> p.node_id == id
            && exists|i: int| 0 <= i < list.len() && list[i] == p,
    decreases list.len(),
{
    if list.len() > 0 && list[0].node_id != id {
        lemma_first_vote_of_is_in(list.drop_first(), id);
        if let Some(p) = first_vote_of(list, id) {
            let j = choose|j: int| 0 <= j < list.drop_first().len() && list.drop_first()[j] == p;
            assert(list[j + 1] == p);
        }
    }
}

proof fn lemma_push_keeps_votes_in_view(s: Bft_Node_State, v: Bft_Prepare_Message)
    requires
        votes_in_view(s),
        v.view_num == s.view_num,
    ensures
        votes_in_view(Bft_Node_State { prepare_cache: cache_push(s.prepare_cache, v.sequence_num, v), ..s }),
{
    let t = Bft_Node_State { prepare_cache: cache_push(s.prepare_cache, v.sequence_num, v), ..s };
    assert forall|k: u64, i: int| t.prepare_cache.contains_key(k) && 0 <= i < t.prepare_cache[k].len()
        implies (#[trigger] t.prepare_cache[k][i]).view_num == t.view_num && t.prepare_cache[k][i].sequence_num == k by {
        if k == v.sequence_num && s.prepare_cache.contains_key(k) && i < s.prepare_cache[k].len() {
            assert(t.prepare_cache[k][i] == s.prepare_cache[k][i]);
        }
    }
}

/// The prepare vote a replica casts for a pre-prepare carries the replica's
/// view, the proposal's sequence number and the replica's id, whether it is
/// cast now or sent again; and every vote the replica keeps stays of its
/// view, filed under its sequence number.
pub proof fn law_prepare_vote_in_view(s: Bft_Node_State, m: Bft_PrePrepare_Message)
    requires
        votes_in_view(s),
    ensures
        votes_in_view(spec_do_prepare(s, m)),
        spec_do_prepare(s, m).view_num == s.view_num,
        s.outbox.is_prefix_of(spec_do_prepare(s, m).outbox),
        prepares_sent_are(spec_do_prepare(s, m), s.outbox.len() as int, s.view_num, m.sequence_num, s.base.node_id),
{
    let seq = m.sequence_num;
    let s2 = spec_do_prepare(s, m);
    let mine = crate::bft_node::own_prepare(s, seq);
    if m.view_num == s.view_num {
        if s.msg_cache.contains_key(seq) && s.msg_cache[seq].id@ == m.client_msg.id@
            && s.prepare_cache.contains_key(seq) && first_vote_of(s.prepare_cache[seq], s.base.node_id) is Some {
            lemma_first_vote_of_is_in(s.prepare_cache[seq], s.base.node_id);
            let p = first_vote_of(s.prepare_cache[seq], s.base.node_id).unwrap();
            let j = choose|j: int| 0 <= j < s.prepare_cache[seq].len() && s.prepare_cache[seq][j] == p;
            assert(s.prepare_cache[seq][j].view_num == s.view_num);
        } else if s.msg_cache.contains_key(seq) && s.msg_cache[seq].id@ != m.client_msg.id@ {
        } else {
            lemma_push_keeps_votes_in_view(s, mine);
        }
    }
    assert(s.outbox.is_prefix_of(s2.outbox)) by {
        assert(s2.outbox.subrange(0, s.outbox.len() as int) =~= s.outbox);
    }
}

/// A replica keeps only votes of its view filed under their sequence
/// numbers when it records prepare votes.
pub proof fn law_received_votes_in_view(s: Bft_Node_State, p: Bft_Prepare_Message)
    requires
        votes_in_view(s),
    ensures
        votes_in_view(spec_receive_prepare(s, p)),
{
    if p.view_num == s.view_num && crate::bft_node::find_member(s.node_list, p.node_id) is Some {
        lemma_push_keeps_votes_in_view(s, p);
    }
}

/// Whether each action added after the first `from` actions of `s`'s outbox
/// that replies to a client answers request `m`: it carries the request's
/// timestamp and client id, the node's view and id, and "succes process".
pub open spec fn replies_answer(s: Bft_Node_State, from: int, m: Bft_Message, view: u64, node: u64) -> bool {
    forall|i: int| from <= i < s.outbox.len() ==> match #[trigger] s.outbox[i] {
        crate::bft_node::Action_View::Broadcast {
            msg: crate::bft_node::Broadcast_View::Replay { view_num, timestamp, client_id, node_id, payload },
            ..
        } => timestamp == m.timestamp && client_id == m.client_id && view_num == view && node_id == node
            && payload == "succes process"@,
        _ => true,
    }
}

/// A reply goes out only for a request the node knows, and carries that
/// request's timestamp and client id, by which the client matches it.
pub proof fn law_reply_answers_request(s: Bft_Node_State, seq: u64)
    ensures
        s.outbox.is_prefix_of(spec_do_replay(s, seq).outbox),
        spec_do_replay(s, seq).outbox.len() > s.outbox.len() ==> s.msg_cache.contains_key(seq),
        replies_answer(spec_do_replay(s, seq), s.outbox.len() as int, s.msg_cache[seq], s.view_num, s.base.node_id),
{
    let s2 = spec_do_replay(s, seq);
    assert(s2.outbox.subrange(0, s.outbox.len() as int) =~= s.outbox);
}

/// A commit vote that makes a replica reply answers the committed request
/// with its timestamp and client id.
pub proof fn law_commit_reply_answers_request(s: Bft_Node_State, c: Bft_Commit_Message)
    ensures
        s.outbox.is_prefix_of(spec_receive_commit(s, c).outbox),
        spec_receive_commit(s, c).outbox.len() > s.outbox.len() ==> s.msg_cache.contains_key(c.sequence_num),
        replies_answer(
            spec_receive_commit(s, c),
            s.outbox.len() as int,
            s.msg_cache[c.sequence_num],
            s.view_num,
            s.base.node_id,
        ),
{
    let s1 = Bft_Node_State { commit_cache: cache_push(s.commit_cache, c.sequence_num, c), ..s };
    law_reply_answers_request(s1, c.sequence_num);
    let s2 = spec_receive_commit(s, c);
    assert(s2.outbox.subrange(0, s.outbox.len() as int) =~= s.outbox);
}

} // verus!

verus! {

/// A node starts with only votes of its view (it keeps none), and keeps
/// so through the steps that touch no prepare vote: accepting a request,
/// taking a commit vote, replying.
pub proof fn law_votes_in_view_hold(
    s: Bft_Node_State,
    view_num: u64,
    node_list: Seq<Btf_Node_Simple>,
    ip: Seq<char>,
    port: Seq<char>,
    node_id: u64,
    is_primary: bool,
    msg: Bft_Message,
    num: u64,
    c: Bft_Commit_Message,
    seq: u64,
)
    ensures
        crate::bft_node::is_new_node_state(s, view_num, node_list, ip, port, node_id, is_primary) ==> votes_in_view(s),
        votes_in_view(s) ==> votes_in_view(crate::bft_node::spec_accept_client_msg(s, msg, num)),
        votes_in_view(s) ==> votes_in_view(spec_receive_commit(s, c)),
        votes_in_view(s) ==> votes_in_view(spec_do_replay(s, seq)),
{
    let t = spec_receive_commit(s, c);
    assert(t.prepare_cache == s.prepare_cache && t.view_num == s.view_num);
}

} // verus!
