//! The messages of the three-phase consensus: a client's request, the
//! primary's pre-prepare, the prepare and commit votes of the replicas, and
//! the reply that each non-faulty replica sends back to the client.
use vstd::prelude::*;
use crate::digest::{md5_hex, spec_hex, spec_md5};
use crate::text::{push_decimal, spec_decimal};
use vstd::utf8::encode_utf8;

verus! {

/// A client's request, as the primary receives it.
pub struct Bft_Message {
    pub id: String,
    pub client_id: String,
    pub payload: String,
    pub timestamp: u64,
    /// Progress of the request at this node: 2 once prepared, 3 once committed.
    pub status: u64,
}

/// A text field with its length in front: the number of its characters in
/// decimal, a `:`, and the text. A sequence of such fields reads back only
/// one way.
pub open spec fn spec_field(text: Seq<char>) -> Seq<char> {
    spec_decimal(text.len()) + ":"@ + text
}

/// The bytes that a request's digest covers: its id, client id and payload,
/// each as a field with its length in front, then its timestamp in decimal;
/// the text is encoded in UTF-8.
pub open spec fn spec_message_bytes(msg: Bft_Message) -> Seq<u8> {
    encode_utf8(
        spec_field(msg.id@) + spec_field(msg.client_id@) + spec_field(msg.payload@)
            + spec_decimal(msg.timestamp as nat),
    )
}

/// The digest of a request: MD5 of its bytes, in lower-case hexadecimal.
pub open spec fn spec_message_digest(msg: Bft_Message) -> Seq<char> {
    spec_hex(spec_md5(spec_message_bytes(msg)))
}

/// Appends `field` to `text` with its length in front (see `spec_field`).
fn push_field(text: &mut String, field: &str)
    ensures
        final(text)@ == old(text)@ + spec_field(field@),
{
    push_decimal(text, field.unicode_len() as u64);
    text.append(":");
    text.append(field);
}

impl Clone for Bft_Message {
    fn clone(&self) -> (r: Self)
        ensures
            r == *self,
    {
        Bft_Message {
            id: self.id.clone(),
            client_id: self.client_id.clone(),
            payload: self.payload.clone(),
            timestamp: self.timestamp,
            status: self.status,
        }
    }
}

impl Bft_Message {
    /// A request of a client with the given payload.
    pub fn new(_payload: &str, _client_id: &str) -> (msg: Bft_Message)
        ensures
            msg.payload@ == _payload@,
            msg.client_id@ == _client_id@,
            msg.id@ == "1232345"@,
            msg.timestamp == 100000,
            msg.status == 0,
    {
        Bft_Message {
            payload: _payload.to_string(),
            client_id: _client_id.to_string(),
            id: "1232345".to_string(),
            timestamp: 100000,
            status: 0,
        }
    }

    /// The digest of this request (see `spec_message_digest`).
    pub fn sign(&self) -> (digest: String)
        ensures
            digest@ == spec_message_digest(*self),
            digest@.len() == 32,
    {
        let mut text = String::new();
        push_field(&mut text, self.id.as_str());
        push_field(&mut text, self.client_id.as_str());
        push_field(&mut text, self.payload.as_str());
        push_decimal(&mut text, self.timestamp);
        let bytes = text.as_str().as_bytes_vec();
        Bft_Message_Bytes(bytes.as_slice()).hash()
    }

    pub fn get_id(&self) -> (id: &str)
        ensures
            id@ == self.id@,
    {
        self.id.as_str()
    }

    pub fn get_payload(&self) -> (payload: &str)
        ensures
            payload@ == self.payload@,
    {
        self.payload.as_str()
    }

    pub fn get_status(&self) -> (status: u64)
        ensures
            status == self.status,
    {
        self.status
    }

    pub fn set_status(&mut self, status: u64)
        ensures
            *final(self) == (Bft_Message { status, ..*old(self) }),
    {
        self.status = status;
    }
}

/// The bytes of a request, which its digest covers.
pub struct Bft_Message_Bytes<'a>(pub &'a [u8]);

impl<'a> Bft_Message_Bytes<'a> {
    /// The digest of the bytes: MD5, in lower-case hexadecimal.
    pub fn hash(&self) -> (digest: String)
        ensures
            digest@ == spec_hex(spec_md5(self.0@)),
            digest@.len() == 32,
    {
        md5_hex(self.0)
    }
}

/// A replica's reply to the client that sent a request.
pub struct Bft_Replay {
    pub view_num: u64,
    pub timestamp: u64,
    pub client_id: String,
    pub node_id: u64,
    pub payload: String,
}

impl Clone for Bft_Replay {
    fn clone(&self) -> (r: Self)
        ensures
            r == *self,
    {
        Bft_Replay {
            view_num: self.view_num,
            timestamp: self.timestamp,
            client_id: self.client_id.clone(),
            node_id: self.node_id,
            payload: self.payload.clone(),
        }
    }
}

impl Bft_Replay {
    /// The reply of node `_node_id` to the client of `_source_msg`.
    pub fn new(_view_num: u64, _payload: &str, _node_id: u64, _source_msg: Bft_Message) -> (replay: Bft_Replay)
        ensures
            replay.view_num == _view_num,
            replay.timestamp == _source_msg.timestamp,
            replay.client_id == _source_msg.client_id,
            replay.node_id == _node_id,
            replay.payload@ == _payload@,
    {
        Bft_Replay {
            view_num: _view_num,
            timestamp: _source_msg.timestamp,
            client_id: _source_msg.client_id,
            node_id: _node_id,
            payload: _payload.to_string(),
        }
    }
}

/// The primary's proposal of a sequence number for a request.
pub struct Bft_PrePrepare_Message {
    pub view_num: u64,
    pub sequence_num: u64,
    pub msg_digest: String,
    pub client_msg: Bft_Message,
}

impl Clone for Bft_PrePrepare_Message {
    fn clone(&self) -> (r: Self)
        ensures
            r == *self,
    {
        Bft_PrePrepare_Message {
            view_num: self.view_num,
            sequence_num: self.sequence_num,
            msg_digest: self.msg_digest.clone(),
            client_msg: self.client_msg.clone(),
        }
    }
}

impl Bft_PrePrepare_Message {
    /// The proposal of `_sequence_num` for `_source_msg`, carrying its digest.
    pub fn new(_view_num: u64, _sequence_num: u64, _source_msg: Bft_Message) -> (msg: Bft_PrePrepare_Message)
        ensures
            msg.view_num == _view_num,
            msg.sequence_num == _sequence_num,
            msg.msg_digest@ == spec_message_digest(_source_msg),
            msg.client_msg == _source_msg,
    {
        let digest = _source_msg.sign();
        Bft_PrePrepare_Message {
            view_num: _view_num,
            sequence_num: _sequence_num,
            msg_digest: digest,
            client_msg: _source_msg,
        }
    }

    pub fn get_view_num(&self) -> (v: u64)
        ensures
            v == self.view_num,
    {
        self.view_num
    }

    pub fn get_sequence_num(&self) -> (s: u64)
        ensures
            s == self.sequence_num,
    {
        self.sequence_num
    }

    pub fn get_client_msg(&self) -> (m: &Bft_Message)
        ensures
            *m == self.client_msg,
    {
        &self.client_msg
    }

    pub fn get_msg_digest(&self) -> (d: &String)
        ensures
            *d == self.msg_digest,
    {
        &self.msg_digest
    }
}

/// A replica's vote that it accepted the proposal of a sequence number.
pub struct Bft_Prepare_Message {
    pub view_num: u64,
    pub sequence_num: u64,
    pub msg_digest: String,
    pub node_id: u64,
}

impl Clone for Bft_Prepare_Message {
    fn clone(&self) -> (r: Self)
        ensures
            r == *self,
    {
        Bft_Prepare_Message {
            view_num: self.view_num,
            sequence_num: self.sequence_num,
            msg_digest: self.msg_digest.clone(),
            node_id: self.node_id,
        }
    }
}

impl Bft_Prepare_Message {
    pub fn new(_view_num: u64, _sequence_num: u64, _digest: &str, _node_id: u64) -> (msg: Bft_Prepare_Message)
        ensures
            msg.view_num == _view_num,
            msg.sequence_num == _sequence_num,
            msg.msg_digest@ == _digest@,
            msg.node_id == _node_id,
    {
        Bft_Prepare_Message {
            view_num: _view_num,
            sequence_num: _sequence_num,
            msg_digest: _digest.to_string(),
            node_id: _node_id,
        }
    }

    pub fn get_view_num(&self) -> (v: u64)
        ensures
            v == self.view_num,
    {
        self.view_num
    }

    pub fn get_sequence_num(&self) -> (s: u64)
        ensures
            s == self.sequence_num,
    {
        self.sequence_num
    }

    pub fn get_msg_digest(&self) -> (d: &String)
        ensures
            *d == self.msg_digest,
    {
        &self.msg_digest
    }

    pub fn get_node_id(&self) -> (n: u64)
        ensures
            n == self.node_id,
    {
        self.node_id
    }
}

/// A replica's vote that it committed a sequence number.
pub struct Bft_Commit_Message {
    pub view_num: u64,
    pub sequence_num: u64,
    pub msg_digest: String,
    pub node_id: u64,
}

impl Clone for Bft_Commit_Message {
    fn clone(&self) -> (r: Self)
        ensures
            r == *self,
    {
        Bft_Commit_Message {
            view_num: self.view_num,
            sequence_num: self.sequence_num,
            msg_digest: self.msg_digest.clone(),
            node_id: self.node_id,
        }
    }
}

impl Bft_Commit_Message {
    pub fn new(_view_num: u64, _sequence_num: u64, _digest: &str, _node_id: u64) -> (msg: Bft_Commit_Message)
        ensures
            msg.view_num == _view_num,
            msg.sequence_num == _sequence_num,
            msg.msg_digest@ == _digest@,
            msg.node_id == _node_id,
    {
        Bft_Commit_Message {
            view_num: _view_num,
            sequence_num: _sequence_num,
            msg_digest: _digest.to_string(),
            node_id: _node_id,
        }
    }

    pub fn get_view_num(&self) -> (v: u64)
        ensures
            v == self.view_num,
    {
        self.view_num
    }

    pub fn get_sequence_num(&self) -> (s: u64)
        ensures
            s == self.sequence_num,
    {
        self.sequence_num
    }

    pub fn get_msg_digest(&self) -> (d: &String)
        ensures
            *d == self.msg_digest,
    {
        &self.msg_digest
    }

    pub fn get_node_id(&self) -> (n: u64)
        ensures
            n == self.node_id,
    {
        self.node_id
    }
}

} // verus!

verus! {

/// The decimal form of a number reads back as that number, and is made of
/// one or more digits.
pub proof fn lemma_decimal_reads_back(n: nat)
    ensures
        crate::text::spec_digits_value(spec_decimal(n)) == n,
        spec_decimal(n).len() > 0,
        forall|i: int| 0 <= i < spec_decimal(n).len() ==> '0' <= #[trigger] spec_decimal(n)[i] <= '9',
    decreases n,
{
    if n < 10 {
        let d = spec_decimal(n);
        assert(d.drop_last() =~= Seq::<char>::empty());
        assert(crate::text::spec_char_digit(crate::text::spec_digit_char(n as int)) == n);
        assert(crate::text::spec_digits_value(d)
            == crate::text::spec_digits_value(d.drop_last()) * 10 + crate::text::spec_char_digit(d.last()));
    } else {
        lemma_decimal_reads_back(n / 10);
        let d = spec_decimal(n);
        assert(d.drop_last() =~= spec_decimal(n / 10));
        let m = (n % 10) as int;
        assert(crate::text::spec_char_digit(crate::text::spec_digit_char(m)) == m);
        assert(d.last() == crate::text::spec_digit_char(m));
        assert(crate::text::spec_digits_value(d)
            == crate::text::spec_digits_value(d.drop_last()) * 10 + crate::text::spec_char_digit(d.last()));
        assert((n / 10) * 10 + n % 10 == n);
    }
}

/// A field at the front of a text reads back one way: the same text
/// starting with two fields starts with the same field, and the rest agrees.
proof fn lemma_field_reads_back(x: Seq<char>, r1: Seq<char>, y: Seq<char>, r2: Seq<char>)
    requires
        spec_field(x) + r1 == spec_field(y) + r2,
    ensures
        x == y,
        r1 == r2,
{
    reveal_strlit(":");
    let t = spec_field(x) + r1;
    let dx = spec_decimal(x.len());
    let dy = spec_decimal(y.len());
    lemma_decimal_reads_back(x.len());
    lemma_decimal_reads_back(y.len());
    assert(t == dx + ":"@ + x + r1);
    assert(t == dy + ":"@ + y + r2);
    assert(t[dx.len() as int] == ':');
    assert(t[dy.len() as int] == ':');
    if dx.len() < dy.len() {
        assert(t[dx.len() as int] == dy[dx.len() as int]);
        assert(false);
    }
    if dy.len() < dx.len() {
        assert(t[dy.len() as int] == dx[dy.len() as int]);
        assert(false);
    }
    assert(dx =~= t.subrange(0, dx.len() as int));
    assert(dy =~= t.subrange(0, dy.len() as int));
    assert(x.len() == y.len());
    let k: int = dx.len() as int + 1;
    assert(x =~= t.subrange(k, k + x.len() as int));
    assert(y =~= t.subrange(k, k + y.len() as int));
    assert(r1 =~= t.subrange(k + x.len() as int, t.len() as int));
    assert(r2 =~= t.subrange(k + y.len() as int, t.len() as int));
}

/// The digest bytes of a request read back one way: two requests with the
/// same bytes have the same id, client id, payload and timestamp. So two
/// requests that differ in any of these are hashed from different bytes.
pub proof fn law_message_bytes_read_one_way(a: Bft_Message, b: Bft_Message)
    requires
        spec_message_bytes(a) == spec_message_bytes(b),
    ensures
        a.id@ == b.id@,
        a.client_id@ == b.client_id@,
        a.payload@ == b.payload@,
        a.timestamp == b.timestamp,
{
    let ra3 = spec_decimal(a.timestamp as nat);
    let rb3 = spec_decimal(b.timestamp as nat);
    let ra2 = spec_field(a.payload@) + ra3;
    let rb2 = spec_field(b.payload@) + rb3;
    let ra1 = spec_field(a.client_id@) + ra2;
    let rb1 = spec_field(b.client_id@) + rb2;
    let ta = spec_field(a.id@) + spec_field(a.client_id@) + spec_field(a.payload@) + ra3;
    let tb = spec_field(b.id@) + spec_field(b.client_id@) + spec_field(b.payload@) + rb3;
    vstd::utf8::encode_utf8_decode_utf8(ta);
    vstd::utf8::encode_utf8_decode_utf8(tb);
    assert(ta == tb);
    assert(ta =~= spec_field(a.id@) + ra1);
    assert(tb =~= spec_field(b.id@) + rb1);
    lemma_field_reads_back(a.id@, ra1, b.id@, rb1);
    lemma_field_reads_back(a.client_id@, ra2, b.client_id@, rb2);
    lemma_field_reads_back(a.payload@, ra3, b.payload@, rb3);
    lemma_decimal_reads_back(a.timestamp as nat);
    lemma_decimal_reads_back(b.timestamp as nat);
}

} // verus!

verus! {

/// `sign` hashes every field of a request: requests that agree in id,
/// client id, payload and timestamp get the same digest, and requests that
/// differ in any of them are hashed from different bytes, so their digests
/// differ unless MD5 maps the two byte sequences alike.
pub proof fn law_sign_covers_every_field(a: Bft_Message, b: Bft_Message)
    ensures
        (a.id@ == b.id@ && a.client_id@ == b.client_id@ && a.payload@ == b.payload@ && a.timestamp == b.timestamp)
            ==> spec_message_digest(a) == spec_message_digest(b),
        (a.id@ != b.id@ || a.client_id@ != b.client_id@ || a.payload@ != b.payload@ || a.timestamp != b.timestamp)
            ==> spec_message_bytes(a) != spec_message_bytes(b),
{
    if spec_message_bytes(a) == spec_message_bytes(b) {
        law_message_bytes_read_one_way(a, b);
    }
}

} // verus!
