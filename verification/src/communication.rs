//! The wire format between nodes: a frame is a header line
//! `command version [is_sys [id]]`, then a line with the payload.
use vstd::prelude::*;
use vstd::utf8::encode_utf8;
use crate::text::{
    str_chars, str_equal, string_from_chars, push_decimal, spec_decimal, words, spec_words, spec_words_from,
    spec_ascii_lower, spec_find_from,
    line_bounds, spec_line_bounds, spec_line, eq_ignore_ascii_case, spec_eq_ignore_ascii_case,
};

verus! {

/// A message between nodes.
pub struct BftCommunicationMsg {
    pub id: String,
    pub is_sys: bool,
    pub command: String,
    pub version: String,
    pub payload: String,
    pub from: String,
}

/// The text of a message on the wire: `command version length`, a line
/// feed, the payload and a line feed, where `length` is the payload's length
/// in UTF-8 bytes.
pub open spec fn spec_frame_text(command: Seq<char>, version: Seq<char>, payload: Seq<char>) -> Seq<char> {
    command + " "@ + version + " "@ + spec_decimal(encode_utf8(payload).len()) + "\n"@ + payload + "\n"@
}

impl BftCommunicationMsg {
    /// The message as it is written on the wire (see `spec_frame_text`).
    pub fn to_string(&self) -> (text: String)
        ensures
            text@ == spec_frame_text(self.command@, self.version@, self.payload@),
    {
        let mut msg_str = self.command.clone();
        msg_str.append(" ");
        msg_str.append(self.version.as_str());
        msg_str.append(" ");
        let payload_len = self.payload.as_str().as_bytes_vec().len();
        push_decimal(&mut msg_str, payload_len as u64);
        msg_str.append("\n");
        msg_str.append(self.payload.as_str());
        msg_str.append("\n");
        msg_str
    }
}

/// The header line of a frame.
pub open spec fn spec_header(text: Seq<char>) -> Seq<char> {
    spec_line(text, 0)
}

/// The words of the header line.
pub open spec fn spec_header_words(text: Seq<char>) -> Seq<Seq<char>> {
    spec_words(spec_header(text))
}

/// The `k`-th header word, or the empty text if the header has fewer words.
pub open spec fn spec_header_word(text: Seq<char>, k: int) -> Seq<char> {
    if k < spec_header_words(text).len() { spec_header_words(text)[k] } else { Seq::empty() }
}

/// Whether a received text is a well-formed frame: not the "got"
/// acknowledgement, a header with a command and a version, and a payload line.
pub open spec fn spec_is_frame(text: Seq<char>) -> bool {
    &&& text != "got"@
    &&& text.len() > 0
    &&& spec_header_words(text).len() >= 2
    &&& spec_line_bounds(text, 0).1 < text.len()
}

/// The payload line of a frame.
pub open spec fn spec_frame_payload(text: Seq<char>) -> Seq<char> {
    spec_line(text, spec_line_bounds(text, 0).1)
}

/// Reads a frame received from `from`. The acknowledgement "got", a header
/// without command or version, and a frame without a payload line give
/// `None`; otherwise the message, whose third header word says whether it
/// is a system message ("true", in any case) and whose fourth is its id.
pub fn parse_frame(text: &str, from: &str) -> (r: Option<BftCommunicationMsg>)
    ensures
        r is Some <==> spec_is_frame(text@),
        r matches Some(m) ==> {
            &&& m.command@ == spec_header_word(text@, 0)
            &&& m.version@ == spec_header_word(text@, 1)
            &&& m.is_sys == spec_eq_ignore_ascii_case(spec_header_word(text@, 2), "true"@)
            &&& m.id@ == spec_header_word(text@, 3)
            &&& m.payload@ == spec_frame_payload(text@)
            &&& m.from@ == from@
        },
{
    if str_equal(text, "got") {
        return None;
    }
    let v = str_chars(text);
    if v.len() == 0 {
        return None;
    }
    let (header_end, next) = line_bounds(&v, 0);
    let header = string_from_chars(&v, 0, header_end);
    let header_chars = str_chars(header.as_str());
    let tokens = words(&header_chars);
    if tokens.len() < 2 {
        return None;
    }
    if next >= v.len() {
        return None;
    }
    let command = string_from_chars(&tokens[0], 0, tokens[0].len());
    let version = string_from_chars(&tokens[1], 0, tokens[1].len());
    let true_chars = str_chars("true");
    let is_sys = if tokens.len() > 2 { eq_ignore_ascii_case(&tokens[2], &true_chars) } else { false };
    let id = if tokens.len() > 3 { string_from_chars(&tokens[3], 0, tokens[3].len()) } else { String::new() };
    let (payload_end, _) = line_bounds(&v, next);
    let payload = string_from_chars(&v, next, payload_end);
    proof {
        assert(tokens@[0]@.subrange(0, tokens@[0]@.len() as int) =~= tokens@[0]@);
        assert(tokens@[1]@.subrange(0, tokens@[1]@.len() as int) =~= tokens@[1]@);
        if tokens.len() > 3 {
            assert(tokens@[3]@.subrange(0, tokens@[3]@.len() as int) =~= tokens@[3]@);
        }
        if tokens.len() <= 2 {
            assert(!spec_eq_ignore_ascii_case(Seq::<char>::empty(), "true"@)) by {
                reveal_strlit("true");
            }
        }
    }
    Some(BftCommunicationMsg {
        id,
        is_sys,
        command,
        version,
        payload,
        from: from.to_string(),
    })
}

/// Where the receiving node hands a frame.
pub enum Message_Route {
    /// A reply that a waiting sender is notified of.
    Reply,
    /// A closed connection, to be forgotten.
    Disconnection,
    /// Anything else, for the node's main loop.
    Main,
}

/// Routes a received frame by its command, compared ignoring ASCII case.
pub fn route_message(msg: &BftCommunicationMsg) -> (route: Message_Route)
    ensures
        spec_eq_ignore_ascii_case(msg.command@, "reply"@) ==> route is Reply,
        !spec_eq_ignore_ascii_case(msg.command@, "reply"@)
            && spec_eq_ignore_ascii_case(msg.command@, "disconnection"@) ==> route is Disconnection,
        !spec_eq_ignore_ascii_case(msg.command@, "reply"@)
            && !spec_eq_ignore_ascii_case(msg.command@, "disconnection"@) ==> route is Main,
{
    let command = str_chars(msg.command.as_str());
    if eq_ignore_ascii_case(&command, &str_chars("reply")) {
        Message_Route::Reply
    } else if eq_ignore_ascii_case(&command, &str_chars("disconnection")) {
        Message_Route::Disconnection
    } else {
        Message_Route::Main
    }
}

/// The name of a connection: `address:port`.
pub fn connection_name(address: &str, port: &str) -> (name: String)
    ensures
        name@ == address@ + ":"@ + port@,
{
    let mut address_all = address.to_string();
    address_all.append(":");
    address_all.append(port);
    address_all
}

} // verus!

verus! {

/// Whether a text is one word: not empty and without white space.
pub open spec fn is_word(w: Seq<char>) -> bool {
    w.len() > 0 && forall|i: int| 0 <= i < w.len() ==> !crate::text::spec_is_whitespace(#[trigger] w[i])
}

/// Whether a text fits on one line: it holds no line feed and does not end
/// with a carriage return.
pub open spec fn is_line(p: Seq<char>) -> bool {
    &&& forall|i: int| 0 <= i < p.len() ==> #[trigger] p[i] != '\n'
    &&& p.len() > 0 ==> p.last() != '\r'
}

/// A message whose command and version are words and whose payload is a
/// line is read back from its wire text with the same command, version
/// and payload; it is no system message and has no id.
pub proof fn law_frame_round_trip(command: Seq<char>, version: Seq<char>, payload: Seq<char>)
    requires
        is_word(command),
        is_word(version),
        is_line(payload),
    ensures
        ({
            let text = spec_frame_text(command, version, payload);
            &&& spec_is_frame(text)
            &&& spec_header_word(text, 0) == command
            &&& spec_header_word(text, 1) == version
            &&& !spec_eq_ignore_ascii_case(spec_header_word(text, 2), "true"@)
            &&& spec_header_word(text, 3) == Seq::<char>::empty()
            &&& spec_frame_payload(text) == payload
        }),
{
    reveal_strlit(" ");
    reveal_strlit("\n");
    reveal_strlit("true");
    reveal_strlit("got");
    let d = spec_decimal(encode_utf8(payload).len());
    lemma_decimal_is_word(encode_utf8(payload).len());
    let h = command + " "@ + version + " "@ + d;
    let text = spec_frame_text(command, version, payload);
    assert(text =~= h + "\n"@ + payload + "\n"@);
    let hl = h.len() as int;
    let cl = command.len() as int;
    let vl = version.len() as int;
    // The header line.
    assert forall|j: int| 0 <= j < hl implies #[trigger] text[j] != '\n' by {
        assert(text[j] == h[j]);
        if j < cl {
            assert(h[j] == command[j]);
        } else if j == cl {
        } else if j < cl + 1 + vl {
            assert(h[j] == version[j - cl - 1]);
        } else if j == cl + 1 + vl {
        } else {
            assert(h[j] == d[j - cl - 2 - vl]);
        }
    }
    assert(text[hl] == '\n');
    lemma_first_at(text, '\n', 0, hl);
    assert(text[hl - 1] == d[d.len() - 1]);
    assert(text.subrange(0, hl) =~= h);
    assert(spec_header(text) == h);
    // The words of the header.
    assert(h.subrange(0, cl) =~= command);
    lemma_word_at(h, 0, command);
    assert(crate::text::spec_is_whitespace(h[cl]));
    assert(h.subrange(cl + 1, cl + 1 + vl) =~= version);
    lemma_word_at(h, cl + 1, version);
    assert(crate::text::spec_is_whitespace(h[cl + 1 + vl]));
    assert(h.subrange(cl + 2 + vl, hl) =~= d);
    lemma_word_at(h, cl + 2 + vl, d);
    let words = spec_words(h);
    assert(spec_words_from(h, hl) == Seq::<Seq<char>>::empty());
    assert(words =~= seq![command, version, d]);
    // The payload line.
    let pl = payload.len() as int;
    assert forall|j: int| hl + 1 <= j < hl + 1 + pl implies #[trigger] text[j] != '\n' by {
        assert(text[j] == payload[j - hl - 1]);
    }
    assert(text[hl + 1 + pl] == '\n');
    lemma_first_at(text, '\n', hl + 1, hl + 1 + pl);
    if pl > 0 {
        assert(text[hl + pl] == payload.last());
    }
    assert(text.subrange(hl + 1, hl + 1 + pl) =~= payload);
    // The system flag.
    if d.len() == 4 {
        assert(spec_ascii_lower(d[0]) != spec_ascii_lower("true"@[0]));
    }
    assert(text.len() != 3);
}

/// The decimal form of a number is a word of digits.
proof fn lemma_decimal_is_word(n: nat)
    ensures
        is_word(spec_decimal(n)),
        forall|i: int| 0 <= i < spec_decimal(n).len() ==> '0' <= #[trigger] spec_decimal(n)[i] <= '9',
    decreases n,
{
    if n >= 10 {
        lemma_decimal_is_word(n / 10);
    }
}

/// The first `c` from `from` on is at `k` when `s[k]` is `c` and none lies
/// between.
proof fn lemma_first_at(s: Seq<char>, c: char, from: int, k: int)
    requires
        0 <= from <= k < s.len(),
        s[k] == c,
        forall|j: int| from <= j < k ==> #[trigger] s[j] != c,
    ensures
        spec_find_from(s, c, from) == Some(k),
    decreases k - from,
{
    if from < k {
        lemma_first_at(s, c, from + 1, k);
    }
}

/// The word that starts at `i`: its end, and the words from `i` on.
proof fn lemma_word_at(s: Seq<char>, i: int, w: Seq<char>)
    requires
        0 <= i,
        i + w.len() <= s.len(),
        s.subrange(i, i + w.len()) == w,
        is_word(w),
        i + w.len() == s.len() || crate::text::spec_is_whitespace(s[i + w.len()]),
    ensures
        spec_words_from(s, i) == seq![w] + spec_words_from(s, i + w.len()),
        i + w.len() < s.len() ==> spec_words_from(s, i + w.len()) == spec_words_from(s, i + w.len() + 1),
{
    lemma_word_end_at(s, i, w, i);
    assert(s[i] == w[0]);
}

proof fn lemma_word_end_at(s: Seq<char>, i: int, w: Seq<char>, j: int)
    requires
        0 <= i <= j <= i + w.len(),
        i + w.len() <= s.len(),
        s.subrange(i, i + w.len()) == w,
        is_word(w),
        i + w.len() == s.len() || crate::text::spec_is_whitespace(s[i + w.len()]),
    ensures
        crate::text::spec_word_end(s, j) == i + w.len(),
    decreases i + w.len() - j,
{
    if j < i + w.len() {
        assert(s[j] == w[j - i]);
        lemma_word_end_at(s, i, w, j + 1);
    }
}

} // verus!
