//! The client's side: the frame of a request, and the reading of a
//! replica's reply, whose second line holds a flat JSON object from which
//! the timestamp and the payload are taken.
use vstd::prelude::*;
use crate::text::{str_chars, string_from_chars, find_from, spec_find_from, lemma_find_from, chars_equal};

verus! {

/// The parts of `s` from `start` on, split at each `sep` (`str::split`).
pub open spec fn spec_split_from(s: Seq<char>, sep: char, start: int) -> Seq<Seq<char>>
    decreases s.len() - start,
{
    if start < 0 || start > s.len() {
        seq![]
    } else {
        match spec_find_from(s, sep, start) {
            Some(i) => {
                proof { lemma_find_from(s, sep, start); }
                if i < start {
                    seq![]
                } else {
                    seq![s.subrange(start, i)] + spec_split_from(s, sep, i + 1)
                }
            },
            None => seq![s.subrange(start, s.len() as int)],
        }
    }
}

/// The parts of `s` split at each `sep`.
pub open spec fn spec_split(s: Seq<char>, sep: char) -> Seq<Seq<char>> {
    spec_split_from(s, sep, 0)
}

/// The second line of the reply, if it has one.
pub open spec fn spec_reply_body(reply: Seq<char>) -> Option<Seq<char>> {
    let lines = spec_split(reply, '\n');
    if lines.len() > 1 { Some(lines[1]) } else { None }
}

/// Whether a character is JSON punctuation that the client drops: `{`, `}`, `"`.
pub open spec fn spec_is_dropped(c: char) -> bool {
    c == '{' || c == '}' || c == '"'
}

/// The body without its braces and quotes.
pub open spec fn spec_strip(s: Seq<char>) -> Seq<char> {
    s.filter(|c: char| !spec_is_dropped(c))
}

/// Whether every item has a `:` between its key and its value.
pub open spec fn spec_items_well_formed(items: Seq<Seq<char>>) -> bool {
    forall|i: int| 0 <= i < items.len() ==> spec_find_from(#[trigger] items[i], ':', 0) is Some
}

/// The key of an item: what precedes its first `:`.
pub open spec fn spec_item_key(item: Seq<char>) -> Seq<char> {
    spec_split(item, ':')[0]
}

/// The value of an item: what lies between its first and second `:`.
pub open spec fn spec_item_value(item: Seq<char>) -> Seq<char> {
    spec_split(item, ':')[1]
}

/// The value of the last item with key `key`, as a map filled in order keeps it.
pub open spec fn spec_lookup(items: Seq<Seq<char>>, key: Seq<char>) -> Option<Seq<char>>
    decreases items.len(),
{
    if items.len() == 0 {
        None
    } else if spec_item_key(items.last()) == key {
        Some(spec_item_value(items.last()))
    } else {
        spec_lookup(items.drop_last(), key)
    }
}

/// The items of a reply's body.
pub open spec fn spec_reply_items(reply: Seq<char>) -> Seq<Seq<char>> {
    spec_split(spec_strip(spec_reply_body(reply)->0), ',')
}

/// Whether the client can read a reply: it has a body line whose items all
/// have a key and a value and which names a timestamp and a payload. A
/// reply without a body line is read as empty and is readable too.
pub open spec fn spec_replay_readable(reply: Seq<char>) -> bool {
    spec_reply_body(reply) is None || {
        let items = spec_reply_items(reply);
        &&& spec_items_well_formed(items)
        &&& spec_lookup(items, "timestamp"@) is Some
        &&& spec_lookup(items, "payload"@) is Some
    }
}

/// The parts of `v[from..to]` split at `sep`.
fn split_chars(v: &Vec<char>, sep: char) -> (parts: Vec<Vec<char>>)
    ensures
        parts@.len() == spec_split(v@, sep).len(),
        forall|k: int| 0 <= k < parts@.len() ==> #[trigger] parts@[k]@ == spec_split(v@, sep)[k],
{
    let mut parts: Vec<Vec<char>> = Vec::new();
    let ghost mut done: Seq<Seq<char>> = Seq::empty();
    let mut start: usize = 0;
    loop
        invariant
            start <= v.len(),
            parts@.len() == done.len(),
            forall|k: int| 0 <= k < parts@.len() ==> #[trigger] parts@[k]@ == done[k],
            done + spec_split_from(v@, sep, start as int) == spec_split(v@, sep),
        decreases v.len() - start,
    {
        proof { lemma_find_from(v@, sep, start as int); }
        match find_from(v, sep, start) {
            Some(i) => {
                let part = copy_range(v, start, i);
                proof {
                    assert(done.push(part@) + spec_split_from(v@, sep, i + 1)
                        =~= done + spec_split_from(v@, sep, start as int));
                    done = done.push(part@);
                }
                parts.push(part);
                start = i + 1;
            },
            None => {
                let part = copy_range(v, start, v.len());
                proof {
                    assert(done.push(part@) =~= done + spec_split_from(v@, sep, start as int));
                    done = done.push(part@);
                }
                parts.push(part);
                return parts;
            },
        }
    }
}

/// The characters `v[from..to]`.
fn copy_range(v: &Vec<char>, from: usize, to: usize) -> (r: Vec<char>)
    requires
        from <= to <= v.len(),
    ensures
        r@ == v@.subrange(from as int, to as int),
{
    let mut r: Vec<char> = Vec::new();
    let mut i = from;
    while i < to
        invariant
            from <= i <= to <= v.len(),
            r@ == v@.subrange(from as int, i as int),
        decreases to - i,
    {
        r.push(v[i]);
        i += 1;
        assert(r@ =~= v@.subrange(from as int, i as int));
    }
    r
}

/// The characters of `v` without braces and quotes.
fn strip_chars(v: &Vec<char>) -> (r: Vec<char>)
    ensures
        r@ == spec_strip(v@),
{
    let ghost pred = |c: char| !spec_is_dropped(c);
    let mut r: Vec<char> = Vec::new();
    let n = v.len();
    for i in 0..n
        invariant
            n == v@.len(),
            pred == (|c: char| !spec_is_dropped(c)),
            r@ == v@.take(i as int).filter(pred),
    {
        proof {
            assert(v@.take(i + 1) =~= v@.take(i as int).push(v@[i as int]));
            v@.take(i as int).lemma_filter_push(v@[i as int], pred);
        }
        let c = v[i];
        if !(c == '{' || c == '}' || c == '"') {
            r.push(c);
        }
    }
    assert(v@.take(n as int) =~= v@);
    r
}

/// Whether the client can read a reply (see `spec_replay_readable`).
pub fn replay_is_readable(replay: &str) -> (ok: bool)
    ensures
        ok == spec_replay_readable(replay@),
{
    let v = str_chars(replay);
    let lines = split_chars(&v, '\n');
    if lines.len() <= 1 {
        return true;
    }
    let body = strip_chars(&lines[1]);
    let items = split_chars(&body, ',');
    let mut i: usize = 0;
    while i < items.len()
        invariant
            spec_reply_body(replay@) is Some,
            items@.len() == spec_reply_items(replay@).len(),
            forall|k: int| 0 <= k < items@.len() ==> #[trigger] items@[k]@ == spec_reply_items(replay@)[k],
            i <= items@.len(),
            forall|k: int| 0 <= k < i ==> spec_find_from(#[trigger] spec_reply_items(replay@)[k], ':', 0) is Some,
        decreases items.len() - i,
    {
        if find_from(&items[i], ':', 0).is_none() {
            assert(spec_find_from(spec_reply_items(replay@)[i as int], ':', 0) is None);
            return false;
        }
        i += 1;
    }
    let ts = lookup(&items, &str_chars("timestamp"));
    let pl = lookup(&items, &str_chars("payload"));
    proof {
        assert(items@.map_values(|it: Vec<char>| it@) =~= spec_reply_items(replay@));
    }
    ts.is_some() && pl.is_some()
}

/// The value of the last item of `items` with key `key`.
fn lookup(items: &Vec<Vec<char>>, key: &Vec<char>) -> (r: Option<Vec<char>>)
    requires
        spec_items_well_formed(items@.map_values(|it: Vec<char>| it@)),
    ensures
        r matches Some(v) ==> spec_lookup(items@.map_values(|it: Vec<char>| it@), key@) == Some(v@),
        r is None ==> spec_lookup(items@.map_values(|it: Vec<char>| it@), key@) is None,
{
    let ghost all = items@.map_values(|it: Vec<char>| it@);
    let mut i = items.len();
    assert(all.take(i as int) =~= all);
    while i > 0
        invariant
            i <= items@.len(),
            all == items@.map_values(|it: Vec<char>| it@),
            spec_items_well_formed(all),
            spec_lookup(all, key@) == spec_lookup(all.take(i as int), key@),
        decreases i,
    {
        let ghost prefix = all.take(i as int);
        assert(prefix.drop_last() =~= all.take(i - 1));
        assert(prefix.last() == items@[i - 1]@);
        let parts = split_chars(&items[i - 1], ':');
        proof {
            assert(spec_find_from(all[i - 1], ':', 0) is Some);
            lemma_split_has_two(all[i - 1], ':');
        }
        if chars_equal(&parts[0], key) {
            return Some(copy_range(&parts[1], 0, parts[1].len()));
        }
        i -= 1;
    }
    assert(all.take(0) =~= Seq::<Seq<char>>::empty());
    None
}

/// A text with a separator splits into at least two parts.
proof fn lemma_split_has_two(s: Seq<char>, sep: char)
    requires
        spec_find_from(s, sep, 0) is Some,
    ensures
        spec_split(s, sep).len() >= 2,
{
    lemma_find_from(s, sep, 0);
    let i = spec_find_from(s, sep, 0)->0;
    lemma_split_nonempty(s, sep, i + 1);
}

proof fn lemma_split_nonempty(s: Seq<char>, sep: char, start: int)
    requires
        0 <= start <= s.len(),
    ensures
        spec_split_from(s, sep, start).len() >= 1,
    decreases s.len() - start,
{
    lemma_find_from(s, sep, start);
}

/// Reads the timestamp and the payload of a reply; a reply without a body
/// line gives two empty texts.
pub fn parse_replay(replay: &str) -> (r: (String, String))
    requires
        spec_replay_readable(replay@),
    ensures
        spec_reply_body(replay@) is None ==> r.0@ == Seq::<char>::empty() && r.1@ == Seq::<char>::empty(),
        spec_reply_body(replay@) is Some ==> {
            &&& spec_lookup(spec_reply_items(replay@), "timestamp"@) == Some(r.0@)
            &&& spec_lookup(spec_reply_items(replay@), "payload"@) == Some(r.1@)
        },
{
    let v = str_chars(replay);
    let lines = split_chars(&v, '\n');
    if lines.len() <= 1 {
        return (String::new(), String::new());
    }
    let body = strip_chars(&lines[1]);
    let items = split_chars(&body, ',');
    proof {
        assert(items@.map_values(|it: Vec<char>| it@) =~= spec_reply_items(replay@));
    }
    let ts = lookup(&items, &str_chars("timestamp"));
    let pl = lookup(&items, &str_chars("payload"));
    match (ts, pl) {
        (Some(t), Some(p)) => (string_from_chars(&t, 0, t.len()), string_from_chars(&p, 0, p.len())),
        _ => (String::new(), String::new()),
    }
}

} // verus!

verus! {

/// The frame of a client's request: the header of a `receiveMsg` message,
/// then a JSON body with the request number as id, the client id, the
/// payload, the timestamp, status 0, the client's address and a placeholder
/// signature.
pub open spec fn spec_request_frame(msg_num: u64, client_id: Seq<char>, payload: Seq<char>, timestamp: Seq<char>) -> Seq<char> {
    "receiveMsg 1.0  false default_id 30 \n{\"id\":\""@ + crate::text::spec_decimal(msg_num as nat)
        + "\",\"client_id\":\""@ + client_id + "\",\"payload\":\""@ + payload
        + "\",\"timestamp\":\""@ + timestamp
        + "\",\"status\":\"0\",\"client_ip\":\"10.3.209.97\",\"port\":\"10005\",\"md5sign\":\"sign\"}\n"@
}

/// Builds the frame of a client's request (see `spec_request_frame`).
pub fn request_frame(msg_num: u64, client_id: &str, payload: &str, timestamp: &str) -> (frame: String)
    ensures
        frame@ == spec_request_frame(msg_num, client_id@, payload@, timestamp@),
{
    let mut frame = "receiveMsg 1.0  false default_id 30 \n{\"id\":\"".to_string();
    crate::text::push_decimal(&mut frame, msg_num);
    frame.append("\",\"client_id\":\"");
    frame.append(client_id);
    frame.append("\",\"payload\":\"");
    frame.append(payload);
    frame.append("\",\"timestamp\":\"");
    frame.append(timestamp);
    frame.append("\",\"status\":\"0\",\"client_ip\":\"10.3.209.97\",\"port\":\"10005\",\"md5sign\":\"sign\"}\n");
    frame
}

} // verus!
