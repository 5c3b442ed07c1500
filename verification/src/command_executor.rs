//! The key-value state machine that committed requests run: `put key = value`,
//! `delete key`, `get key`. The state is kept as a list of entries with
//! distinct keys, taken as a map from key to value.
use vstd::prelude::*;
use crate::text::{
    str_chars, string_from_chars, occurs_at, spec_starts_with,
    find_from, spec_find_from, lemma_find_from, trim_bounds, spec_trim, push_decimal, spec_decimal,
};

verus! {

/// The map that a list of entries stands for: each key to its value.
pub open spec fn entries_map(s: Seq<(String, String)>) -> Map<Seq<char>, Seq<char>>
    decreases s.len(),
{
    if s.len() == 0 {
        Map::empty()
    } else {
        entries_map(s.drop_last()).insert(s.last().0@, s.last().1@)
    }
}

/// Whether no two entries share a key.
pub open spec fn distinct_keys(s: Seq<(String, String)>) -> bool {
    forall|i: int, j: int| 0 <= i < s.len() && 0 <= j < s.len() && i != j ==> s[i].0@ != s[j].0@
}

proof fn lemma_entries_map(s: Seq<(String, String)>)
    requires
        distinct_keys(s),
    ensures
        forall|k: Seq<char>| entries_map(s).contains_key(k) <==> exists|i: int| 0 <= i < s.len() && s[i].0@ == k,
        forall|i: int| 0 <= i < s.len() ==> entries_map(s)[#[trigger] s[i].0@] == s[i].1@,
    decreases s.len(),
{
    if s.len() > 0 {
        let t = s.drop_last();
        assert(distinct_keys(t));
        lemma_entries_map(t);
        assert forall|k: Seq<char>| entries_map(s).contains_key(k) <==> exists|i: int| 0 <= i < s.len() && s[i].0@ == k by {
            let n = s.len() - 1;
            if k == s.last().0@ {
                assert(s[n].0@ == k);
            } else {
                if entries_map(t).contains_key(k) {
                    let i = choose|i: int| 0 <= i < t.len() && t[i].0@ == k;
                    assert(t[i] == s[i]);
                    assert(s[i].0@ == k);
                }
                if exists|i: int| 0 <= i < s.len() && s[i].0@ == k {
                    let i = choose|i: int| 0 <= i < s.len() && s[i].0@ == k;
                    assert(i != n);
                    assert(t[i] == s[i]);
                    assert(entries_map(t).contains_key(k));
                }
            }
        }
        assert forall|i: int| 0 <= i < s.len() implies entries_map(s)[#[trigger] s[i].0@] == s[i].1@ by {
            if i < s.len() - 1 {
                assert(t[i] == s[i]);
                assert(s[i].0@ != s.last().0@);
            }
        }
    }
}

/// Whether `line` is `key=value` for an entry of `m`.
pub open spec fn is_entry_line(m: Map<Seq<char>, Seq<char>>, line: Seq<char>) -> bool {
    exists|k: Seq<char>| m.contains_key(k) && line == k + "="@ + m[k]
}

/// The state of the key-value store.
pub struct Command_Executor {
    datafileName: String,
    valueMap: Vec<(String, String)>,
}

/// A command word and the key and value that follow it.
pub open spec fn spec_command_word(command: Seq<char>) -> Option<Seq<char>> {
    if spec_starts_with(command, "put"@) {
        Some("put"@)
    } else if spec_starts_with(command, "delete"@) {
        Some("delete"@)
    } else if spec_starts_with(command, "get"@) {
        Some("get"@)
    } else {
        None
    }
}

/// The key and value of a command whose leading command word is `word`.
/// For `put`, the rest of the command must hold a `=`: the key is what lies
/// between the word and the first `=`, the value what lies between it and
/// the next `=` (or the end), both trimmed. For `get` and `delete` the key
/// is the rest of the command, trimmed, and there is no value.
pub open spec fn spec_key_value(command: Seq<char>, word: Seq<char>) -> Option<(Seq<char>, Seq<char>)> {
    let w = word.len() as int;
    if word == "put"@ {
        match spec_find_from(command, '=', w) {
            None => None,
            Some(i) => {
                let value_end = match spec_find_from(command, '=', i + 1) {
                    Some(j) => j,
                    None => command.len() as int,
                };
                Some((spec_trim(command.subrange(w, i)), spec_trim(command.subrange(i + 1, value_end))))
            },
        }
    } else {
        Some((spec_trim(command.subrange(w, command.len() as int)), Seq::empty()))
    }
}

/// The store after a command.
pub open spec fn spec_command_state(m: Map<Seq<char>, Seq<char>>, command: Seq<char>) -> Map<Seq<char>, Seq<char>> {
    match spec_command_word(command) {
        None => m,
        Some(w) => match spec_key_value(command, w) {
            None => m,
            Some((k, v)) => if w == "put"@ {
                m.insert(k, v)
            } else if w == "delete"@ {
                m.remove(k)
            } else {
                m
            },
        },
    }
}

/// What a command returns: the value that `put` stored, the value that
/// `delete` removed, the value that `get` found; nothing for an invalid
/// command or a missing key.
pub open spec fn spec_command_result(m: Map<Seq<char>, Seq<char>>, command: Seq<char>) -> Option<Seq<char>> {
    match spec_command_word(command) {
        None => None,
        Some(w) => match spec_key_value(command, w) {
            None => None,
            Some((k, v)) => if w == "put"@ {
                Some(v)
            } else if m.contains_key(k) {
                Some(m[k])
            } else {
                None
            },
        },
    }
}

impl View for Command_Executor {
    type V = Map<Seq<char>, Seq<char>>;

    closed spec fn view(&self) -> Map<Seq<char>, Seq<char>> {
        entries_map(self.valueMap@)
    }
}

impl Command_Executor {
    /// The well-formedness of the store: its keys are distinct.
    pub closed spec fn wf(&self) -> bool {
        distinct_keys(self.valueMap@)
    }

    /// The base name of the check point files.
    pub closed spec fn data_file(&self) -> Seq<char> {
        self.datafileName@
    }

    /// An empty store whose check points are written to files named after
    /// `datafile_name`.
    pub fn new(datafile_name: &str) -> (executor: Command_Executor)
        ensures
            executor.wf(),
            executor@ == Map::<Seq<char>, Seq<char>>::empty(),
            executor.data_file() == datafile_name@,
    {
        Command_Executor { datafileName: datafile_name.to_string(), valueMap: Vec::new() }
    }

    /// The position of the entry with key `key`.
    fn find_key(&self, key: &Vec<char>) -> (r: Option<usize>)
        requires
            self.wf(),
        ensures
            r matches Some(i) ==> i < self.valueMap@.len() && self.valueMap@[i as int].0@ == key@,
            r is None ==> forall|i: int| 0 <= i < self.valueMap@.len() ==> self.valueMap@[i].0@ != key@,
    {
        let mut i: usize = 0;
        while i < self.valueMap.len()
            invariant
                i <= self.valueMap@.len(),
                forall|j: int| 0 <= j < i ==> self.valueMap@[j].0@ != key@,
            decreases self.valueMap.len() - i,
        {
            let k = str_chars(self.valueMap[i].0.as_str());
            if crate::text::chars_equal(&k, key) {
                return Some(i);
            }
            i += 1;
        }
        None
    }

    fn put(&mut self, key: String, value: String)
        requires
            old(self).wf(),
        ensures
            final(self).wf(),
            final(self)@ == old(self)@.insert(key@, value@),
            final(self).data_file() == old(self).data_file(),
    {
        let key_chars = str_chars(key.as_str());
        proof { lemma_entries_map(self.valueMap@); }
        let ghost old_map = self@;
        let ghost old_entries = self.valueMap@;
        match self.find_key(&key_chars) {
            Some(i) => {
                self.valueMap.set(i, (key, value));
                proof {
                    let s = self.valueMap@;
                    assert(distinct_keys(s)) by {
                        assert forall|a: int, b: int| 0 <= a < s.len() && 0 <= b < s.len() && a != b implies s[a].0@ != s[b].0@ by {
                            if a != i && b != i {
                                assert(s[a] == old_entries[a] && s[b] == old_entries[b]);
                            } else if a == i {
                                assert(s[b] == old_entries[b]);
                            } else {
                                assert(s[a] == old_entries[a]);
                            }
                        }
                    }
                    lemma_entries_map(s);
                    assert forall|k: Seq<char>| #[trigger] self@.contains_key(k) == old_map.insert(key@, value@).contains_key(k) by {
                        if old_map.contains_key(k) && k != key@ {
                            let j = choose|j: int| 0 <= j < old_entries.len() && old_entries[j].0@ == k;
                            assert(s[j] == old_entries[j]);
                        }
                        if self@.contains_key(k) && k != key@ {
                            let j = choose|j: int| 0 <= j < s.len() && s[j].0@ == k;
                            assert(s[j] == old_entries[j]);
                        }
                        assert(s[i as int].0@ == key@);
                    }
                    assert forall|k: Seq<char>| #[trigger] self@.contains_key(k) implies self@[k] == old_map.insert(key@, value@)[k] by {
                        let j = choose|j: int| 0 <= j < s.len() && s[j].0@ == k;
                        if j != i {
                            assert(s[j] == old_entries[j]);
                        }
                    }
                    assert(self@ =~= old_map.insert(key@, value@));
                }
            },
            None => {
                self.valueMap.push((key, value));
                proof {
                    let s = self.valueMap@;
                    assert(s.drop_last() =~= old_entries);
                    assert(distinct_keys(s)) by {
                        assert forall|a: int, b: int| 0 <= a < s.len() && 0 <= b < s.len() && a != b implies s[a].0@ != s[b].0@ by {
                            if a < old_entries.len() && b < old_entries.len() {
                                assert(s[a] == old_entries[a] && s[b] == old_entries[b]);
                            } else if a < old_entries.len() {
                                assert(s[a] == old_entries[a]);
                            } else {
                                assert(s[b] == old_entries[b]);
                            }
                        }
                    }
                }
            },
        }
    }

    fn remove_key(&mut self, key: &Vec<char>) -> (removed: Option<String>)
        requires
            old(self).wf(),
        ensures
            final(self).wf(),
            final(self)@ == old(self)@.remove(key@),
            removed matches Some(v) ==> old(self)@.contains_key(key@) && old(self)@[key@] == v@,
            removed is None ==> !old(self)@.contains_key(key@),
            final(self).data_file() == old(self).data_file(),
    {
        proof { lemma_entries_map(self.valueMap@); }
        let ghost old_map = self@;
        let ghost old_entries = self.valueMap@;
        match self.find_key(key) {
            None => {
                assert(self@ =~= old_map.remove(key@));
                None
            },
            Some(i) => {
                let (_, value) = self.valueMap.remove(i);
                proof {
                    let s = self.valueMap@;
                    assert(forall|j: int| 0 <= j < s.len() ==> s[j] == old_entries[if j < i { j } else { j + 1 }]);
                    assert(distinct_keys(s)) by {
                        assert forall|a: int, b: int| 0 <= a < s.len() && 0 <= b < s.len() && a != b implies s[a].0@ != s[b].0@ by {
                            let a2 = if a < i { a } else { a + 1 };
                            let b2 = if b < i { b } else { b + 1 };
                            assert(s[a] == old_entries[a2] && s[b] == old_entries[b2]);
                        }
                    }
                    lemma_entries_map(s);
                    assert forall|k: Seq<char>| #[trigger] self@.contains_key(k) == old_map.remove(key@).contains_key(k) by {
                        if old_map.contains_key(k) && k != key@ {
                            let j = choose|j: int| 0 <= j < old_entries.len() && old_entries[j].0@ == k;
                            assert(j != i);
                            let j2 = if j < i { j } else { j - 1 };
                            assert(s[j2] == old_entries[j]);
                        }
                        if self@.contains_key(k) {
                            let j = choose|j: int| 0 <= j < s.len() && s[j].0@ == k;
                            let j2 = if j < i { j } else { j + 1 };
                            assert(s[j] == old_entries[j2]);
                            assert(j2 != i);
                        }
                    }
                    assert forall|k: Seq<char>| #[trigger] self@.contains_key(k) implies self@[k] == old_map.remove(key@)[k] by {
                        let j = choose|j: int| 0 <= j < s.len() && s[j].0@ == k;
                        let j2 = if j < i { j } else { j + 1 };
                        assert(s[j] == old_entries[j2]);
                    }
                    assert(self@ =~= old_map.remove(key@));
                }
                Some(value)
            },
        }
    }

    fn get_value(&self, key: &Vec<char>) -> (found: Option<String>)
        requires
            self.wf(),
        ensures
            found matches Some(v) ==> self@.contains_key(key@) && self@[key@] == v@,
            found is None ==> !self@.contains_key(key@),
    {
        proof { lemma_entries_map(self.valueMap@); }
        match self.find_key(key) {
            Some(i) => Some(self.valueMap[i].1.clone()),
            None => None,
        }
    }

    /// Runs a command (see `spec_command_state` and `spec_command_result`).
    pub fn command_execute(&mut self, command: &str) -> (result: Option<String>)
        requires
            old(self).wf(),
        ensures
            final(self).wf(),
            final(self)@ == spec_command_state(old(self)@, command@),
            result matches Some(v) ==> spec_command_result(old(self)@, command@) == Some(v@),
            result is None ==> spec_command_result(old(self)@, command@) is None,
            final(self).data_file() == old(self).data_file(),
    {
        let c = str_chars(command);
        let put_w = str_chars("put");
        let delete_w = str_chars("delete");
        let get_w = str_chars("get");
        let kind: u8;
        let word: Vec<char>;
        if occurs_at(&c, &put_w, 0) {
            kind = 0;
            word = put_w;
        } else if occurs_at(&c, &delete_w, 0) {
            kind = 1;
            word = delete_w;
        } else if occurs_at(&c, &get_w, 0) {
            kind = 2;
            word = get_w;
        } else {
            return None;
        }
        assert(spec_command_word(command@) == Some(word@));
        proof { lemma_command_words_differ(); }
        let w = word.len();
        if kind == 0 {
            proof { lemma_find_from(c@, '=', w as int); }
            let eq = match find_from(&c, '=', w) {
                None => {
                    return None;
                },
                Some(i) => i,
            };
            proof { lemma_find_from(c@, '=', eq + 1); }
            let value_end = match find_from(&c, '=', eq + 1) {
                Some(j) => j,
                None => c.len(),
            };
            let (ks, ke) = trim_bounds(&c, w, eq);
            let (vs, ve) = trim_bounds(&c, eq + 1, value_end);
            let key = string_from_chars(&c, ks, ke);
            let value = string_from_chars(&c, vs, ve);
            let stored = value.clone();
            self.put(key, value);
            Some(stored)
        } else {
            let (ks, ke) = trim_bounds(&c, w, c.len());
            let key_chars = str_chars(string_from_chars(&c, ks, ke).as_str());
            if kind == 1 {
                self.remove_key(&key_chars)
            } else {
                self.get_value(&key_chars)
            }
        }
    }

    /// The name of the check point file for check point `check_point_num`:
    /// the data file name followed by the number modulo 2 and ".log".
    pub fn check_point_file_name(&self, check_point_num: u64) -> (name: String)
        ensures
            name@ == self.data_file() + spec_decimal((check_point_num % 2) as nat) + ".log"@,
    {
        let mut file_name = self.datafileName.clone();
        push_decimal(&mut file_name, check_point_num % 2);
        file_name.append(".log");
        file_name
    }

    /// The lines of a check point: `key=value` for each entry.
    pub fn check_point_lines(&self) -> (lines: Vec<String>)
        requires
            self.wf(),
        ensures
            lines@.len() == self@.len(),
            forall|k: Seq<char>| #[trigger] self@.contains_key(k) ==> exists|i: int| 0 <= i < lines@.len()
                && lines@[i]@ == k + "="@ + self@[k],
            forall|i: int| 0 <= i < lines@.len() ==> is_entry_line(self@, #[trigger] lines@[i]@),
    {
        proof { lemma_entries_map(self.valueMap@); lemma_entries_len(self.valueMap@); }
        let mut lines: Vec<String> = Vec::new();
        let n = self.valueMap.len();
        for i in 0..n
            invariant
                n == self.valueMap@.len(),
                self.wf(),
                lines@.len() == i,
                forall|j: int| 0 <= j < i ==> #[trigger] lines@[j]@ == self.valueMap@[j].0@ + "="@ + self.valueMap@[j].1@,
        {
            let mut line = self.valueMap[i].0.clone();
            line.append("=");
            line.append(self.valueMap[i].1.as_str());
            lines.push(line);
        }
        proof {
            let s = self.valueMap@;
            assert forall|k: Seq<char>| #[trigger] self@.contains_key(k) implies exists|i: int| 0 <= i < lines@.len()
                && lines@[i]@ == k + "="@ + self@[k] by {
                let j = choose|j: int| 0 <= j < s.len() && s[j].0@ == k;
                assert(lines@[j]@ == s[j].0@ + "="@ + s[j].1@);
            }
            assert forall|i: int| 0 <= i < lines@.len() implies is_entry_line(self@, #[trigger] lines@[i]@) by {
                assert(self@.contains_key(s[i].0@));
                assert(lines@[i]@ == s[i].0@ + "="@ + self@[s[i].0@]);
            }
        }
        lines
    }

    /// The line that records check point `check_point_num` in the business
    /// file: "checkpoint" and the number modulo 2.
    pub fn check_point_record(check_point_num: u64) -> (line: String)
        ensures
            line@ == "checkpoint "@ + spec_decimal((check_point_num % 2) as nat),
    {
        let mut line = "checkpoint ".to_string();
        push_decimal(&mut line, check_point_num % 2);
        line
    }
}

proof fn lemma_entries_len(s: Seq<(String, String)>)
    requires
        distinct_keys(s),
    ensures
        entries_map(s).len() == s.len(),
        entries_map(s).dom().finite(),
    decreases s.len(),
{
    if s.len() > 0 {
        let t = s.drop_last();
        assert(distinct_keys(t));
        lemma_entries_len(t);
        lemma_entries_map(t);
        assert(!entries_map(t).contains_key(s.last().0@)) by {
            if entries_map(t).contains_key(s.last().0@) {
                let i = choose|i: int| 0 <= i < t.len() && t[i].0@ == s.last().0@;
                assert(s[i] == t[i]);
            }
        }
    }
}

} // verus!

verus! {

/// A `get` of a key after a `put` of that key gives the value the `put`
/// stored, whatever the store held before.
pub proof fn law_get_after_put(
    m: Map<Seq<char>, Seq<char>>,
    put_command: Seq<char>,
    get_command: Seq<char>,
    key: Seq<char>,
    value: Seq<char>,
)
    requires
        spec_command_word(put_command) == Some("put"@),
        spec_key_value(put_command, "put"@) == Some((key, value)),
        spec_command_word(get_command) == Some("get"@),
        spec_key_value(get_command, "get"@) matches Some((k, v)) && k == key,
    ensures
        spec_command_result(spec_command_state(m, put_command), get_command) == Some(value),
{
    lemma_command_words_differ();
}

/// A `get` of a key after a `delete` of that key finds nothing.
pub proof fn law_get_after_delete(
    m: Map<Seq<char>, Seq<char>>,
    delete_command: Seq<char>,
    get_command: Seq<char>,
    key: Seq<char>,
)
    requires
        spec_command_word(delete_command) == Some("delete"@),
        spec_key_value(delete_command, "delete"@) matches Some((k, v)) && k == key,
        spec_command_word(get_command) == Some("get"@),
        spec_key_value(get_command, "get"@) matches Some((k, v)) && k == key,
    ensures
        spec_command_result(spec_command_state(m, delete_command), get_command) is None,
{
    lemma_command_words_differ();
}

/// A `get` changes nothing in the store.
pub proof fn law_get_keeps_store(m: Map<Seq<char>, Seq<char>>, get_command: Seq<char>)
    requires
        spec_command_word(get_command) == Some("get"@),
    ensures
        spec_command_state(m, get_command) == m,
{
    lemma_command_words_differ();
}

} // verus!

verus! {

/// The three command words differ.
proof fn lemma_command_words_differ()
    ensures
        "put"@ != "get"@,
        "put"@ != "delete"@,
        "delete"@ != "get"@,
{
    reveal_strlit("put");
    reveal_strlit("get");
    reveal_strlit("delete");
    assert("put"@[0] != "get"@[0]);
    assert("put"@[0] != "delete"@[0]);
    assert("delete"@[0] != "get"@[0]);
}

} // verus!

verus! {

/// A `delete` touches only its own key: the key is gone afterwards, and
/// every other key maps exactly as before, so a `get` of another key after
/// the `delete` gives what it gave before.
pub proof fn law_delete_touches_only_its_key(
    m: Map<Seq<char>, Seq<char>>,
    delete_command: Seq<char>,
    key: Seq<char>,
    other: Seq<char>,
)
    requires
        spec_command_word(delete_command) == Some("delete"@),
        spec_key_value(delete_command, "delete"@) matches Some((k, v)) && k == key,
        other != key,
    ensures
        !spec_command_state(m, delete_command).contains_key(key),
        spec_command_state(m, delete_command).contains_key(other) == m.contains_key(other),
        m.contains_key(other) ==> spec_command_state(m, delete_command)[other] == m[other],
{
    lemma_command_words_differ();
}

/// A `put` touches only its own key: afterwards the key maps to the value
/// put, and every other key maps exactly as before.
pub proof fn law_put_touches_only_its_key(
    m: Map<Seq<char>, Seq<char>>,
    put_command: Seq<char>,
    key: Seq<char>,
    value: Seq<char>,
    other: Seq<char>,
)
    requires
        spec_command_word(put_command) == Some("put"@),
        spec_key_value(put_command, "put"@) == Some((key, value)),
        other != key,
    ensures
        spec_command_state(m, put_command).contains_key(key),
        spec_command_state(m, put_command)[key] == value,
        spec_command_state(m, put_command).contains_key(other) == m.contains_key(other),
        m.contains_key(other) ==> spec_command_state(m, put_command)[other] == m[other],
{
    lemma_command_words_differ();
}

} // verus!
