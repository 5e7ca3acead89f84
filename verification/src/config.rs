//! The server's configuration: `key=value` lines read into a map from keys to values.
use vstd::prelude::*;
use crate::text::{
    after_first, before_first, chars_of, find_char, first_index,
    parse_i32, parse_i32_spec, slice_chars, string_of,
};

verus! {

/// What one line of the configuration file contributes: the text before the first
/// `=` as the key and the text between the first and the second `=` (or the end of
/// the line) as the value; nothing when the line has no `=`.
pub open spec fn line_entry(line: Seq<char>) -> Option<(Seq<char>, Seq<char>)> {
    if first_index(line, '=') < line.len() {
        Some((before_first(line, '='), before_first(after_first(line, '='), '=')))
    } else {
        None
    }
}

/// The map that the lines give, read in order, a later line replacing an earlier
/// value of the same key. `None` stands for a line that could not be read; it is
/// skipped.
pub open spec fn config_of_lines(lines: Seq<Option<Seq<char>>>) -> Map<Seq<char>, Seq<char>>
    decreases lines.len(),
{
    if lines.len() == 0 {
        Map::empty()
    } else {
        let m = config_of_lines(lines.drop_last());
        match lines.last() {
            Some(l) => match line_entry(l) {
                Some(kv) => m.insert(kv.0, kv.1),
                None => m,
            },
            None => m,
        }
    }
}

/// The view of a sequence of optional strings as optional character sequences.
pub open spec fn lines_view(lines: Seq<Option<String>>) -> Seq<Option<Seq<char>>> {
    lines.map_values(|l: Option<String>| match l {
        Some(s) => Some(s@),
        None => None,
    })
}

/// The map that a list of `(key, value)` entries gives, later entries winning.
pub open spec fn entries_map(s: Seq<(String, String)>) -> Map<Seq<char>, Seq<char>>
    decreases s.len(),
{
    if s.len() == 0 {
        Map::empty()
    } else {
        entries_map(s.drop_last()).insert(s.last().0@, s.last().1@)
    }
}

/// No key occurs twice among the entries.
pub open spec fn keys_distinct(s: Seq<(String, String)>) -> bool {
    forall|i: int, j: int| 0 <= i < s.len() && 0 <= j < s.len() && i != j ==> s[i].0@ != s[j].0@
}

/// The configuration: a map from keys to values.
pub struct Config {
    entries: Vec<(String, String)>,
}

impl Config {
    #[verifier::type_invariant]
    spec fn wf(&self) -> bool {
        keys_distinct(self.entries@)
    }

    /// The keys and values of the configuration.
    pub closed spec fn view(&self) -> Map<Seq<char>, Seq<char>> {
        entries_map(self.entries@)
    }

    proof fn lemma_entries_map(s: Seq<(String, String)>)
        requires
            keys_distinct(s),
        ensures
            forall|k: Seq<char>| #[trigger] entries_map(s).contains_key(k)
                <==> exists|i: int| 0 <= i < s.len() && s[i].0@ == k,
            forall|i: int| 0 <= i < s.len() ==> #[trigger] entries_map(s)[s[i].0@] == s[i].1@,
            entries_map(s).dom().finite(),
        decreases s.len(),
    {
        if s.len() > 0 {
            let t = s.drop_last();
            assert(keys_distinct(t)) by {
                assert forall|i: int, j: int| 0 <= i < t.len() && 0 <= j < t.len() && i != j
                    implies t[i].0@ != t[j].0@ by {
                    assert(t[i] == s[i] && t[j] == s[j]);
                }
            }
            Self::lemma_entries_map(t);
            assert forall|k: Seq<char>| #[trigger] entries_map(s).contains_key(k)
                <==> exists|i: int| 0 <= i < s.len() && s[i].0@ == k by {
                if entries_map(s).contains_key(k) && k != s.last().0@ {
                    let i = choose|i: int| 0 <= i < t.len() && t[i].0@ == k;
                    assert(s[i] == t[i]);
                }
                if exists|i: int| 0 <= i < s.len() && s[i].0@ == k {
                    let i = choose|i: int| 0 <= i < s.len() && s[i].0@ == k;
                    if i < t.len() {
                        assert(t[i] == s[i]);
                    }
                }
            }
            assert forall|i: int| 0 <= i < s.len() implies #[trigger] entries_map(s)[s[i].0@] == s[i].1@ by {
                if i < t.len() {
                    assert(t[i] == s[i]);
                    assert(s[i].0@ != s[s.len() - 1].0@);
                }
            }
        }
    }

    /// An empty configuration.
    pub fn new() -> (c: Config)
        ensures
            c@ == Map::<Seq<char>, Seq<char>>::empty(),
    {
        Config { entries: Vec::new() }
    }

    /// Position of the entry with key `key`, if any.
    fn position(&self, key: &String) -> (r: Option<usize>)
        ensures
            match r {
                Some(i) => i < self.entries@.len() && self.entries@[i as int].0@ == key@,
                None => forall|i: int| 0 <= i < self.entries@.len() ==> self.entries@[i].0@ != key@,
            },
    {
        let mut i: usize = 0;
        while i < self.entries.len()
            invariant
                i <= self.entries@.len(),
                forall|j: int| 0 <= j < i ==> self.entries@[j].0@ != key@,
            decreases self.entries.len() - i,
        {
            if self.entries[i].0 == *key {
                return Some(i);
            }
            i = i + 1;
        }
        None
    }

    /// Sets `key` to `value`, replacing an earlier value.
    pub fn insert(&mut self, key: String, value: String)
        ensures
            final(self)@ == old(self)@.insert(key@, value@),
    {
        proof {
            use_type_invariant(&*self);
            Self::lemma_entries_map(self.entries@);
        }
        let pos = self.position(&key);
        let ghost k = key@;
        let ghost v = value@;
        match pos {
            Some(i) => {
                let mut entries: Vec<(String, String)> = Vec::new();
                std::mem::swap(&mut entries, &mut self.entries);
                let ghost before = entries@;
                entries.set(i, (key, value));
                proof {
                    assert(keys_distinct(entries@)) by {
                        assert forall|a: int, b: int|
                            0 <= a < entries@.len() && 0 <= b < entries@.len() && a != b
                            implies entries@[a].0@ != entries@[b].0@ by {
                            if a != i && b != i {
                                assert(entries@[a] == before[a] && entries@[b] == before[b]);
                            } else if a == i {
                                assert(entries@[b] == before[b]);
                            } else {
                                assert(entries@[a] == before[a]);
                            }
                        }
                    }
                    Self::lemma_entries_map(entries@);
                    assert(entries_map(entries@) =~= entries_map(before).insert(k, v)) by {
                        assert forall|kk: Seq<char>| entries_map(entries@).contains_key(kk)
                            <==> entries_map(before).insert(k, v).contains_key(kk) by {
                            if kk == k {
                                assert(entries@[i as int].0@ == k);
                            }
                            if entries_map(before).contains_key(kk) && kk != k {
                                let j = choose|j: int| 0 <= j < before.len() && before[j].0@ == kk;
                                assert(entries@[j] == before[j]);
                            }
                            if entries_map(entries@).contains_key(kk) {
                                let j = choose|j: int| 0 <= j < entries@.len() && entries@[j].0@ == kk;
                                if j != i {
                                    assert(entries@[j] == before[j]);
                                }
                            }
                        }
                        assert forall|kk: Seq<char>| #[trigger] entries_map(entries@).contains_key(kk)
                            implies entries_map(entries@)[kk] == entries_map(before).insert(k, v)[kk] by {
                            let j = choose|j: int| 0 <= j < entries@.len() && entries@[j].0@ == kk;
                            if j != i {
                                assert(entries@[j] == before[j]);
                            }
                        }
                    }
                }
                self.entries = entries;
            },
            None => {
                let ghost before = self.entries@;
                let mut entries: Vec<(String, String)> = Vec::new();
                std::mem::swap(&mut entries, &mut self.entries);
                entries.push((key, value));
                proof {
                    assert(entries@.drop_last() =~= before);
                    assert(keys_distinct(entries@)) by {
                        assert forall|a: int, b: int|
                            0 <= a < entries@.len() && 0 <= b < entries@.len() && a != b
                            implies entries@[a].0@ != entries@[b].0@ by {
                            if a < before.len() && b < before.len() {
                                assert(entries@[a] == before[a] && entries@[b] == before[b]);
                            } else if a < before.len() {
                                assert(entries@[a] == before[a]);
                            } else {
                                assert(entries@[b] == before[b]);
                            }
                        }
                    }
                }
                self.entries = entries;
            },
        }
    }

    /// The value of `key`, if it is set.
    pub fn get(&self, key: &str) -> (r: Option<String>)
        ensures
            match r {
                Some(v) => self@.contains_key(key@) && v@ == self@[key@],
                None => !self@.contains_key(key@),
            },
    {
        proof {
            use_type_invariant(self);
            Self::lemma_entries_map(self.entries@);
        }
        let k: String = key.to_owned();
        match self.position(&k) {
            Some(i) => Some(self.entries[i].1.clone()),
            None => None,
        }
    }

    /// The configuration that the lines of a configuration file give; `None`
    /// stands for a line that could not be read.
    pub fn from_lines(lines: &Vec<Option<String>>) -> (c: Config)
        ensures
            c@ == config_of_lines(lines_view(lines@)),
    {
        let mut c = Config::new();
        let mut i: usize = 0;
        while i < lines.len()
            invariant
                i <= lines@.len(),
                c@ == config_of_lines(lines_view(lines@).take(i as int)),
            decreases lines.len() - i,
        {
            let ghost before = c@;
            assert(lines_view(lines@).take(i as int + 1).drop_last() =~= lines_view(lines@).take(i as int));
            match &lines[i] {
                Some(line) => {
                    let chars = chars_of(line.as_str());
                    let eq = find_char(&chars, '=');
                    if eq < chars.len() {
                        let key = slice_chars(&chars, 0, eq);
                        let rest = slice_chars(&chars, eq + 1, chars.len());
                        let end = find_char(&rest, '=');
                        let value = slice_chars(&rest, 0, end);
                        proof {
                            assert(rest@ =~= after_first(line@, '='));
                            assert(key@ =~= before_first(line@, '='));
                            assert(value@ =~= before_first(after_first(line@, '='), '='));
                        }
                        c.insert(string_of(&key), string_of(&value));
                    }
                },
                None => {},
            }
            i = i + 1;
        }
        assert(lines_view(lines@).take(lines@.len() as int) =~= lines_view(lines@));
        c
    }

    /// The configured value of `key`; `Err(-2)` when the key is not set.
    pub fn get_string(&self, key: &str) -> (r: Result<String, i8>)
        ensures
            match r {
                Ok(v) => self@.contains_key(key@) && v@ == self@[key@],
                Err(e) => e == -2 && !self@.contains_key(key@),
            },
    {
        match self.get(key) {
            Some(v) => Ok(v),
            None => Err(-2),
        }
    }

    /// The configured value of `key` read as an `i32`; `Err(-2)` when the key is not
    /// set, `Err(-3)` when its value is not a number in range.
    pub fn get_int(&self, key: &str) -> (r: Result<i32, i8>)
        ensures
            match r {
                Ok(x) => self@.contains_key(key@) && parse_i32_spec(self@[key@]) == Some(x),
                Err(e) => (e == -2 && !self@.contains_key(key@)) || (e == -3
                    && self@.contains_key(key@) && parse_i32_spec(self@[key@]) is None),
            },
    {
        match self.get_string(key) {
            Ok(s) => {
                let chars = chars_of(s.as_str());
                match parse_i32(&chars) {
                    Some(x) => Ok(x),
                    None => Err(-3),
                }
            },
            Err(e) => Err(e),
        }
    }
}

} // verus!

verus! {

/// A later line of the configuration file overrides earlier ones: after a line
/// `key=value`, the key reads `value`, whatever came before; lines without `=` or
/// that could not be read change nothing.
pub proof fn law_later_line_wins(lines: Seq<Option<Seq<char>>>, line: Option<Seq<char>>)
    ensures
        match line {
            Some(l) => match line_entry(l) {
                Some(kv) => config_of_lines(lines.push(line)).contains_key(kv.0)
                    && config_of_lines(lines.push(line))[kv.0] == kv.1,
                None => config_of_lines(lines.push(line)) == config_of_lines(lines),
            },
            None => config_of_lines(lines.push(line)) == config_of_lines(lines),
        },
{
    assert(lines.push(line).drop_last() =~= lines);
}

/// Reading a key of a configuration built from lines gives the value of the last
/// line that sets it.
pub proof fn law_value_of_last_setting(lines: Seq<Option<Seq<char>>>, key: Seq<char>, i: int)
    requires
        0 <= i < lines.len(),
        lines[i] matches Some(l) && line_entry(l) matches Some(kv) && kv.0 == key,
        forall|j: int| i < j < lines.len() ==> !(#[trigger] lines[j] matches Some(l2)
            && line_entry(l2) matches Some(kv2) && kv2.0 == key),
    ensures
        config_of_lines(lines).contains_key(key),
        config_of_lines(lines)[key] == (line_entry(lines[i]->0)->0).1,
    decreases lines.len(),
{
    if i < lines.len() - 1 {
        let t = lines.drop_last();
        assert forall|j: int| i < j < t.len() implies !(#[trigger] t[j] matches Some(l2)
            && line_entry(l2) matches Some(kv2) && kv2.0 == key) by {
            assert(t[j] == lines[j]);
        }
        law_value_of_last_setting(t, key, i);
        assert(!(lines[lines.len() - 1] matches Some(l2) && line_entry(l2) matches Some(kv2) && kv2.0 == key));
    }
}

} // verus!
