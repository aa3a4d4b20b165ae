use vstd::prelude::*;
use vstd::utf8::{
    char_is_scalar, char_u32_cast, decode_utf8, encode_scalar, encode_utf8, encode_utf8_decode_utf8,
    encode_utf8_valid_utf8, is_scalar, valid_utf8,
};
use crate::endpoint::{find_last, last_index_of, lemma_last_index_bound};
use crate::string_map::{map_of, StringMap};

verus! {

/// Separates a key from its value inside a record.
pub const DELIMITER: u8 = 0x1F;

/// Ends a record.
pub const RECORD_SEP: u8 = 0x1E;

/// Why the settings store could not be read or written.
#[derive(Debug, Clone, PartialEq, Eq)]
pub enum SettingsError {
    /// Reading or writing the backing file failed.
    Io(String),
    /// A record of the file is not valid UTF-8.
    Parse(String),
}

/// The key and value of a record's text: present when the text holds exactly
/// one delimiter.
pub open spec fn record_entry(t: Seq<char>) -> Option<(Seq<char>, Seq<char>)> {
    let k = last_index_of(t, '\u{1F}');
    if k >= 0 && last_index_of(t.subrange(0, k), '\u{1F}') < 0 {
        Some((t.subrange(0, k), t.subrange(k + 1, t.len() as int)))
    } else {
        None
    }
}

/// Adds one complete, non-empty record to what was read so far.
pub open spec fn add_record(
    m: Option<Map<Seq<char>, Seq<char>>>,
    rec: Seq<u8>,
) -> Option<Map<Seq<char>, Seq<char>>> {
    match m {
        None => None,
        Some(mm) => if valid_utf8(rec) {
            match record_entry(decode_utf8(rec)) {
                Some(e) => Some(mm.insert(e.0, e.1)),
                None => Some(mm),
            }
        } else {
            None
        },
    }
}

/// Reading the bytes in order: the map read so far (`None` after a record that
/// is not UTF-8) and the bytes of the record not yet terminated.
pub open spec fn scan(b: Seq<u8>) -> (Option<Map<Seq<char>, Seq<char>>>, Seq<u8>)
    decreases b.len(),
{
    if b.len() == 0 {
        (Some(Map::empty()), Seq::empty())
    } else {
        let (m, cur) = scan(b.drop_last());
        if b.last() == RECORD_SEP {
            if cur.len() > 0 {
                (add_record(m, cur), Seq::empty())
            } else {
                (m, Seq::empty())
            }
        } else {
            (m, cur.push(b.last()))
        }
    }
}

/// The map stored in a settings file; `None` when a record is not UTF-8.
/// Bytes after the last record separator are ignored.
pub open spec fn parse_settings(b: Seq<u8>) -> Option<Map<Seq<char>, Seq<char>>> {
    scan(b).0
}

/// The bytes of a list of entries: key, delimiter, value, separator for each.
pub open spec fn encode_entries(s: Seq<(String, String)>) -> Seq<u8>
    decreases s.len(),
{
    if s.len() == 0 {
        Seq::empty()
    } else {
        encode_entries(s.drop_last()) + encode_utf8(s.last().0@) + seq![DELIMITER]
            + encode_utf8(s.last().1@) + seq![RECORD_SEP]
    }
}

proof fn lemma_scan_stays_failed(b: Seq<u8>, j: int, k: int)
    requires
        0 <= j <= k <= b.len(),
        scan(b.subrange(0, j)).0 is None,
    ensures
        scan(b.subrange(0, k)).0 is None,
    decreases k - j,
{
    if j < k {
        lemma_scan_stays_failed(b, j, k - 1);
        assert(b.subrange(0, k).drop_last() =~= b.subrange(0, k - 1));
    }
}

/// Relies on String::from_utf8: succeeds exactly on valid UTF-8, with the decoded
/// characters; the error's text is its message.
#[verifier::external_body]
fn string_from_utf8(b: Vec<u8>) -> (r: Result<String, String>)
    ensures
        r is Ok <==> valid_utf8(b@),
        r is Ok ==> r->Ok_0@ == decode_utf8(b@),
{
    String::from_utf8(b).map_err(|e| e.to_string())
}

/// Splits a record's text into key and value when it holds exactly one delimiter.
fn split_record(t: &str) -> (r: Option<(String, String)>)
    ensures
        match r {
            Some(e) => record_entry(t@) == Some((e.0@, e.1@)),
            None => record_entry(t@) is None,
        },
{
    match find_last(t, '\u{1F}') {
        None => None,
        Some(k) => {
            proof { lemma_last_index_bound(t@, '\u{1F}'); }
            let n = t.unicode_len();
            let key = t.substring_char(0, k);
            match find_last(key, '\u{1F}') {
                Some(_) => None,
                None => {
                    let value = t.substring_char(k + 1, n);
                    Some((String::from_str(key), String::from_str(value)))
                },
            }
        },
    }
}

fn push_all(out: &mut Vec<u8>, b: &[u8])
    ensures
        final(out)@ == old(out)@ + b@,
{
    let mut i: usize = 0;
    while i < b.len()
        invariant
            i <= b@.len(),
            out@ == old(out)@ + b@.subrange(0, i as int),
        decreases b@.len() - i,
    {
        out.push(b[i]);
        i = i + 1;
        assert(out@ =~= old(out)@ + b@.subrange(0, i as int));
    }
    assert(b@.subrange(0, b@.len() as int) =~= b@);
}

/// A key-value store of strings, persisted as records of bytes.
#[derive(Debug)]
pub struct Settings {
    pub values: StringMap,
    pub file_path: String,
}

impl Settings {
    pub open spec fn wf(&self) -> bool {
        self.values.wf()
    }

    /// An empty store backed by the file at `file_path`.
    pub fn new(file_path: String) -> (r: Settings)
        ensures
            r.wf(),
            r.values@ == Map::<Seq<char>, Seq<char>>::empty(),
            r.file_path == file_path,
    {
        Settings { values: StringMap::new(), file_path }
    }

    /// Reads a store from the bytes of its file. Each record ends with a separator;
    /// a record with exactly one delimiter holds a key and its value, a later
    /// record winning over an earlier one; other records are skipped. Fails when a
    /// non-empty record is not UTF-8.
    pub fn parse_bytes(bytes: &[u8], file_path: String) -> (r: Result<Settings, SettingsError>)
        ensures
            match parse_settings(bytes@) {
                Some(m) => r is Ok && r->Ok_0.wf() && r->Ok_0.values@ == m
                    && r->Ok_0.file_path == file_path,
                None => r is Err && r->Err_0 is Parse,
            },
    {
        let mut values = StringMap::new();
        let mut current: Vec<u8> = Vec::new();
        let n = bytes.len();
        let mut i: usize = 0;
        while i < n
            invariant
                i <= n,
                n == bytes@.len(),
                values.wf(),
                scan(bytes@.subrange(0, i as int)) == (Some(values@), current@),
            decreases n - i,
        {
            let byte = bytes[i];
            let ghost pre = bytes@.subrange(0, i as int);
            assert(bytes@.subrange(0, i + 1).drop_last() =~= pre);
            if byte == RECORD_SEP {
                if current.len() > 0 {
                    let record = current;
                    current = Vec::new();
                    match string_from_utf8(record) {
                        Ok(text) => match split_record(text.as_str()) {
                            Some(e) => {
                                values.insert(e.0, e.1);
                            },
                            None => {},
                        },
                        Err(msg) => {
                            proof { lemma_scan_stays_failed(bytes@, i + 1, n as int); }
                            assert(bytes@.subrange(0, n as int) =~= bytes@);
                            return Err(SettingsError::Parse(msg));
                        },
                    }
                }
            } else {
                current.push(byte);
            }
            i = i + 1;
        }
        assert(bytes@.subrange(0, n as int) =~= bytes@);
        Ok(Settings { values, file_path })
    }

    /// The value stored under `key`, if any.
    pub fn get(&self, key: &str) -> (r: Option<&String>)
        requires
            self.wf(),
        ensures
            match r {
                Some(v) => self.values@.contains_key(key@) && v@ == self.values@[key@],
                None => !self.values@.contains_key(key@),
            },
    {
        self.values.get(key)
    }

    /// Stores `value` under `key`; the caller persists the store with `to_bytes`.
    pub fn set(&mut self, key: String, value: String)
        requires
            old(self).wf(),
        ensures
            final(self).wf(),
            final(self).values@ == old(self).values@.insert(key@, value@),
            final(self).file_path == old(self).file_path,
    {
        self.values.insert(key, value);
    }

    /// The bytes that persist this store: one record per entry.
    pub fn to_bytes(&self) -> (r: Vec<u8>)
        ensures
            r@ == encode_entries(self.values.entry_seq()),
    {
        let entries = self.values.entries();
        let mut out: Vec<u8> = Vec::new();
        let mut i: usize = 0;
        while i < entries.len()
            invariant
                i <= entries@.len(),
                entries@ == self.values.entry_seq(),
                out@ == encode_entries(entries@.subrange(0, i as int)),
            decreases entries@.len() - i,
        {
            let ghost pre = entries@.subrange(0, i as int);
            assert(entries@.subrange(0, i + 1).drop_last() =~= pre);
            push_all(&mut out, entries[i].0.as_str().as_bytes());
            out.push(DELIMITER);
            push_all(&mut out, entries[i].1.as_str().as_bytes());
            out.push(RECORD_SEP);
            i = i + 1;
            assert(out@ =~= encode_entries(entries@.subrange(0, i as int)));
        }
        assert(entries@.subrange(0, entries@.len() as int) =~= entries@);
        out
    }
}

pub open spec fn has_no_char(s: Seq<char>, c: char) -> bool {
    forall|i: int| 0 <= i < s.len() ==> s[i] != c
}

pub open spec fn has_no_byte(b: Seq<u8>, x: u8) -> bool {
    forall|i: int| 0 <= i < b.len() ==> b[i] != x
}

/// Neither key nor value of any entry holds a separator character.
pub open spec fn entries_storable(s: Seq<(String, String)>) -> bool {
    forall|i: int|
        0 <= i < s.len() ==> {
            &&& has_no_char(#[trigger] s[i].0@, '\u{1E}')
            &&& has_no_char(s[i].0@, '\u{1F}')
            &&& has_no_char(s[i].1@, '\u{1E}')
            &&& has_no_char(s[i].1@, '\u{1F}')
        }
}

proof fn lemma_encode_concat(a: Seq<char>, b: Seq<char>)
    ensures
        encode_utf8(a + b) == encode_utf8(a) + encode_utf8(b),
    decreases a.len(),
{
    if a.len() == 0 {
        assert(a + b =~= b);
        assert(encode_utf8(a) + encode_utf8(b) =~= encode_utf8(b));
    } else {
        assert((a + b).drop_first() =~= a.drop_first() + b);
        assert((a + b)[0] == a[0]);
        lemma_encode_concat(a.drop_first(), b);
        assert(encode_utf8(a + b) =~= encode_utf8(a) + encode_utf8(b));
    }
}

proof fn lemma_scalar_ascii_byte(v: u32, x: u8)
    requires
        is_scalar(v),
        x < 0x80,
        v != x as u32,
    ensures
        has_no_byte(encode_scalar(v), x),
{
    assert(forall|w: u32| w <= 0x7F ==> ((w & 0x7F) as u8) as u32 == w) by (bit_vector);
    assert(forall|w: u32| (0xC0u8 | ((w >> 6) & 0x1F) as u8) >= 0x80u8) by (bit_vector);
    assert(forall|w: u32| (0xE0u8 | ((w >> 12) & 0x0F) as u8) >= 0x80u8) by (bit_vector);
    assert(forall|w: u32| (0xF0u8 | ((w >> 18) & 0x7) as u8) >= 0x80u8) by (bit_vector);
    assert(forall|w: u32| (0x80u8 | (w & 0x3F) as u8) >= 0x80u8) by (bit_vector);
    assert(forall|w: u32| (0x80u8 | ((w >> 6) & 0x3F) as u8) >= 0x80u8) by (bit_vector);
    assert(forall|w: u32| (0x80u8 | ((w >> 12) & 0x3F) as u8) >= 0x80u8) by (bit_vector);
}

proof fn lemma_encode_no_byte(s: Seq<char>, c: char)
    requires
        has_no_char(s, c),
        (c as u32) < 0x80,
    ensures
        has_no_byte(encode_utf8(s), c as u32 as u8),
    decreases s.len(),
{
    if s.len() > 0 {
        let v = s[0] as u32;
        char_is_scalar(s[0]);
        if v == c as u32 {
            char_u32_cast(s[0], v);
            char_u32_cast(c, v);
        }
        lemma_scalar_ascii_byte(v, c as u32 as u8);
        assert(has_no_char(s.drop_first(), c)) by {
            assert forall|i: int| 0 <= i < s.drop_first().len() implies s.drop_first()[i] != c by {
                assert(s.drop_first()[i] == s[i + 1]);
            }
        }
        lemma_encode_no_byte(s.drop_first(), c);
    }
}

proof fn lemma_last_index_absent(a: Seq<char>, c: char)
    requires
        has_no_char(a, c),
    ensures
        last_index_of(a, c) == -1,
    decreases a.len(),
{
    if a.len() > 0 {
        assert(a.last() == a[a.len() - 1]);
        lemma_last_index_absent(a.drop_last(), c);
    }
}

proof fn lemma_last_index_after(a: Seq<char>, c: char, b: Seq<char>)
    requires
        has_no_char(b, c),
    ensures
        last_index_of(a.push(c) + b, c) == a.len(),
    decreases b.len(),
{
    if b.len() == 0 {
        assert(a.push(c) + b =~= a.push(c));
    } else {
        assert((a.push(c) + b).drop_last() =~= a.push(c) + b.drop_last());
        assert((a.push(c) + b).last() == b[b.len() - 1]);
        lemma_last_index_after(a, c, b.drop_last());
    }
}

proof fn lemma_record_entry(k: Seq<char>, v: Seq<char>)
    requires
        has_no_char(k, '\u{1F}'),
        has_no_char(v, '\u{1F}'),
    ensures
        record_entry(k.push('\u{1F}') + v) == Some((k, v)),
{
    let t = k.push('\u{1F}') + v;
    lemma_last_index_after(k, '\u{1F}', v);
    assert(t.subrange(0, k.len() as int) =~= k);
    assert(t.subrange(k.len() as int + 1, t.len() as int) =~= v);
    lemma_last_index_absent(k, '\u{1F}');
}

proof fn lemma_scan_without_separator(p: Seq<u8>, x: Seq<u8>)
    requires
        has_no_byte(x, RECORD_SEP),
    ensures
        scan(p + x) == (scan(p).0, scan(p).1 + x),
    decreases x.len(),
{
    if x.len() == 0 {
        assert(p + x =~= p);
        assert(scan(p).1 + x =~= scan(p).1);
    } else {
        assert((p + x).drop_last() =~= p + x.drop_last());
        assert((p + x).last() == x[x.len() - 1]);
        lemma_scan_without_separator(p, x.drop_last());
        assert(scan(p).1 + x.drop_last() + seq![x.last()] =~= scan(p).1 + x);
        assert((scan(p).1 + x.drop_last()).push(x.last()) =~= scan(p).1 + x);
    }
}

/// Storing entries whose keys and values hold no separator character, then reading
/// the bytes back, gives the same map: later entries win in both directions.
pub proof fn settings_round_trip(s: Seq<(String, String)>)
    requires
        entries_storable(s),
    ensures
        parse_settings(encode_entries(s)) == Some(map_of(s)),
{
    lemma_scan_is_closed(s);
}

proof fn lemma_delimiter_byte()
    ensures
        encode_utf8(seq!['\u{1F}']) =~= seq![DELIMITER],
{
    let d: Seq<char> = seq!['\u{1F}'];
    reveal_with_fuel(encode_utf8, 2);
    assert(d.drop_first() =~= Seq::<char>::empty());
    assert(d[0] == '\u{1F}');
    assert(encode_utf8(d) == encode_scalar(d[0] as u32) + encode_utf8(d.drop_first()));
    assert(('\u{1F}' as u32) == 0x1Fu32);
    assert(((0x1Fu32 & 0x7Fu32) as u8) == 0x1Fu8) by (bit_vector);
    assert(encode_scalar(0x1Fu32) =~= seq![0x1Fu8]);
}

/// The bytes of one stored entry, before its separator.
proof fn lemma_record_bytes(k: Seq<char>, v: Seq<char>)
    requires
        has_no_char(k, '\u{1E}'),
        has_no_char(k, '\u{1F}'),
        has_no_char(v, '\u{1E}'),
        has_no_char(v, '\u{1F}'),
    ensures
        ({
            let rec = encode_utf8(k) + seq![DELIMITER] + encode_utf8(v);
            &&& rec.len() > 0
            &&& valid_utf8(rec)
            &&& record_entry(decode_utf8(rec)) == Some((k, v))
            &&& has_no_byte(rec, RECORD_SEP)
        }),
{
    let kb = encode_utf8(k);
    let vb = encode_utf8(v);
    let d: Seq<char> = seq!['\u{1F}'];
    lemma_delimiter_byte();
    lemma_encode_concat(k, d);
    lemma_encode_concat(k + d, v);
    assert(k.push('\u{1F}') =~= k + d);
    let text = k.push('\u{1F}') + v;
    let rec = kb + seq![DELIMITER] + vb;
    assert(encode_utf8(text) =~= rec);
    encode_utf8_valid_utf8(text);
    encode_utf8_decode_utf8(text);
    lemma_record_entry(k, v);
    lemma_encode_no_byte(k, '\u{1E}');
    lemma_encode_no_byte(v, '\u{1E}');
    assert(has_no_byte(rec, RECORD_SEP)) by {
        assert forall|i: int| 0 <= i < rec.len() implies rec[i] != RECORD_SEP by {
            if i < kb.len() {
                assert(rec[i] == kb[i]);
            } else if i == kb.len() {
                assert(rec[i] == DELIMITER);
            } else {
                assert(rec[i] == vb[i - kb.len() - 1]);
            }
        }
    }
}

proof fn lemma_scan_is_closed(s: Seq<(String, String)>)
    requires
        entries_storable(s),
    ensures
        scan(encode_entries(s)) == (Some(map_of(s)), Seq::<u8>::empty()),
    decreases s.len(),
{
    if s.len() > 0 {
        let prev = s.drop_last();
        assert(entries_storable(prev)) by {
            assert forall|i: int| 0 <= i < prev.len() implies #[trigger] prev[i] == s[i] by {}
        }
        lemma_scan_is_closed(prev);
        let last = s[s.len() - 1];
        assert(s.last() == last);
        let k = last.0@;
        let v = last.1@;
        assert(has_no_char(k, '\u{1E}') && has_no_char(k, '\u{1F}') && has_no_char(v, '\u{1E}')
            && has_no_char(v, '\u{1F}'));
        let rec = encode_utf8(k) + seq![DELIMITER] + encode_utf8(v);
        lemma_record_bytes(k, v);
        let pre = encode_entries(prev);
        lemma_scan_without_separator(pre, rec);
        assert(Seq::<u8>::empty() + rec =~= rec);
        let m = map_of(prev);
        assert(scan(pre + rec) == (Some(m), rec));
        assert(add_record(Some(m), rec) == Some(m.insert(k, v)));
        assert(map_of(s) == m.insert(k, v));
        let all = encode_entries(s);
        assert(all =~= (pre + rec).push(RECORD_SEP));
        assert(all.drop_last() =~= pre + rec);
        assert(all.last() == RECORD_SEP);
    }
}

} // verus!
