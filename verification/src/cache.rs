//! A small store of what was drawn for a response, so that the same response
//! is not highlighted again for every frame. It holds a fixed number of
//! entries at most; when it is full, the entry that was used longest ago
//! makes room.

use vstd::prelude::*;
use crate::chars::to_chars;

verus! {

/// The hash of the empty text.
pub open spec fn hash_seed() -> u64 {
    0xcbf29ce484222325
}

/// The hash `h` after one more character.
pub open spec fn mix(h: u64, c: char) -> u64 {
    (h ^ (c as u32 as u64)).wrapping_mul(0x100000001b3)
}

/// The hash `h` after the characters of `s`, in order.
pub open spec fn hash_from(h: u64, s: Seq<char>) -> u64
    decreases s.len(),
{
    if s.len() == 0 {
        h
    } else {
        mix(hash_from(h, s.drop_last()), s.last())
    }
}

/// The hash of a response and its content type.
pub open spec fn content_hash(response: Seq<char>, content_type: Seq<char>) -> u64 {
    hash_from(hash_from(hash_seed(), content_type), response)
}

/// The hash `h` after the characters of `s`.
pub fn hash_text(h: u64, s: &str) -> (r: u64)
    ensures
        r == hash_from(h, s@),
{
    let cs = to_chars(s);
    let mut r = h;
    let mut i: usize = 0;
    while i < cs.len()
        invariant
            i <= cs.len(),
            r == hash_from(h, cs@.take(i as int)),
        decreases cs.len() - i,
    {
        assert(cs@.take(i + 1).drop_last() =~= cs@.take(i as int));
        r = (r ^ (cs[i] as u32 as u64)).wrapping_mul(0x100000001b3);
        i += 1;
    }
    assert(cs@.take(cs.len() as int) =~= cs@);
    r
}

/// The hash of a response and its content type.
pub fn hash_content(response: &str, content_type: &str) -> (r: u64)
    ensures
        r == content_hash(response@, content_type@),
{
    hash_text(hash_text(0xcbf29ce484222325, content_type), response)
}

/// What is kept for one response.
pub struct Entry<V> {
    hash: u64,
    response: String,
    content_type: String,
    value: V,
}

/// What an entry stands for: the response and its content type, which
/// together are its key, and what is kept for them.
pub struct EntryView<V> {
    pub response: Seq<char>,
    pub content_type: Seq<char>,
    pub value: V,
}

impl<V> EntryView<V> {
    /// The entry is kept for the response `response` of the content type
    /// `content_type`.
    pub open spec fn is_for(self, response: Seq<char>, content_type: Seq<char>) -> bool {
        self.response == response && self.content_type == content_type
    }
}

/// Some entry of `s` is kept for the given response.
pub open spec fn holds<V>(s: Seq<EntryView<V>>, response: Seq<char>, content_type: Seq<char>)
    -> bool {
    exists|i: int| 0 <= i < s.len() && (#[trigger] s[i]).is_for(response, content_type)
}

/// The place of the entry that is kept for the given response, where there
/// is one.
pub open spec fn place<V>(s: Seq<EntryView<V>>, response: Seq<char>, content_type: Seq<char>)
    -> int {
    choose|i: int| 0 <= i < s.len() && (#[trigger] s[i]).is_for(response, content_type)
}

/// No two entries of `s` are kept for the same response.
pub open spec fn distinct<V>(s: Seq<EntryView<V>>) -> bool {
    forall|i: int, j: int|
        0 <= i < s.len() && 0 <= j < s.len() && (#[trigger] s[i]).is_for(
            (#[trigger] s[j]).response,
            s[j].content_type,
        ) ==> i == j
}

/// `s` after the given response was asked for: its entry, if it has one, is
/// the first now, and the others follow in their old order.
pub open spec fn touched<V>(s: Seq<EntryView<V>>, response: Seq<char>, content_type: Seq<char>)
    -> Seq<EntryView<V>> {
    if holds(s, response, content_type) {
        let i = place(s, response, content_type);
        seq![s[i]] + s.remove(i)
    } else {
        s
    }
}

/// `s` after `entry` was stored under a limit of `limit` entries: the entry
/// is the first, an older entry for the same response is gone, the others
/// follow in their old order, and what exceeds the limit is cut off at the
/// end.
pub open spec fn stored<V>(s: Seq<EntryView<V>>, limit: nat, entry: EntryView<V>) -> Seq<
    EntryView<V>,
> {
    let rest = if holds(s, entry.response, entry.content_type) {
        s.remove(place(s, entry.response, entry.content_type))
    } else {
        s
    };
    let all = seq![entry] + rest;
    if all.len() > limit {
        all.take(limit as int)
    } else {
        all
    }
}

/// What a list of entries stands for.
pub closed spec fn entry_views<V>(entries: Seq<Entry<V>>) -> Seq<EntryView<V>> {
    Seq::new(
        entries.len(),
        |i: int|
            EntryView {
                response: entries[i].response@,
                content_type: entries[i].content_type@,
                value: entries[i].value,
            },
    )
}

/// A bounded store of values, each kept for a response and its content type.
/// The entries stand in the order of their last use, the latest first.
pub struct HighlightCache<V> {
    capacity: usize,
    entries: Vec<Entry<V>>,
}

impl<V> View for HighlightCache<V> {
    type V = Seq<EntryView<V>>;

    closed spec fn view(&self) -> Seq<EntryView<V>> {
        entry_views(self.entries@)
    }
}

impl<V> HighlightCache<V> {
    #[verifier::type_invariant]
    spec fn inv(self) -> bool {
        &&& self.entries.len() <= self.capacity
        &&& distinct(entry_views(self.entries@))
        &&& forall|i: int|
            0 <= i < self.entries.len() ==> (#[trigger] self.entries[i]).hash == content_hash(
                self.entries[i].response@,
                self.entries[i].content_type@,
            )
    }

    /// The number of entries that the store holds at most.
    pub closed spec fn limit(&self) -> nat {
        self.capacity as nat
    }

    /// An empty store that holds `capacity` entries at most.
    pub fn new(capacity: usize) -> (r: Self)
        ensures
            r@ == Seq::<EntryView<V>>::empty(),
            r.limit() == capacity,
    {
        let r = Self { capacity, entries: Vec::new() };
        assert(r@ =~= Seq::<EntryView<V>>::empty());
        r
    }

    /// The number of entries in the store. It never exceeds the limit, and
    /// no two entries are kept for the same response.
    pub fn len(&self) -> (n: usize)
        ensures
            n == self@.len(),
            n <= self.limit(),
            distinct(self@),
    {
        proof {
            use_type_invariant(self);
        }
        self.entries.len()
    }

    /// The place of the entry for the given response, if there is one.
    fn find(&self, hash: u64, response: &String, content_type: &String) -> (r: Option<usize>)
        requires
            hash == content_hash(response@, content_type@),
        ensures
            r is Some <==> holds(self@, response@, content_type@),
            r is Some ==> r->0 == place(self@, response@, content_type@) && r->0 < self@.len(),
    {
        proof {
            use_type_invariant(self);
        }
        let mut i: usize = 0;
        while i < self.entries.len()
            invariant
                i <= self.entries.len(),
                distinct(self@),
                hash == content_hash(response@, content_type@),
                forall|k: int|
                    0 <= k < self.entries.len() ==> (#[trigger] self.entries[k]).hash
                        == content_hash(self.entries[k].response@, self.entries[k].content_type@),
                forall|j: int|
                    0 <= j < i ==> !(#[trigger] self@[j]).is_for(response@, content_type@),
            decreases self.entries.len() - i,
        {
            let entry = &self.entries[i];
            if entry.hash == hash && entry.response == *response && entry.content_type
                == *content_type {
                proof {
                    let s = self@;
                    assert(s[i as int].is_for(response@, content_type@));
                    let k = place(s, response@, content_type@);
                    assert(s[k].is_for(s[i as int].response, s[i as int].content_type));
                }
                return Some(i);
            }
            assert(!self@[i as int].is_for(response@, content_type@));
            i += 1;
        }
        None
    }

    /// Asks for the entry of the given response. Where the store has it, the
    /// entry becomes the first, and the answer is yes.
    pub fn touch(&mut self, response: &str, content_type: &str) -> (found: bool)
        ensures
            found == holds(old(self)@, response@, content_type@),
            final(self)@ == touched(old(self)@, response@, content_type@),
            final(self).limit() == old(self).limit(),
    {
        proof {
            use_type_invariant(&*self);
        }
        let response = response.to_owned();
        let content_type = content_type.to_owned();
        let hash = hash_content(response.as_str(), content_type.as_str());
        let ghost before = self@;
        match self.find(hash, &response, &content_type) {
            Some(i) => {
                let mut entries: Vec<Entry<V>> = Vec::new();
                core::mem::swap(&mut self.entries, &mut entries);
                let entry = entries.remove(i);
                entries.insert(0, entry);
                assert(entry_views(entries@) =~= seq![before[i as int]] + before.remove(i as int));
                proof {
                    lemma_front_keeps_distinct(before, i as int);
                }
                self.entries = entries;
                true
            },
            None => false,
        }
    }

    /// The value of the first entry: of the one that was used last.
    pub fn newest(&self) -> (r: Option<&V>)
        ensures
            r is Some <==> self@.len() > 0,
            r is Some ==> *r->0 == self@[0].value,
    {
        if self.entries.len() > 0 {
            Some(&self.entries[0].value)
        } else {
            None
        }
    }

    /// Stores `value` for the given response, as the first entry. An older
    /// entry for the same response is replaced. Where the store is full, the
    /// entry that was used longest ago is dropped.
    pub fn put(&mut self, response: String, content_type: String, value: V)
        ensures
            final(self)@ == stored(
                old(self)@,
                old(self).limit(),
                EntryView { response: response@, content_type: content_type@, value },
            ),
            final(self).limit() == old(self).limit(),
    {
        proof {
            use_type_invariant(&*self);
        }
        let hash = hash_content(response.as_str(), content_type.as_str());
        let ghost before = self@;
        let ghost added = EntryView { response: response@, content_type: content_type@, value };
        let found = self.find(hash, &response, &content_type);
        let mut entries: Vec<Entry<V>> = Vec::new();
        core::mem::swap(&mut self.entries, &mut entries);
        match found {
            Some(i) => {
                entries.remove(i);
                assert(entry_views(entries@) =~= before.remove(i as int));
            },
            None => {},
        }
        let ghost rest = entry_views(entries@);
        proof {
            lemma_rest_lacks(before, response@, content_type@);
        }
        if entries.len() < self.capacity {
            entries.insert(0, Entry { hash, response, content_type, value });
            assert(entry_views(entries@) =~= seq![added] + rest);
        } else {
            if self.capacity > 0 {
                entries.pop();
                entries.insert(0, Entry { hash, response, content_type, value });
                assert(entry_views(entries@) =~= (seq![added] + rest).take(
                    self.capacity as int,
                ));
            } else {
                assert(entry_views(entries@) =~= (seq![added] + rest).take(0));
            }
        }
        self.entries = entries;
    }
}

/// What was stored last is found, as the first entry, while the limit is
/// not zero; and the store never holds more than the limit.
pub proof fn lemma_stored_is_first<V>(s: Seq<EntryView<V>>, limit: nat, entry: EntryView<V>)
    ensures
        stored(s, limit, entry).len() <= limit,
        limit > 0 ==> stored(s, limit, entry).len() > 0 && stored(s, limit, entry)[0] == entry
            && holds(stored(s, limit, entry), entry.response, entry.content_type),
{
    let t = stored(s, limit, entry);
    if limit > 0 {
        assert(t[0].is_for(entry.response, entry.content_type));
    }
}

/// Asking for a response brings no entry into the store that was not there.
pub proof fn lemma_touched_members<V>(
    s: Seq<EntryView<V>>,
    response: Seq<char>,
    content_type: Seq<char>,
    i: int,
)
    requires
        0 <= i < touched(s, response, content_type).len(),
    ensures
        exists|k: int| 0 <= k < s.len() && touched(s, response, content_type)[i] == #[trigger] s[k],
{
    let t = touched(s, response, content_type);
    if holds(s, response, content_type) {
        let p = place(s, response, content_type);
        let k = if i == 0 {
            p
        } else if i - 1 < p {
            i - 1
        } else {
            i
        };
        assert(t[i] == s[k]);
    } else {
        assert(t[i] == s[i]);
    }
}

/// Storing an entry brings no entry into the store but that one.
pub proof fn lemma_stored_members<V>(s: Seq<EntryView<V>>, limit: nat, entry: EntryView<V>, i: int)
    requires
        0 <= i < stored(s, limit, entry).len(),
    ensures
        stored(s, limit, entry)[i] == entry || exists|k: int|
            0 <= k < s.len() && stored(s, limit, entry)[i] == #[trigger] s[k],
{
    let t = stored(s, limit, entry);
    if i > 0 {
        if holds(s, entry.response, entry.content_type) {
            let p = place(s, entry.response, entry.content_type);
            let k = if i - 1 < p {
                i - 1
            } else {
                i
            };
            assert(t[i] == s[k]);
        } else {
            assert(t[i] == s[i - 1]);
        }
    }
}

/// Moving one entry to the front leaves no response with two entries.
pub proof fn lemma_front_keeps_distinct<V>(s: Seq<EntryView<V>>, i: int)
    requires
        distinct(s),
        0 <= i < s.len(),
    ensures
        distinct(seq![s[i]] + s.remove(i)),
{
    let t = seq![s[i]] + s.remove(i);
    assert forall|a: int, b: int|
        0 <= a < t.len() && 0 <= b < t.len() && (#[trigger] t[a]).is_for(
            (#[trigger] t[b]).response,
            t[b].content_type,
        ) implies a == b by {
        let from = |k: int|
            if k == 0 {
                i
            } else if k - 1 < i {
                k - 1
            } else {
                k
            };
        assert(t[a] == s[from(a)]);
        assert(t[b] == s[from(b)]);
    }
}

/// Without the entry for a response, no entry is kept for that response,
/// and no response has two entries.
pub proof fn lemma_rest_lacks<V>(s: Seq<EntryView<V>>, response: Seq<char>, content_type: Seq<char>)
    requires
        distinct(s),
    ensures
        ({
            let rest = if holds(s, response, content_type) {
                s.remove(place(s, response, content_type))
            } else {
                s
            };
            &&& !holds(rest, response, content_type)
            &&& distinct(rest)
            &&& rest.len() <= s.len()
        }),
{
    if holds(s, response, content_type) {
        let i = place(s, response, content_type);
        let rest = s.remove(i);
        let from = |k: int|
            if k < i {
                k
            } else {
                k + 1
            };
        assert forall|k: int| 0 <= k < rest.len() implies !(#[trigger] rest[k]).is_for(
            response,
            content_type,
        ) by {
            assert(rest[k] == s[from(k)]);
            assert(s[i].is_for(s[from(k)].response, s[from(k)].content_type) ==> i == from(k));
        }
        assert forall|a: int, b: int|
            0 <= a < rest.len() && 0 <= b < rest.len() && (#[trigger] rest[a]).is_for(
                (#[trigger] rest[b]).response,
                rest[b].content_type,
            ) implies a == b by {
            assert(rest[a] == s[from(a)]);
            assert(rest[b] == s[from(b)]);
        }
    }
}

} // verus!
