//! The server's clipboard history: a bounded list of entries, oldest first,
//! that skips an update repeating the newest entry, lists the newest entries
//! first and finds content by its hash.
//!
//! Image data is kept out of the list, in a blob named by the hexadecimal
//! content hash; reading and writing those blobs, the timestamps and the
//! saved copy of the list are the application's part.

use vstd::prelude::*;
use std::collections::VecDeque;
use vstd::slice::slice_to_vec;
use crate::protocol::{ContentType, ClientId, ClipboardContent, HistoryEntry, same_hash};
use crate::clipboard::{preview_content, preview_cut_ok, preview, can_preview};
use crate::text::{hex_string, hex_chars};

pub mod cli;

verus! {

/// How many bytes of text a history listing previews.
pub const PREVIEW_LEN: usize = 60;

/// Where an entry's data is: inline, or in a blob file of the given name.
#[derive(Debug)]
pub enum EntryData {
    Inline(Vec<u8>),
    Blob(String),
}

/// The view of `EntryData`.
pub enum EntryDataView {
    Inline(Seq<u8>),
    Blob(Seq<char>),
}

impl View for EntryData {
    type V = EntryDataView;

    open spec fn view(&self) -> EntryDataView {
        match self {
            EntryData::Inline(d) => EntryDataView::Inline(d@),
            EntryData::Blob(name) => EntryDataView::Blob(name@),
        }
    }
}

/// One entry of the history.
#[derive(Debug)]
pub struct StoredEntry {
    pub content_type: ContentType,
    pub hash: [u8; 32],
    pub origin_client: ClientId,
    pub timestamp_secs: u64,
    pub data: EntryData,
}

/// The view of `StoredEntry`.
pub struct StoredEntryView {
    pub content_type: ContentType,
    pub hash: Seq<u8>,
    pub origin_client: ClientId,
    pub timestamp_secs: u64,
    pub data: EntryDataView,
}

impl View for StoredEntry {
    type V = StoredEntryView;

    open spec fn view(&self) -> StoredEntryView {
        StoredEntryView {
            content_type: self.content_type,
            hash: self.hash@,
            origin_client: self.origin_client,
            timestamp_secs: self.timestamp_secs,
            data: self.data@,
        }
    }
}

/// The content of an entry, with its data in hand.
pub struct FullEntry {
    pub content_type: ContentType,
    pub data: Vec<u8>,
}

/// What looking an entry up by hash finds: its content, or, for an image,
/// the blob that holds its data.
pub enum HistoryHit {
    Full(FullEntry),
    Blob { content_type: ContentType, name: String },
}

/// The name of the blob that holds an image's data: its hash in lowercase
/// hexadecimal.
pub fn hex_hash(hash: &[u8; 32]) -> (s: String)
    ensures
        s@ == hex_chars(hash@),
{
    hex_string(hash.as_slice())
}

/// The entry that `add` stores: an image is recorded by the name of its
/// blob when the history is kept on disk, and inline otherwise; other
/// content is always inline.
pub open spec fn new_entry(
    persist: bool,
    content_type: ContentType,
    data: Seq<u8>,
    hash: Seq<u8>,
    origin_client: ClientId,
    timestamp_secs: u64,
) -> StoredEntryView {
    StoredEntryView {
        content_type,
        hash,
        origin_client,
        timestamp_secs,
        data: if content_type == ContentType::Image && persist {
            EntryDataView::Blob(hex_chars(hash))
        } else {
            EntryDataView::Inline(data)
        },
    }
}

/// The newest `max` entries of `s` (all of them when there are no more).
pub open spec fn keep_newest(s: Seq<StoredEntryView>, max: nat) -> Seq<StoredEntryView> {
    if s.len() > max {
        s.skip(s.len() - max)
    } else {
        s
    }
}

/// Whether `hash` is the hash of the newest entry of `s`.
pub open spec fn repeats_newest(s: Seq<StoredEntryView>, hash: Seq<u8>) -> bool {
    s.len() > 0 && s.last().hash == hash
}

/// The size recorded for the blob named `name` in a listing of blob sizes:
/// the first pair with that name, or zero when there is none.
pub open spec fn blob_size(sizes: Seq<(String, usize)>, name: Seq<char>) -> usize
    decreases sizes.len(),
{
    if sizes.len() == 0 {
        0
    } else if sizes[0].0@ == name {
        sizes[0].1
    } else {
        blob_size(sizes.drop_first(), name)
    }
}

/// The preview shown for a blob: `[image blob: NAME]`.
pub open spec fn blob_preview(name: Seq<char>) -> Seq<char> {
    "[image blob: "@ + name + "]"@
}

/// Whether `h` is the listing line for `e` at 1-based position `index`.
pub open spec fn lists_entry(h: HistoryEntry, e: StoredEntryView, index: int, sizes: Seq<(String, usize)>) -> bool {
    &&& h.index == index
    &&& h.content_type == e.content_type
    &&& h.hash@ == e.hash
    &&& h.origin_client == e.origin_client
    &&& h.timestamp_secs == e.timestamp_secs
    &&& match e.data {
        EntryDataView::Inline(d) => h.preview@ == preview(e.content_type, d, PREVIEW_LEN as nat)
            && h.size_bytes == d.len(),
        EntryDataView::Blob(name) => h.preview@ == blob_preview(name) && h.size_bytes == blob_size(
            sizes,
            name,
        ),
    }
}

/// Whether every entry among the newest `count` of `s` can be previewed.
pub open spec fn listing_previewable(s: Seq<StoredEntryView>, count: nat) -> bool {
    forall|i: int|
        #![trigger s[i]]
        0 <= i < s.len() && s.len() - i <= count ==> match s[i].data {
            EntryDataView::Inline(d) => preview_cut_ok(s[i].content_type, d, PREVIEW_LEN as nat),
            EntryDataView::Blob(_) => true,
        }
}

/// Whether `hit` is what looking up `e` gives.
pub open spec fn hit_of(hit: HistoryHit, e: StoredEntryView) -> bool {
    match hit {
        HistoryHit::Full(f) => f.content_type == e.content_type && e.data == EntryDataView::Inline(
            f.data@,
        ),
        HistoryHit::Blob { content_type, name } => content_type == e.content_type && e.data
            == EntryDataView::Blob(name@),
    }
}

/// The clipboard history, oldest entry first, with its size limit.
pub struct HistoryStore {
    entries: VecDeque<StoredEntry>,
    max_entries: usize,
    persist: bool,
}

impl View for HistoryStore {
    type V = Seq<StoredEntryView>;

    closed spec fn view(&self) -> Seq<StoredEntryView> {
        self.entries@.map_values(|e: StoredEntry| e@)
    }
}

impl HistoryStore {
    /// The most entries that `add` keeps.
    pub closed spec fn max_entries(&self) -> nat {
        self.max_entries as nat
    }

    /// Whether the history holds no more entries than its limit; every
    /// operation keeps this.
    pub open spec fn within_limit(&self) -> bool {
        self@.len() <= self.max_entries()
    }

    /// Whether the history is kept on disk, images in blob files.
    pub closed spec fn persist(&self) -> bool {
        self.persist
    }

    /// A history holding the newest `max_entries` of `entries` (as loaded
    /// from disk), with that limit for what `add` keeps, kept on disk or
    /// not as `persist` says.
    pub fn new(max_entries: usize, persist: bool, entries: VecDeque<StoredEntry>) -> (store: Self)
        ensures
            store@ == keep_newest(entries@.map_values(|e: StoredEntry| e@), max_entries as nat),
            store.max_entries() == max_entries,
            store.persist() == persist,
            store.within_limit(),
    {
        let mut store = HistoryStore { entries, max_entries, persist };
        store.drop_oldest();
        store
    }

    /// Drops the oldest entries until at most `max_entries` remain.
    fn drop_oldest(&mut self)
        ensures
            final(self)@ == keep_newest(old(self)@, old(self).max_entries()),
            final(self).max_entries() == old(self).max_entries(),
            final(self).persist() == old(self).persist(),
    {
        let ghost start = self@;
        let ghost mut dropped: int = 0;
        let ghost max = self.max_entries;
        let ghost keep = self.persist;
        while self.entries.len() > self.max_entries
            invariant
                self.max_entries == max,
                self.persist == keep,
                max == old(self).max_entries(),
                keep == old(self).persist(),
                start == old(self)@,
                0 <= dropped <= start.len(),
                self@ == start.skip(dropped),
                dropped == 0 || start.len() - dropped >= self.max_entries,
            decreases self.entries@.len(),
        {
            let _ = self.entries.pop_front();
            proof {
                assert(self@ =~= start.skip(dropped).skip(1));
                dropped = dropped + 1;
            }
        }
        assert(self@ =~= keep_newest(start, max as nat));
    }

    /// The entries, oldest first.
    pub fn entries(&self) -> (r: &VecDeque<StoredEntry>)
        ensures
            r@.map_values(|e: StoredEntry| e@) == self@,
    {
        &self.entries
    }

    /// Whether `hash` is the hash of the newest entry, which `add` skips.
    pub fn is_duplicate(&self, hash: &[u8; 32]) -> (r: bool)
        ensures
            r == repeats_newest(self@, hash@),
    {
        let n = self.entries.len();
        if n == 0 {
            false
        } else {
            same_hash(&self.entries[n - 1].hash, hash)
        }
    }

    /// Records a clipboard update, unless its hash is that of the newest
    /// entry; an image is recorded by the name of its blob when the history
    /// is kept on disk, inline otherwise.  Then the oldest entries are
    /// dropped until at most `max_entries` remain.  Returns whether the
    /// update was recorded.
    pub fn add(
        &mut self,
        content_type: ContentType,
        data: Vec<u8>,
        hash: [u8; 32],
        origin_client: ClientId,
        timestamp_secs: u64,
    ) -> (added: bool)
        ensures
            final(self).max_entries() == old(self).max_entries(),
            final(self).persist() == old(self).persist(),
            old(self).within_limit() ==> final(self).within_limit(),
            added ==> final(self).within_limit(),
            added ==> final(self)@.len() == (if old(self)@.len() + 1 <= old(self).max_entries() {
                old(self)@.len() + 1
            } else {
                old(self).max_entries()
            }),
            added == !repeats_newest(old(self)@, hash@),
            added <==> !(old(self)@.len() > 0 && old(self)@.last().hash == hash@),
            added && old(self).max_entries() >= 1 ==> ({
                let e = final(self)@.last();
                &&& e.content_type == content_type
                &&& e.hash == hash@
                &&& e.origin_client == origin_client
                &&& e.timestamp_secs == timestamp_secs
                &&& e.data == (if content_type == ContentType::Image && old(self).persist() {
                    EntryDataView::Blob(hex_chars(hash@))
                } else {
                    EntryDataView::Inline(data@)
                })
            }),
            !added ==> final(self)@ == old(self)@,
            added ==> final(self)@ == keep_newest(
                old(self)@.push(
                    new_entry(old(self).persist(), content_type, data@, hash@, origin_client, timestamp_secs),
                ),
                old(self).max_entries(),
            ),
    {
        if self.is_duplicate(&hash) {
            return false;
        }
        let entry_data = match content_type {
            ContentType::Image if self.persist => EntryData::Blob(hex_hash(&hash)),
            _ => EntryData::Inline(data),
        };
        let entry = StoredEntry { content_type, hash, origin_client, timestamp_secs, data: entry_data };
        self.entries.push_back(entry);
        assert(self@ =~= old(self)@.push(
            new_entry(self.persist, content_type, data@, hash@, origin_client, timestamp_secs),
        ));
        self.drop_oldest();
        proof {
            lemma_keep_newest_keeps_exactly_the_newest(old(self)@.push(
                new_entry(self.persist, content_type, data@, hash@, origin_client, timestamp_secs),
            ), self.max_entries as nat);
        }
        true
    }

    /// Drops every entry.
    pub fn clear(&mut self)
        ensures
            final(self)@ == Seq::<StoredEntryView>::empty(),
            final(self).max_entries() == old(self).max_entries(),
            final(self).persist() == old(self).persist(),
            final(self).within_limit(),
    {
        self.entries.clear();
    }
}

/// Whether `i` is the position of the oldest entry of `s` with hash `hash`.
pub open spec fn first_with_hash(s: Seq<StoredEntryView>, hash: Seq<u8>, i: int) -> bool {
    &&& 0 <= i < s.len()
    &&& s[i].hash == hash
    &&& forall|j: int| 0 <= j < i ==> s[j].hash != hash
}

/// The smaller of two numbers.
pub open spec fn min_nat(a: nat, b: nat) -> nat {
    if a < b {
        a
    } else {
        b
    }
}

/// The size that a listing of blob sizes records for `name`, or zero.
fn lookup_blob_size(sizes: &Vec<(String, usize)>, name: &String) -> (r: usize)
    ensures
        r == blob_size(sizes@, name@),
{
    let mut i: usize = 0;
    assert(sizes@.skip(0) =~= sizes@);
    while i < sizes.len()
        invariant
            i <= sizes@.len(),
            blob_size(sizes@, name@) == blob_size(sizes@.skip(i as int), name@),
        decreases sizes@.len() - i,
    {
        assert(sizes@.skip(i as int).drop_first() =~= sizes@.skip(i + 1));
        if sizes[i].0 == *name {
            return sizes[i].1;
        }
        i = i + 1;
    }
    0
}

impl HistoryStore {
    /// The newest `count` entries, newest first, numbered from 1, each with
    /// a preview (the first 60 bytes of text, or the blob's name) and its
    /// size (the text's length, or the blob's size as `blob_sizes` records
    /// it, zero when it does not).
    pub fn list(&self, count: usize, blob_sizes: &Vec<(String, usize)>) -> (r: Vec<HistoryEntry>)
        requires
            listing_previewable(self@, count as nat),
        ensures
            r@.len() == min_nat(count as nat, self@.len()),
            r@.len() == (if count < self@.len() { count as nat } else { self@.len() }),
            forall|i: int|
                0 <= i < r@.len() ==> (#[trigger] r@[i]).index == i + 1 && r@[i].hash@ == self@[self@.len()
                    - 1 - i].hash && r@[i].content_type == self@[self@.len() - 1 - i].content_type,
            forall|i: int|
                0 <= i < r@.len() ==> lists_entry(
                    #[trigger] r@[i],
                    self@[self@.len() - 1 - i],
                    i + 1,
                    blob_sizes@,
                ),
    {
        let n = self.entries.len();
        let mut r: Vec<HistoryEntry> = Vec::new();
        let mut i: usize = 0;
        while i < n && i < count
            invariant
                n == self@.len(),
                i <= n,
                i <= count,
                r@.len() == i,
                listing_previewable(self@, count as nat),
                forall|j: int|
                    0 <= j < i ==> lists_entry(#[trigger] r@[j], self@[n - 1 - j], j + 1, blob_sizes@),
            decreases n - i,
        {
            let e = &self.entries[n - 1 - i];
            assert(self@[n - 1 - i] == e@);
            let preview_text;
            let size;
            match &e.data {
                EntryData::Inline(d) => {
                    let content = ClipboardContent {
                        content_type: e.content_type,
                        data: slice_to_vec(d.as_slice()),
                    };
                    preview_text = preview_content(&content, PREVIEW_LEN);
                    size = d.len();
                },
                EntryData::Blob(name) => {
                    let mut p = String::from_str("[image blob: ");
                    p.append(name.as_str());
                    p.append("]");
                    preview_text = p;
                    size = lookup_blob_size(blob_sizes, name);
                },
            }
            let line = HistoryEntry {
                index: i + 1,
                content_type: e.content_type,
                hash: e.hash,
                origin_client: e.origin_client,
                preview: preview_text,
                size_bytes: size,
                timestamp_secs: e.timestamp_secs,
            };
            r.push(line);
            i = i + 1;
        }
        r
    }

    /// Whether every entry that `list(count, ..)` shows can be previewed.
    pub fn can_list(&self, count: usize) -> (ok: bool)
        ensures
            ok == listing_previewable(self@, count as nat),
    {
        let n = self.entries.len();
        let mut i: usize = 0;
        while i < n && i < count
            invariant
                n == self@.len(),
                i <= n,
                forall|j: int|
                    n - 1 - i < j < n ==> match (#[trigger] self@[j]).data {
                        EntryDataView::Inline(d) => preview_cut_ok(
                            self@[j].content_type,
                            d,
                            PREVIEW_LEN as nat,
                        ),
                        EntryDataView::Blob(_) => true,
                    },
            decreases n - i,
        {
            let e = &self.entries[n - 1 - i];
            assert(self@[n - 1 - i] == e@);
            match &e.data {
                EntryData::Inline(d) => {
                    if !can_preview(e.content_type, d.as_slice(), PREVIEW_LEN) {
                        return false;
                    }
                },
                EntryData::Blob(_) => {},
            }
            i = i + 1;
        }
        true
    }

    /// `list`, or `None` where listing would have to cut a text preview
    /// inside a character.
    pub fn list_checked(&self, count: usize, blob_sizes: &Vec<(String, usize)>) -> (r: Option<Vec<HistoryEntry>>)
        ensures
            r is None <==> !listing_previewable(self@, count as nat),
            r matches Some(v) ==> {
                &&& v@.len() == min_nat(count as nat, self@.len())
                &&& forall|i: int|
                    0 <= i < v@.len() ==> lists_entry(
                        #[trigger] v@[i],
                        self@[self@.len() - 1 - i],
                        i + 1,
                        blob_sizes@,
                    )
            },
    {
        if self.can_list(count) {
            Some(self.list(count, blob_sizes))
        } else {
            None
        }
    }

    /// The oldest entry whose hash is `hash`: its content when it is held
    /// inline, the name of its blob otherwise.
    pub fn get_by_hash(&self, hash: &[u8; 32]) -> (r: Option<HistoryHit>)
        ensures
            match r {
                None => forall|i: int| 0 <= i < self@.len() ==> (#[trigger] self@[i]).hash != hash@,
                Some(hit) => exists|i: int| first_with_hash(self@, hash@, i) && hit_of(hit, self@[i]),
            },
    {
        let n = self.entries.len();
        let mut i: usize = 0;
        while i < n
            invariant
                n == self@.len(),
                i <= n,
                forall|j: int| 0 <= j < i ==> (#[trigger] self@[j]).hash != hash@,
            decreases n - i,
        {
            let e = &self.entries[i];
            if same_hash(&e.hash, hash) {
                let hit = match &e.data {
                    EntryData::Inline(d) => HistoryHit::Full(
                        FullEntry { content_type: e.content_type, data: slice_to_vec(d.as_slice()) },
                    ),
                    EntryData::Blob(name) => HistoryHit::Blob {
                        content_type: e.content_type,
                        name: name.clone(),
                    },
                };
                assert(first_with_hash(self@, hash@, i as int) && hit_of(hit, self@[i as int]));
                return Some(hit);
            }
            i = i + 1;
        }
        None
    }
}

/// Whether no two neighbouring entries of `s` have the same hash.
pub open spec fn no_adjacent_repeats(s: Seq<StoredEntryView>) -> bool {
    forall|i: int, j: int| 0 <= i && j == i + 1 && j < s.len() ==> #[trigger] s[i].hash != #[trigger] s[j].hash
}

/// The history stays within its limit: after `add` records an update, it
/// holds at most `max_entries` entries.
pub proof fn lemma_add_respects_limit(s: Seq<StoredEntryView>, e: StoredEntryView, max: nat)
    ensures
        keep_newest(s.push(e), max).len() <= max,
{
}

/// What `add` records can be read back: when the limit allows at least one
/// entry, the recorded entry is the newest one, `get_by_hash` finds an entry
/// with its hash, and, when no older entry has that hash, the entry found
/// is the one just recorded (so its inline data is the data added, or its
/// blob is the one named after the hash).
pub proof fn lemma_add_then_get(s: Seq<StoredEntryView>, e: StoredEntryView, max: nat)
    requires
        max >= 1,
    ensures
        ({
            let t = keep_newest(s.push(e), max);
            &&& t.len() >= 1
            &&& t.last() == e
            &&& exists|i: int| first_with_hash(t, e.hash, i)
            &&& (forall|j: int| 0 <= j < s.len() ==> s[j].hash != e.hash) ==> first_with_hash(
                t,
                e.hash,
                t.len() - 1,
            )
        }),
{
    let u = s.push(e);
    let t = keep_newest(u, max);
    let k = u.len() - t.len();
    if !(exists|i: int| first_with_hash(t, e.hash, i)) {
        lemma_first_occurrence(t, e.hash, t.len() - 1);
    }
}

/// If some entry of `s` has hash `hash`, one of them is the oldest.
proof fn lemma_first_occurrence(s: Seq<StoredEntryView>, hash: Seq<u8>, i: int)
    requires
        0 <= i < s.len(),
        s[i].hash == hash,
    ensures
        exists|k: int| first_with_hash(s, hash, k),
    decreases i,
{
    if exists|j: int| 0 <= j < i && s[j].hash == hash {
        let j = choose|j: int| 0 <= j < i && s[j].hash == hash;
        lemma_first_occurrence(s, hash, j);
    } else {
        assert(first_with_hash(s, hash, i));
    }
}

/// `add` never makes two neighbouring entries carry the same hash: a
/// history without such neighbours keeps that property through every `add`.
pub proof fn lemma_add_keeps_no_adjacent_repeats(s: Seq<StoredEntryView>, e: StoredEntryView, max: nat)
    requires
        no_adjacent_repeats(s),
        !repeats_newest(s, e.hash),
    ensures
        no_adjacent_repeats(keep_newest(s.push(e), max)),
{
    let u = s.push(e);
    assert forall|i: int, j: int| 0 <= i && j == i + 1 && j < u.len() implies #[trigger] u[i].hash
        != #[trigger] u[j].hash by {
        if j == u.len() - 1 {
        } else {
        }
    }
    let t = keep_newest(u, max);
    let k = u.len() - t.len();
    assert forall|i: int, j: int| 0 <= i && j == i + 1 && j < t.len() implies #[trigger] t[i].hash
        != #[trigger] t[j].hash by {
    }
}

/// Saving the history and loading it back keeps it: a history within its
/// limit, loaded again with the same limit (by `HistoryStore::new` from the
/// entries that `HistoryStore::entries` hands out), holds the same entries
/// in the same order.  Every history is within its limit after `new`, `add`
/// and `clear`.
pub proof fn lemma_reload_keeps_history(saved: Seq<StoredEntryView>, max: nat)
    requires
        saved.len() <= max,
    ensures
        keep_newest(saved, max) == saved,
{
}

/// What trimming the history keeps: exactly the newest `min(|s|, max)`
/// entries of `s`, in their order; only the surplus oldest are dropped.
pub proof fn lemma_keep_newest_keeps_exactly_the_newest(s: Seq<StoredEntryView>, max: nat)
    ensures
        keep_newest(s, max).len() == (if s.len() <= max { s.len() } else { max }),
        forall|i: int|
            0 <= i < keep_newest(s, max).len() ==> #[trigger] keep_newest(s, max)[i] == s[s.len()
                - keep_newest(s, max).len() + i],
{
}

/// Recording an update into a history within its limit drops at most the
/// one oldest entry: afterwards it holds `min(n + 1, max)` entries, the
/// newest being the update (when the limit allows any) and the others the
/// newest of the old entries, in order.
pub proof fn lemma_add_drops_only_surplus(s: Seq<StoredEntryView>, e: StoredEntryView, max: nat)
    requires
        s.len() <= max,
    ensures
        ({
            let t = keep_newest(s.push(e), max);
            &&& t.len() == (if s.len() + 1 <= max { s.len() + 1 } else { max })
            &&& max >= 1 ==> t.last() == e
            &&& forall|i: int| 0 <= i < t.len() - 1 ==> #[trigger] t[i] == s[s.len() + 1 - t.len() + i]
        }),
{
    lemma_keep_newest_keeps_exactly_the_newest(s.push(e), max);
    let t = keep_newest(s.push(e), max);
    assert forall|i: int| 0 <= i < t.len() - 1 implies #[trigger] t[i] == s[s.len() + 1 - t.len() + i] by {
        assert(t[i] == s.push(e)[s.len() + 1 - t.len() + i]);
    }
}

} // verus!
