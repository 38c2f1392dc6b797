//! Keyed tables and the set of submitted URLs: no key and no URL occurs twice, and entries keep
//! the order in which they came.
use vstd::prelude::*;

use crate::feed_id::FeedId;
use crate::text;
use crate::types::{
    self,
    clone_info, AnimeIdentity, AnimeIdentityView, BangumiInfo, BangumiInfoView,
    EpisodeRecord, EpisodeRecordView, FeedFilter, FeedFilterView, RecordStatus,
};

verus! {

/// A feed subscription.
#[derive(Debug, PartialEq)]
pub struct Feed {
    pub id: FeedId,
    pub url: String,
    pub anime: AnimeIdentity,
    pub confirmed: bool,
    /// Bangumi metadata — given on confirm, persisted with the state.
    pub bangumi_info: Option<BangumiInfo>,
    /// Title filter — applied to RSS items before download.
    pub filter: FeedFilter,
}

#[verifier::ext_equal]
pub struct FeedView {
    pub id: FeedId,
    pub url: Seq<char>,
    pub anime: AnimeIdentityView,
    pub confirmed: bool,
    pub bangumi_info: Option<BangumiInfoView>,
    pub filter: FeedFilterView,
}

impl View for Feed {
    type V = FeedView;

    open spec fn view(&self) -> FeedView {
        FeedView {
            id: self.id,
            url: self.url@,
            anime: self.anime@,
            confirmed: self.confirmed,
            bangumi_info: types::info_view(self.bangumi_info),
            filter: self.filter@,
        }
    }
}

impl Clone for Feed {
    fn clone(&self) -> (r: Self)
        ensures
            r@ == self@,
    {
        Feed {
            id: self.id,
            url: self.url.clone(),
            anime: self.anime.clone(),
            confirmed: self.confirmed,
            bangumi_info: clone_info(&self.bangumi_info),
            filter: self.filter.clone(),
        }
    }
}

// ── Association lists ──

/// `key` is the key of the entry at position `i`.
pub open spec fn key_at<K, V>(entries: Seq<(K, V)>, key: K, i: int) -> bool {
    0 <= i < entries.len() && entries[i].0 == key
}

/// `key` is the key of some entry.
pub open spec fn has_key<K, V>(entries: Seq<(K, V)>, key: K) -> bool {
    exists|i: int| key_at(entries, key, i)
}

/// The value under `key`.
pub open spec fn lookup<K, V>(entries: Seq<(K, V)>, key: K) -> Option<V> {
    if has_key(entries, key) {
        Some(entries[choose|i: int| key_at(entries, key, i)].1)
    } else {
        None
    }
}

/// No two entries share a key.
pub open spec fn unique_keys<K, V>(entries: Seq<(K, V)>) -> bool {
    forall|i: int, j: int|
        0 <= i < j < entries.len() ==> (#[trigger] entries[i]).0 != (#[trigger] entries[j]).0
}

/// The entries once `value` stands under `key`: in place of the value that stood there, else at
/// the end.
pub open spec fn inserted<K, V>(entries: Seq<(K, V)>, key: K, value: V) -> Seq<(K, V)> {
    if has_key(entries, key) {
        entries.update(choose|i: int| key_at(entries, key, i), (key, value))
    } else {
        entries.push((key, value))
    }
}

/// The entries without the one under `key`.
pub open spec fn removed<K, V>(entries: Seq<(K, V)>, key: K) -> Seq<(K, V)> {
    entries.filter(|e: (K, V)| e.0 != key)
}

/// With unique keys, an entry found at any position is the one that `lookup` gives.
pub proof fn lemma_lookup_at<K, V>(entries: Seq<(K, V)>, key: K, i: int)
    requires
        unique_keys(entries),
        key_at(entries, key, i),
    ensures
        lookup(entries, key) == Some(entries[i].1),
        (choose|k: int| key_at(entries, key, k)) == i,
{
    let k = choose|k: int| key_at(entries, key, k);
    assert(key_at(entries, key, k));
    if k < i {
        assert(entries[k].0 != entries[i].0);
    } else if i < k {
        assert(entries[i].0 != entries[k].0);
    }
}

/// Putting a value under a key keeps keys unique; the key then gives the value, and every other
/// key what it gave before.
pub proof fn lemma_inserted<K, V>(entries: Seq<(K, V)>, key: K, value: V)
    requires
        unique_keys(entries),
    ensures
        unique_keys(inserted(entries, key, value)),
        lookup(inserted(entries, key, value), key) == Some(value),
        forall|other: K|
            other != key ==> #[trigger] lookup(inserted(entries, key, value), other) == lookup(
                entries,
                other,
            ),
{
    let after = inserted(entries, key, value);
    let at = if has_key(entries, key) {
        choose|i: int| key_at(entries, key, i)
    } else {
        entries.len() as int
    };
    assert(has_key(entries, key) ==> key_at(entries, key, at));
    assert(unique_keys(after)) by {
        assert forall|i: int, j: int| 0 <= i < j < after.len() implies (#[trigger] after[i]).0 != (
        #[trigger] after[j]).0 by {
            if !has_key(entries, key) {
                if j == at {
                    assert(!key_at(entries, key, i));
                } else {
                    assert(entries[i].0 != entries[j].0);
                }
            } else {
                assert(entries[i].0 != entries[j].0);
            }
        }
    }
    assert(key_at(after, key, at));
    lemma_lookup_at(after, key, at);
    assert forall|other: K| other != key implies #[trigger] lookup(after, other) == lookup(
        entries,
        other,
    ) by {
        if has_key(entries, other) {
            let i = choose|i: int| key_at(entries, other, i);
            assert(key_at(after, other, i));
            lemma_lookup_at(after, other, i);
        } else if has_key(after, other) {
            let i = choose|i: int| key_at(after, other, i);
            assert(key_at(entries, other, i));
        }
    }
}

/// Keeping only some entries keeps keys unique; a key then gives what it gave before if its
/// entry was kept, and nothing otherwise.
pub proof fn lemma_filtered<K, V>(entries: Seq<(K, V)>, keep: spec_fn((K, V)) -> bool)
    requires
        unique_keys(entries),
    ensures
        unique_keys(entries.filter(keep)),
        forall|key: K|
            #[trigger] lookup(entries.filter(keep), key) == (match lookup(entries, key) {
                Some(value) => if keep((key, value)) {
                    Some(value)
                } else {
                    None
                },
                None => None,
            }),
    decreases entries.len(),
{
    reveal(Seq::filter);
    let after = entries.filter(keep);
    if entries.len() > 0 {
        let init = entries.drop_last();
        let last = entries.last();
        lemma_filtered(init, keep);
        let kept = init.filter(keep);
        assert forall|i: int| 0 <= i < kept.len() implies (#[trigger] kept[i]).0 != last.0 by {
            assert(kept.contains(kept[i]));
            init.lemma_filter_contains_rev(keep, kept[i]);
            let j = init.index_of(kept[i]);
            assert(entries[j].0 != entries[entries.len() - 1].0);
        }
        assert(unique_keys(after));
        assert forall|key: K|
            #[trigger] lookup(after, key) == (match lookup(entries, key) {
                Some(value) => if keep((key, value)) {
                    Some(value)
                } else {
                    None
                },
                None => None,
            }) by {
            assert(lookup(kept, key) == (match lookup(init, key) {
                Some(value) => if keep((key, value)) {
                    Some(value)
                } else {
                    None
                },
                None => None,
            }));
            if key == last.0 {
                assert(key_at(entries, key, entries.len() - 1));
                lemma_lookup_at(entries, key, entries.len() - 1);
                if has_key(init, key) {
                    let i = choose|i: int| key_at(init, key, i);
                    assert(entries[i].0 != entries[entries.len() - 1].0);
                }
                if keep(last) {
                    assert(key_at(after, key, after.len() - 1));
                    lemma_lookup_at(after, key, after.len() - 1);
                }
            } else {
                if has_key(init, key) {
                    let i = choose|i: int| key_at(init, key, i);
                    assert(key_at(entries, key, i));
                    lemma_lookup_at(entries, key, i);
                } else if has_key(entries, key) {
                    let i = choose|i: int| key_at(entries, key, i);
                    assert(key_at(init, key, i));
                }
                if has_key(kept, key) {
                    let i = choose|i: int| key_at(kept, key, i);
                    assert(key_at(after, key, i));
                    lemma_lookup_at(after, key, i);
                } else if has_key(after, key) {
                    let i = choose|i: int| key_at(after, key, i);
                    assert(key_at(kept, key, i));
                }
            }
        }
    } else {
        assert(after =~= entries);
    }
}

/// Removing a key leaves every other key as it was.
pub proof fn lemma_removed<K, V>(entries: Seq<(K, V)>, key: K)
    requires
        unique_keys(entries),
    ensures
        unique_keys(removed(entries, key)),
        lookup(removed(entries, key), key) is None,
        forall|other: K|
            other != key ==> #[trigger] lookup(removed(entries, key), other) == lookup(
                entries,
                other,
            ),
{
    lemma_filtered(entries, |e: (K, V)| e.0 != key);
}

/// What is left once a key is removed was there before, under another key.
pub proof fn lemma_left<K, V>(entries: Seq<(K, V)>, key: K, i: int)
    requires
        0 <= i < removed(entries, key).len(),
    ensures
        entries.contains(removed(entries, key)[i]),
        removed(entries, key)[i].0 != key,
{
    let keep = |e: (K, V)| e.0 != key;
    let left = entries.filter(keep);
    assert(left == removed(entries, key));
    entries.lemma_filter_pred(keep, i);
    assert(left.contains(left[i]));
    entries.lemma_filter_contains_rev(keep, left[i]);
}

// ── Feeds ──

/// Feed subscriptions by identifier.
#[derive(Debug, PartialEq)]
pub struct FeedTable {
    entries: Vec<(FeedId, Feed)>,
}

impl View for FeedTable {
    type V = Seq<(FeedId, FeedView)>;

    closed spec fn view(&self) -> Seq<(FeedId, FeedView)> {
        feed_views(self.entries@)
    }
}

spec fn feed_views(entries: Seq<(FeedId, Feed)>) -> Seq<(FeedId, FeedView)> {
    Seq::new(entries.len(), |i: int| (entries[i].0, entries[i].1@))
}

impl FeedTable {
    #[verifier::type_invariant]
    spec fn keys_are_unique(self) -> bool {
        unique_keys(self@)
    }

    /// No feeds.
    pub fn new() -> (r: FeedTable)
        ensures
            r@ == Seq::<(FeedId, FeedView)>::empty(),
    {
        let r = FeedTable { entries: Vec::new() };
        assert(r@ =~= Seq::<(FeedId, FeedView)>::empty());
        r
    }

    /// The number of feeds.
    pub fn len(&self) -> (r: usize)
        ensures
            r == self@.len(),
            unique_keys(self@),
    {
        proof {
            use_type_invariant(self);
        }
        self.entries.len()
    }

    /// The identifier under which the `i`-th feed stands.
    pub fn key_at(&self, i: usize) -> (r: FeedId)
        requires
            i < self@.len(),
        ensures
            r == self@[i as int].0,
    {
        self.entries[i].0
    }

    /// The `i`-th feed.
    pub fn value_at(&self, i: usize) -> (r: &Feed)
        requires
            i < self@.len(),
        ensures
            r@ == self@[i as int].1,
    {
        &self.entries[i].1
    }

    fn position(&self, id: FeedId) -> (r: Option<usize>)
        ensures
            unique_keys(self@),
            match r {
                Some(i) => key_at(self@, id, i as int) && lookup(self@, id) == Some(
                    self@[i as int].1,
                ) && (choose|k: int| key_at(self@, id, k)) == i,
                None => !has_key(self@, id),
            },
    {
        proof {
            use_type_invariant(self);
        }
        let mut i: usize = 0;
        while i < self.entries.len()
            invariant
                i <= self.entries@.len(),
                unique_keys(self@),
                forall|j: int| 0 <= j < i ==> self@[j].0 != id,
            decreases self.entries@.len() - i,
        {
            if self.entries[i].0 == id {
                assert(key_at(self@, id, i as int));
                proof {
                    lemma_lookup_at(self@, id, i as int);
                }
                return Some(i);
            }
            i = i + 1;
        }
        assert(!has_key(self@, id)) by {
            if has_key(self@, id) {
                let k = choose|k: int| key_at(self@, id, k);
                assert(self@[k].0 != id);
            }
        }
        None
    }

    /// Whether a feed stands under `id`.
    pub fn contains_key(&self, id: &FeedId) -> (r: bool)
        ensures
            r == has_key(self@, *id),
    {
        self.position(*id).is_some()
    }

    /// The feed under `id`.
    pub fn get(&self, id: &FeedId) -> (r: Option<&Feed>)
        ensures
            match r {
                Some(f) => lookup(self@, *id) == Some(f@),
                None => lookup(self@, *id) is None,
            },
    {
        match self.position(*id) {
            Some(i) => Some(&self.entries[i].1),
            None => None,
        }
    }

    /// Puts a feed under `id`, in place of the one that stood there.
    pub fn insert(&mut self, id: FeedId, feed: Feed)
        ensures
            final(self)@ == inserted(old(self)@, id, feed@),
    {
        let at = self.position(id);
        let ghost before = self@;
        let ghost value = feed@;
        let mut entries: Vec<(FeedId, Feed)> = Vec::new();
        std::mem::swap(&mut entries, &mut self.entries);
        match at {
            Some(i) => {
                entries.set(i, (id, feed));
            },
            None => {
                entries.push((id, feed));
            },
        }
        proof {
            lemma_inserted(before, id, value);
            assert(feed_views(entries@) =~= inserted(before, id, value));
        }
        self.entries = entries;
    }

    /// Takes the feed under `id` away.
    pub fn remove(&mut self, id: &FeedId)
        ensures
            final(self)@ == removed(old(self)@, *id),
    {
        let ghost before = self@;
        let n: usize = self.len();
        let mut entries: Vec<(FeedId, Feed)> = Vec::new();
        let mut i: usize = 0;
        proof {
            reveal(Seq::filter);
            assert(removed(before.take(0), *id) =~= seq![]);
            assert(feed_views(entries@) =~= seq![]);
        }
        while i < n
            invariant
                n == self@.len(),
                self@ == before,
                i <= n,
                feed_views(entries@) == removed(before.take(i as int), *id),
            decreases n - i,
        {
            proof {
                reveal(Seq::filter);
                assert(before.take(i + 1).drop_last() =~= before.take(i as int));
            }
            let ghost kept = feed_views(entries@);
            if self.entries[i].0 != *id {
                entries.push((self.entries[i].0, self.entries[i].1.clone()));
                assert(feed_views(entries@) =~= kept.push(before[i as int]));
            }
            i = i + 1;
        }
        proof {
            assert(before.take(n as int) =~= before);
            lemma_removed(before, *id);
        }
        self.entries = entries;
    }
}

impl Clone for FeedTable {
    fn clone(&self) -> (r: Self)
        ensures
            r@ == self@,
    {
        let n: usize = self.len();
        let mut entries: Vec<(FeedId, Feed)> = Vec::new();
        let mut i: usize = 0;
        while i < n
            invariant
                n == self@.len(),
                i <= n,
                entries@.len() == i,
                forall|j: int|
                    0 <= j < i ==> (#[trigger] feed_views(entries@)[j]) == self@[j],
            decreases n - i,
        {
            let ghost kept = entries@;
            entries.push((self.entries[i].0, self.entries[i].1.clone()));
            assert forall|j: int| 0 <= j < i + 1 implies (#[trigger] feed_views(entries@)[j])
                == self@[j] by {
                if j < i {
                    assert(feed_views(kept)[j] == self@[j]);
                }
            }
            i = i + 1;
        }
        assert(feed_views(entries@) =~= self@);
        FeedTable { entries }
    }
}

// ── Tracker ──

/// Episode records by infohash.
#[derive(Debug, PartialEq)]
pub struct Tracker {
    entries: Vec<(String, EpisodeRecord)>,
}

impl View for Tracker {
    type V = Seq<(Seq<char>, EpisodeRecordView)>;

    closed spec fn view(&self) -> Seq<(Seq<char>, EpisodeRecordView)> {
        record_views(self.entries@)
    }
}

/// The records that do not belong to a feed.
pub open spec fn without_feed(
    entries: Seq<(Seq<char>, EpisodeRecordView)>,
    id: FeedId,
) -> Seq<(Seq<char>, EpisodeRecordView)> {
    entries.filter(|e: (Seq<char>, EpisodeRecordView)| e.1.feed_id != id)
}

/// A record that is still downloading though its infohash is not among the known ones.
pub open spec fn is_vanished(
    entry: (Seq<char>, EpisodeRecordView),
    known: Seq<Seq<char>>,
) -> bool {
    entry.1.status == RecordStatus::Downloading && !known.contains(entry.0)
}

/// The records that have not vanished.
pub open spec fn without_vanished(
    entries: Seq<(Seq<char>, EpisodeRecordView)>,
    known: Seq<Seq<char>>,
) -> Seq<(Seq<char>, EpisodeRecordView)> {
    entries.filter(|e: (Seq<char>, EpisodeRecordView)| !is_vanished(e, known))
}

/// Whether a text is in a list.
pub fn is_listed(list: &Vec<String>, item: &str) -> (r: bool)
    ensures
        r == text::views(list@).contains(item@),
{
    let mut i: usize = 0;
    while i < list.len()
        invariant
            i <= list@.len(),
            forall|j: int| 0 <= j < i ==> text::views(list@)[j] != item@,
        decreases list@.len() - i,
    {
        if *list[i].as_str() == *item {
            assert(text::views(list@)[i as int] == item@);
            return true;
        }
        i = i + 1;
    }
    false
}

spec fn record_views(entries: Seq<(String, EpisodeRecord)>) -> Seq<
    (Seq<char>, EpisodeRecordView),
> {
    Seq::new(entries.len(), |i: int| (entries[i].0@, entries[i].1@))
}

impl Tracker {
    #[verifier::type_invariant]
    spec fn keys_are_unique(self) -> bool {
        unique_keys(self@)
    }

    /// No records.
    pub fn new() -> (r: Tracker)
        ensures
            r@ == Seq::<(Seq<char>, EpisodeRecordView)>::empty(),
    {
        let r = Tracker { entries: Vec::new() };
        assert(r@ =~= Seq::<(Seq<char>, EpisodeRecordView)>::empty());
        r
    }

    /// The number of records.
    pub fn len(&self) -> (r: usize)
        ensures
            r == self@.len(),
            unique_keys(self@),
    {
        proof {
            use_type_invariant(self);
        }
        self.entries.len()
    }

    /// The infohash under which the `i`-th record stands.
    pub fn key_at(&self, i: usize) -> (r: &String)
        requires
            i < self@.len(),
        ensures
            r@ == self@[i as int].0,
    {
        &self.entries[i].0
    }

    /// The `i`-th record.
    pub fn value_at(&self, i: usize) -> (r: &EpisodeRecord)
        requires
            i < self@.len(),
        ensures
            r@ == self@[i as int].1,
    {
        &self.entries[i].1
    }

    fn position(&self, infohash: &str) -> (r: Option<usize>)
        ensures
            unique_keys(self@),
            match r {
                Some(i) => key_at(self@, infohash@, i as int) && lookup(self@, infohash@) == Some(
                    self@[i as int].1,
                ) && (choose|k: int| key_at(self@, infohash@, k)) == i,
                None => !has_key(self@, infohash@),
            },
    {
        proof {
            use_type_invariant(self);
        }
        let mut i: usize = 0;
        while i < self.entries.len()
            invariant
                i <= self.entries@.len(),
                unique_keys(self@),
                forall|j: int| 0 <= j < i ==> self@[j].0 != infohash@,
            decreases self.entries@.len() - i,
        {
            if *self.entries[i].0.as_str() == *infohash {
                assert(key_at(self@, infohash@, i as int));
                proof {
                    lemma_lookup_at(self@, infohash@, i as int);
                }
                return Some(i);
            }
            i = i + 1;
        }
        assert(!has_key(self@, infohash@)) by {
            if has_key(self@, infohash@) {
                let k = choose|k: int| key_at(self@, infohash@, k);
                assert(self@[k].0 != infohash@);
            }
        }
        None
    }

    /// Whether a record stands under `infohash`.
    pub fn contains_key(&self, infohash: &str) -> (r: bool)
        ensures
            r == has_key(self@, infohash@),
    {
        self.position(infohash).is_some()
    }

    /// The record under `infohash`.
    pub fn get(&self, infohash: &str) -> (r: Option<&EpisodeRecord>)
        ensures
            match r {
                Some(record) => lookup(self@, infohash@) == Some(record@),
                None => lookup(self@, infohash@) is None,
            },
    {
        match self.position(infohash) {
            Some(i) => Some(&self.entries[i].1),
            None => None,
        }
    }

    /// Puts a record under `infohash`, in place of the one that stood there.
    pub fn insert(&mut self, infohash: String, record: EpisodeRecord)
        ensures
            final(self)@ == inserted(old(self)@, infohash@, record@),
    {
        let at = self.position(infohash.as_str());
        let ghost before = self@;
        let ghost key = infohash@;
        let ghost value = record@;
        let mut entries: Vec<(String, EpisodeRecord)> = Vec::new();
        std::mem::swap(&mut entries, &mut self.entries);
        match at {
            Some(i) => {
                entries.set(i, (infohash, record));
            },
            None => {
                entries.push((infohash, record));
            },
        }
        proof {
            lemma_inserted(before, key, value);
            assert(record_views(entries@) =~= inserted(before, key, value));
        }
        self.entries = entries;
    }

    /// Takes the record under `infohash` away.
    pub fn remove(&mut self, infohash: &str)
        ensures
            final(self)@ == removed(old(self)@, infohash@),
    {
        let ghost before = self@;
        let n: usize = self.len();
        let mut entries: Vec<(String, EpisodeRecord)> = Vec::new();
        let mut i: usize = 0;
        proof {
            reveal(Seq::filter);
            assert(removed(before.take(0), infohash@) =~= seq![]);
            assert(record_views(entries@) =~= seq![]);
        }
        while i < n
            invariant
                n == self@.len(),
                self@ == before,
                i <= n,
                record_views(entries@) == removed(before.take(i as int), infohash@),
            decreases n - i,
        {
            proof {
                reveal(Seq::filter);
                assert(before.take(i + 1).drop_last() =~= before.take(i as int));
            }
            let ghost kept = record_views(entries@);
            if !(*self.entries[i].0.as_str() == *infohash) {
                entries.push((self.entries[i].0.clone(), self.entries[i].1.clone()));
                assert(record_views(entries@) =~= kept.push(before[i as int]));
            }
            i = i + 1;
        }
        proof {
            assert(before.take(n as int) =~= before);
            lemma_removed(before, infohash@);
        }
        self.entries = entries;
    }

    /// Takes every record of a feed away.
    pub fn remove_feed(&mut self, id: FeedId)
        ensures
            final(self)@ == without_feed(old(self)@, id),
    {
        let ghost before = self@;
        let n: usize = self.len();
        let mut entries: Vec<(String, EpisodeRecord)> = Vec::new();
        let mut i: usize = 0;
        proof {
            reveal(Seq::filter);
            assert(without_feed(before.take(0), id) =~= seq![]);
            assert(record_views(entries@) =~= seq![]);
        }
        while i < n
            invariant
                n == self@.len(),
                self@ == before,
                i <= n,
                record_views(entries@) == without_feed(before.take(i as int), id),
            decreases n - i,
        {
            proof {
                reveal(Seq::filter);
                assert(before.take(i + 1).drop_last() =~= before.take(i as int));
            }
            let ghost kept = record_views(entries@);
            if self.entries[i].1.feed_id != id {
                entries.push((self.entries[i].0.clone(), self.entries[i].1.clone()));
                assert(record_views(entries@) =~= kept.push(before[i as int]));
            }
            i = i + 1;
        }
        proof {
            assert(before.take(n as int) =~= before);
            lemma_filtered(before, |e: (Seq<char>, EpisodeRecordView)| e.1.feed_id != id);
        }
        self.entries = entries;
    }

    /// Takes every record away that is still downloading though its infohash is not known.
    pub fn remove_vanished(&mut self, known: &Vec<String>)
        ensures
            final(self)@ == without_vanished(old(self)@, text::views(known@)),
    {
        let ghost before = self@;
        let n: usize = self.len();
        let mut entries: Vec<(String, EpisodeRecord)> = Vec::new();
        let mut i: usize = 0;
        proof {
            reveal(Seq::filter);
            assert(without_vanished(before.take(0), text::views(known@)) =~= seq![]);
            assert(record_views(entries@) =~= seq![]);
        }
        while i < n
            invariant
                n == self@.len(),
                self@ == before,
                i <= n,
                record_views(entries@) == without_vanished(before.take(i as int), text::views(known@)),
            decreases n - i,
        {
            proof {
                reveal(Seq::filter);
                assert(before.take(i + 1).drop_last() =~= before.take(i as int));
            }
            let ghost kept = record_views(entries@);
            if !(self.entries[i].1.status == RecordStatus::Downloading && !is_listed(known, &self.entries[i].0)) {
                entries.push((self.entries[i].0.clone(), self.entries[i].1.clone()));
                assert(record_views(entries@) =~= kept.push(before[i as int]));
            }
            i = i + 1;
        }
        proof {
            assert(before.take(n as int) =~= before);
            lemma_filtered(
                before,
                |e: (Seq<char>, EpisodeRecordView)| !is_vanished(e, text::views(known@)),
            );
        }
        self.entries = entries;
    }
}

impl Clone for Tracker {
    fn clone(&self) -> (r: Self)
        ensures
            r@ == self@,
    {
        let n: usize = self.len();
        let mut entries: Vec<(String, EpisodeRecord)> = Vec::new();
        let mut i: usize = 0;
        while i < n
            invariant
                n == self@.len(),
                i <= n,
                entries@.len() == i,
                forall|j: int|
                    0 <= j < i ==> (#[trigger] record_views(entries@)[j]) == self@[j],
            decreases n - i,
        {
            let ghost kept = entries@;
            entries.push((self.entries[i].0.clone(), self.entries[i].1.clone()));
            assert forall|j: int| 0 <= j < i + 1 implies (#[trigger] record_views(entries@)[j])
                == self@[j] by {
                if j < i {
                    assert(record_views(kept)[j] == self@[j]);
                }
            }
            i = i + 1;
        }
        assert(record_views(entries@) =~= self@);
        Tracker { entries }
    }
}

// ── Submitted URLs ──

/// Torrent URLs already submitted.
#[derive(Debug, PartialEq)]
pub struct UrlSet {
    urls: Vec<String>,
}

impl View for UrlSet {
    type V = Set<Seq<char>>;

    closed spec fn view(&self) -> Set<Seq<char>> {
        text::views(self.urls@).to_set()
    }
}

impl UrlSet {
    #[verifier::type_invariant]
    spec fn no_url_twice(self) -> bool {
        text::views(self.urls@).no_duplicates()
    }

    /// No URLs.
    pub fn new() -> (r: UrlSet)
        ensures
            r@ == Set::<Seq<char>>::empty(),
    {
        let r = UrlSet { urls: Vec::new() };
        assert(r@ =~= Set::<Seq<char>>::empty());
        r
    }

    /// The URLs, each once, in the order in which they came.
    pub fn urls(&self) -> (r: &Vec<String>)
        ensures
            text::views(r@).no_duplicates(),
            text::views(r@).to_set() == self@,
    {
        proof {
            use_type_invariant(self);
        }
        &self.urls
    }

    /// Whether a URL is in the set.
    pub fn contains(&self, url: &str) -> (r: bool)
        ensures
            r == self@.contains(url@),
    {
        let mut i: usize = 0;
        while i < self.urls.len()
            invariant
                i <= self.urls@.len(),
                forall|j: int| 0 <= j < i ==> text::views(self.urls@)[j] != url@,
            decreases self.urls@.len() - i,
        {
            if *self.urls[i].as_str() == *url {
                assert(text::views(self.urls@)[i as int] == url@);
                return true;
            }
            i = i + 1;
        }
        false
    }

    /// Puts a URL into the set.
    pub fn insert(&mut self, url: &str)
        ensures
            final(self)@ == old(self)@.insert(url@),
    {
        proof {
            use_type_invariant(&*self);
        }
        if self.contains(url) {
            assert(self@.insert(url@) =~= self@);
            return;
        }
        let ghost before = self@;
        let ghost listed = text::views(self.urls@);
        let mut urls: Vec<String> = Vec::new();
        std::mem::swap(&mut urls, &mut self.urls);
        urls.push(url.to_owned());
        proof {
            let now = text::views(urls@);
            assert(now =~= listed.push(url@));
            assert(now.to_set() =~= before.insert(url@)) by {
                assert forall|u: Seq<char>| now.to_set().contains(u) <==> before.insert(
                    url@,
                ).contains(u) by {
                    if listed.contains(u) {
                        let k = listed.index_of(u);
                        assert(now[k] == u);
                    }
                    if u == url@ {
                        assert(now[listed.len() as int] == u);
                    }
                    if now.contains(u) {
                        let k = now.index_of(u);
                        if k < listed.len() {
                            assert(listed[k] == u);
                        }
                    }
                }
            }
            assert(now.no_duplicates()) by {
                assert(forall|j: int| 0 <= j < listed.len() ==> listed.contains(#[trigger] listed[j]));
            }
        }
        self.urls = urls;
    }

    /// Takes a URL out of the set.
    pub fn remove(&mut self, url: &str)
        ensures
            final(self)@ == old(self)@.remove(url@),
    {
        proof {
            use_type_invariant(&*self);
        }
        let ghost before = self@;
        let ghost listed = text::views(self.urls@);
        let mut kept: Vec<String> = Vec::new();
        let mut i: usize = 0;
        while i < self.urls.len()
            invariant
                i <= self.urls@.len(),
                listed == text::views(self.urls@),
                listed.no_duplicates(),
                self@ == before,
                text::views(kept@).no_duplicates(),
                forall|j: int|
                    0 <= j < kept@.len() ==> (#[trigger] text::views(kept@)[j]) != url@
                        && listed.take(i as int).contains(text::views(kept@)[j]),
                forall|j: int|
                    0 <= j < i && listed[j] != url@ ==> text::views(kept@).contains(
                        #[trigger] listed[j],
                    ),
            decreases self.urls@.len() - i,
        {
            let ghost was = text::views(kept@);
            if !(*self.urls[i].as_str() == *url) {
                kept.push(self.urls[i].clone());
                assert(text::views(kept@) =~= was.push(listed[i as int]));
                assert forall|j: int| 0 <= j < was.len() implies was[j] != listed[i as int] by {
                    let k = listed.take(i as int).index_of(was[j]);
                    assert(listed[k] == was[j]);
                }
                assert(text::views(kept@)[was.len() as int] == listed[i as int]);
            }
            proof {
                let now = text::views(kept@);
                assert forall|j: int| 0 <= j < now.len() implies (#[trigger] now[j]) != url@
                    && listed.take(i + 1).contains(now[j]) by {
                    if j < was.len() {
                        let k = listed.take(i as int).index_of(was[j]);
                        assert(listed.take(i + 1)[k] == now[j]);
                    } else {
                        assert(listed.take(i + 1)[i as int] == now[j]);
                    }
                }
                assert forall|j: int| 0 <= j < i + 1 && listed[j] != url@ implies now.contains(
                    #[trigger] listed[j],
                ) by {
                    if j < i {
                        let k = was.index_of(listed[j]);
                        assert(now[k] == listed[j]);
                    }
                }
            }
            i = i + 1;
        }
        proof {
            let now = text::views(kept@);
            assert(listed.take(listed.len() as int) =~= listed);
            assert(now.to_set() =~= before.remove(url@)) by {
                assert forall|u: Seq<char>| now.to_set().contains(u) <==> before.remove(
                    url@,
                ).contains(u) by {
                    if now.contains(u) {
                        let k = now.index_of(u);
                        assert(now[k] == u);
                    }
                    if listed.contains(u) {
                        let k = listed.index_of(u);
                        assert(listed[k] == u);
                    }
                }
            }
        }
        self.urls = kept;
    }
}

impl Clone for UrlSet {
    fn clone(&self) -> (r: Self)
        ensures
            r@ == self@,
    {
        proof {
            use_type_invariant(self);
        }
        UrlSet { urls: text::clone_list(&self.urls) }
    }
}

} // verus!
