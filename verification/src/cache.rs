//! The link cache: for each asset, the links of what has been uploaded.

use vstd::prelude::*;

verus! {

/// Which file of an asset an upload concerns.
#[derive(Clone, Copy, Debug, PartialEq, Eq, Structural)]
pub enum DataType {
    Image,
    Metadata,
    Animation,
}

/// The links recorded for one asset. An empty link means "not uploaded yet".
#[derive(Clone, Debug, PartialEq, Eq)]
pub struct CacheItem {
    pub image_link: String,
    pub metadata_link: String,
    pub animation_link: Option<String>,
}

/// The mathematical value of a [`CacheItem`].
pub struct CacheItemView {
    pub image_link: Seq<char>,
    pub metadata_link: Seq<char>,
    pub animation_link: Option<Seq<char>>,
}

impl CacheItemView {
    /// The item with the link of `kind` replaced by `link`; the other two
    /// links stay.
    pub open spec fn with_link(self, kind: DataType, link: Seq<char>) -> CacheItemView {
        match kind {
            DataType::Image => CacheItemView { image_link: link, ..self },
            DataType::Metadata => CacheItemView { metadata_link: link, ..self },
            DataType::Animation => CacheItemView { animation_link: Some(link), ..self },
        }
    }

    /// The link recorded for `kind`, if one is recorded.
    pub open spec fn link(self, kind: DataType) -> Option<Seq<char>> {
        match kind {
            DataType::Image => Some(self.image_link),
            DataType::Metadata => Some(self.metadata_link),
            DataType::Animation => self.animation_link,
        }
    }

    /// Whether the file of `kind` has been uploaded: a link that is not
    /// empty is recorded for it.
    pub open spec fn linked(self, kind: DataType) -> bool {
        match self.link(kind) {
            Some(link) => link.len() > 0,
            None => false,
        }
    }
}

/// The view of an optional string.
pub open spec fn opt_view(s: Option<String>) -> Option<Seq<char>> {
    match s {
        Some(s) => Some(s@),
        None => None,
    }
}

/// A copy of an optional string.
pub fn copy_opt(s: &Option<String>) -> (r: Option<String>)
    ensures
        opt_view(r) == opt_view(*s),
{
    match s {
        Some(s) => Some(s.clone()),
        None => None,
    }
}

impl View for CacheItem {
    type V = CacheItemView;

    open spec fn view(&self) -> CacheItemView {
        CacheItemView {
            image_link: self.image_link@,
            metadata_link: self.metadata_link@,
            animation_link: opt_view(self.animation_link),
        }
    }
}

impl CacheItem {
    /// An item with no link recorded.
    pub fn new() -> (r: CacheItem)
        ensures
            r@ == (CacheItemView {
                image_link: Seq::empty(),
                metadata_link: Seq::empty(),
                animation_link: None,
            }),
    {
        CacheItem { image_link: String::new(), metadata_link: String::new(), animation_link: None }
    }

    /// A copy with the same links.
    pub fn duplicate(&self) -> (r: CacheItem)
        ensures
            r@ == self@,
    {
        CacheItem {
            image_link: self.image_link.clone(),
            metadata_link: self.metadata_link.clone(),
            animation_link: copy_opt(&self.animation_link),
        }
    }

    /// Whether the file of `kind` has been uploaded: a link that is not
    /// empty is recorded for it.
    pub fn is_linked(&self, kind: DataType) -> (b: bool)
        ensures
            b == self@.linked(kind),
    {
        match kind {
            DataType::Image => self.image_link.as_str().unicode_len() > 0,
            DataType::Metadata => self.metadata_link.as_str().unicode_len() > 0,
            DataType::Animation => match &self.animation_link {
                Some(link) => link.as_str().unicode_len() > 0,
                None => false,
            },
        }
    }

    /// Records `link` as the link of `kind`.
    pub fn set_link(&mut self, kind: DataType, link: String)
        ensures
            final(self)@ == old(self)@.with_link(kind, link@),
    {
        match kind {
            DataType::Image => {
                self.image_link = link;
            },
            DataType::Metadata => {
                self.metadata_link = link;
            },
            DataType::Animation => {
                self.animation_link = Some(link);
            },
        }
    }
}

/// One entry of the cache: an asset identifier and the links recorded for it.
#[derive(Clone, Debug, PartialEq, Eq)]
pub struct CacheEntry {
    pub asset_id: String,
    pub item: CacheItem,
}

/// The ordered mapping from asset identifier to [`CacheItem`]. Entries keep
/// the order in which their identifiers were first inserted, and no
/// identifier occurs twice.
#[derive(Clone, Debug, PartialEq, Eq)]
pub struct Cache {
    entries: Vec<CacheEntry>,
}

impl Cache {
    /// The identifiers, in insertion order.
    pub closed spec fn ids(&self) -> Seq<Seq<char>> {
        Seq::new(self.entries@.len(), |i: int| self.entries@[i].asset_id@)
    }

    /// The items, in the order of [`Cache::ids`].
    pub closed spec fn items(&self) -> Seq<CacheItemView> {
        Seq::new(self.entries@.len(), |i: int| self.entries@[i].item@)
    }

    /// The cache's invariant: the two sequences go together and no
    /// identifier occurs twice.
    pub open spec fn wf(&self) -> bool {
        &&& self.ids().len() == self.items().len()
        &&& self.ids().no_duplicates()
    }

    /// The map that the entries represent.
    pub open spec fn map(&self) -> Map<Seq<char>, CacheItemView> {
        Map::new(
            |id: Seq<char>| self.ids().contains(id),
            |id: Seq<char>| self.items()[self.ids().index_of(id)],
        )
    }

    /// An empty cache.
    pub fn new() -> (r: Cache)
        ensures
            r.wf(),
            r.ids() == Seq::<Seq<char>>::empty(),
            r.items() == Seq::<CacheItemView>::empty(),
    {
        Cache { entries: Vec::new() }
    }

    /// The number of entries.
    pub fn len(&self) -> (n: usize)
        ensures
            n == self.ids().len(),
            n == self.items().len(),
    {
        self.entries.len()
    }

    /// The position of `id` among the entries.
    pub fn position(&self, id: &str) -> (r: Option<usize>)
        ensures
            match r {
                Some(i) => i < self.ids().len() && self.ids()[i as int] == id@
                    && forall|j: int| 0 <= j < i ==> self.ids()[j] != id@,
                None => !self.ids().contains(id@),
            },
    {
        let key = id.to_owned();
        let mut i: usize = 0;
        while i < self.entries.len()
            invariant
                i <= self.entries@.len(),
                key@ == id@,
                forall|j: int| 0 <= j < i ==> self.ids()[j] != id@,
            decreases self.entries@.len() - i,
        {
            if self.entries[i].asset_id == key {
                return Some(i);
            }
            i += 1;
        }
        None
    }

    /// Whether `id` has an entry.
    pub fn contains(&self, id: &str) -> (b: bool)
        ensures
            b == self.map().dom().contains(id@),
    {
        self.position(id).is_some()
    }

    /// The entry at position `i`, if the cache has that many entries.
    pub fn entry(&self, i: usize) -> (r: Option<&CacheEntry>)
        ensures
            match r {
                Some(e) => i < self.ids().len() && e.asset_id@ == self.ids()[i as int] && e.item@
                    == self.items()[i as int],
                None => i >= self.ids().len(),
            },
    {
        if i < self.entries.len() {
            Some(&self.entries[i])
        } else {
            None
        }
    }

    /// The item recorded for `id`.
    pub fn get(&self, id: &str) -> (r: Option<&CacheItem>)
        requires
            self.wf(),
        ensures
            match r {
                Some(item) => self.map().dom().contains(id@) && item@ == self.map()[id@],
                None => !self.map().dom().contains(id@),
            },
    {
        match self.position(id) {
            Some(i) => {
                Some(&self.entries[i].item)
            },
            None => None,
        }
    }

    /// In a well-formed cache the identifier at position `i` is found at `i`.
    pub proof fn lemma_index(&self, i: int)
        requires
            self.wf(),
            0 <= i < self.ids().len(),
        ensures
            self.ids().contains(self.ids()[i]),
            self.ids().index_of(self.ids()[i]) == i,
            self.map().dom().contains(self.ids()[i]),
            self.map()[self.ids()[i]] == self.items()[i],
    {
    }

    /// Inserts `item` under `id`: a new identifier is appended, a known one
    /// keeps its place and has its item replaced.
    pub fn insert(&mut self, id: String, item: CacheItem)
        requires
            old(self).wf(),
        ensures
            final(self).wf(),
            final(self).map() == old(self).map().insert(id@, item@),
            old(self).ids().contains(id@) ==> final(self).ids() == old(self).ids(),
            old(self).ids().contains(id@) ==> final(self).items() == old(self).items().update(
                old(self).ids().index_of(id@),
                item@,
            ),
            !old(self).ids().contains(id@) ==> final(self).ids() == old(self).ids().push(id@),
            !old(self).ids().contains(id@) ==> final(self).items() == old(self).items().push(item@),
    {
        let ghost before = *self;
        match self.position(id.as_str()) {
            Some(i) => {
                self.entries[i].item = item;
                proof {
                    assert(self.ids() =~= before.ids());
                    assert forall|k: Seq<char>| self.map().dom().contains(k) implies #[trigger] self.map()[k]
                        == before.map().insert(id@, item@)[k] by {}
                }
            },
            None => {
                self.entries.push(CacheEntry { asset_id: id, item });
                proof {
                    assert(self.ids() =~= before.ids().push(id@));
                    assert forall|a: int, b: int|
                        0 <= a < self.ids().len() && 0 <= b < self.ids().len() && a != b implies self.ids()[a]
                        != self.ids()[b] by {}
                    let n = before.ids().len() as int;
                    assert(self.ids()[n] == id@);
                    assert forall|k: Seq<char>| self.map().dom().contains(k) == before.map().insert(
                        id@,
                        item@,
                    ).dom().contains(k) by {
                        if before.ids().contains(k) {
                            let j = before.ids().index_of(k);
                            assert(self.ids()[j] == k);
                        }
                    }
                    assert forall|k: Seq<char>| self.map().dom().contains(k) implies #[trigger] self.map()[k]
                        == before.map().insert(id@, item@)[k] by {}
                }
            },
        }
    }

    /// Records `link` as the link of `kind` for the asset `id`. Returns
    /// whether the asset has an entry; without one nothing changes.
    pub fn set_link(&mut self, id: &str, kind: DataType, link: String) -> (found: bool)
        requires
            old(self).wf(),
        ensures
            final(self).wf(),
            final(self).ids() == old(self).ids(),
            found == old(self).map().dom().contains(id@),
            found ==> final(self).map() == old(self).map().insert(
                id@,
                old(self).map()[id@].with_link(kind, link@),
            ),
            !found ==> final(self).map() == old(self).map(),
            !found ==> final(self).items() == old(self).items(),
    {
        let ghost before = *self;
        match self.position(id) {
            Some(i) => {
                self.entries[i].item.set_link(kind, link);
                proof {
                    let updated = before.items()[i as int].with_link(kind, link@);
                    assert(self.ids() =~= before.ids());
                    assert forall|k: Seq<char>| self.map().dom().contains(k) implies #[trigger] self.map()[k]
                        == before.map().insert(id@, updated)[k] by {}
                }
                true
            },
            None => false,
        }
    }
}

/// The identifiers of a list of entries, in order.
pub open spec fn entry_ids(entries: Seq<CacheEntry>) -> Seq<Seq<char>> {
    Seq::new(entries.len(), |i: int| entries[i].asset_id@)
}

/// The items of a list of entries, in order.
pub open spec fn entry_items(entries: Seq<CacheEntry>) -> Seq<CacheItemView> {
    Seq::new(entries.len(), |i: int| entries[i].item@)
}

/// The map that comes of inserting the items under their identifiers, in
/// order: a later item replaces an earlier one with the same identifier.
pub open spec fn map_of(ids: Seq<Seq<char>>, items: Seq<CacheItemView>) -> Map<
    Seq<char>,
    CacheItemView,
>
    decreases ids.len(),
{
    if ids.len() == 0 || items.len() != ids.len() {
        Map::empty()
    } else {
        map_of(ids.drop_last(), items.drop_last()).insert(ids.last(), items.last())
    }
}

impl Cache {
    /// The entries of the cache, in order: what a snapshot of the cache
    /// holds.
    pub fn snapshot(&self) -> (entries: Vec<CacheEntry>)
        ensures
            entry_ids(entries@) == self.ids(),
            entry_items(entries@) == self.items(),
    {
        let mut entries: Vec<CacheEntry> = Vec::new();
        let mut i: usize = 0;
        while i < self.entries.len()
            invariant
                i <= self.entries@.len(),
                entries@.len() == i,
                forall|j: int|
                    0 <= j < i ==> (#[trigger] entries@[j]).asset_id@ == self.entries@[j].asset_id@
                        && entries@[j].item@ == self.entries@[j].item@,
            decreases self.entries@.len() - i,
        {
            entries.push(
                CacheEntry {
                    asset_id: self.entries[i].asset_id.clone(),
                    item: self.entries[i].item.duplicate(),
                },
            );
            i += 1;
        }
        entries
    }

    /// The cache that holds `entries`: each is inserted in turn. Where no
    /// identifier occurs twice, the cache holds exactly the entries, in
    /// their order.
    pub fn from_entries(entries: &Vec<CacheEntry>) -> (cache: Cache)
        ensures
            cache.wf(),
            cache.map() == map_of(entry_ids(entries@), entry_items(entries@)),
            entry_ids(entries@).no_duplicates() ==> cache.ids() == entry_ids(entries@)
                && cache.items() == entry_items(entries@),
    {
        let mut cache = Cache::new();
        let ghost ids = entry_ids(entries@);
        let ghost items = entry_items(entries@);
        let mut i: usize = 0;
        while i < entries.len()
            invariant
                i <= entries@.len(),
                ids == entry_ids(entries@),
                items == entry_items(entries@),
                cache.wf(),
                cache.map() == map_of(ids.take(i as int), items.take(i as int)),
                ids.no_duplicates() ==> cache.ids() == ids.take(i as int) && cache.items()
                    == items.take(i as int),
            decreases entries@.len() - i,
        {
            let ghost before = cache;
            cache.insert(entries[i].asset_id.clone(), entries[i].item.duplicate());
            proof {
                assert(ids.take(i + 1).drop_last() =~= ids.take(i as int));
                assert(items.take(i + 1).drop_last() =~= items.take(i as int));
                if ids.no_duplicates() {
                    if before.ids().contains(ids[i as int]) {
                        let j = before.ids().index_of(ids[i as int]);
                    }
                }
            }
            i += 1;
        }
        proof {
            assert(ids.take(i as int) =~= ids);
            assert(items.take(i as int) =~= items);
        }
        cache
    }

    /// A well-formed cache is the map of its own entries: writing the
    /// entries out and inserting them again gives the same map.
    pub proof fn lemma_map_of_entries(&self)
        requires
            self.wf(),
        ensures
            map_of(self.ids(), self.items()) == self.map(),
    {
        lemma_map_of_distinct(self.ids(), self.items());
    }
}

/// The map of entries with distinct identifiers holds each identifier with
/// its own item.
pub proof fn lemma_map_of_distinct(ids: Seq<Seq<char>>, items: Seq<CacheItemView>)
    requires
        ids.len() == items.len(),
        ids.no_duplicates(),
    ensures
        forall|k: Seq<char>| map_of(ids, items).dom().contains(k) <==> ids.contains(k),
        forall|i: int| 0 <= i < ids.len() ==> map_of(ids, items)[#[trigger] ids[i]] == items[i],
    decreases ids.len(),
{
    if ids.len() > 0 {
        let n = ids.len() - 1;
        let ids0 = ids.drop_last();
        let items0 = items.drop_last();
        assert forall|a: int, b: int| 0 <= a < ids0.len() && 0 <= b < ids0.len() && a != b implies ids0[a]
            != ids0[b] by {}
        lemma_map_of_distinct(ids0, items0);
        assert forall|k: Seq<char>| map_of(ids, items).dom().contains(k) <==> ids.contains(k) by {
            if ids.contains(k) {
                let j = ids.index_of(k);
                if j < n {
                    assert(ids0[j] == k);
                }
            }
            if ids0.contains(k) {
                assert(ids[ids0.index_of(k)] == k);
            }
        }
        assert forall|i: int| 0 <= i < ids.len() implies map_of(ids, items)[#[trigger] ids[i]]
            == items[i] by {
            if i < n {
                assert(ids0[i] == ids[i]);
            }
        }
    }
}

} // verus!
