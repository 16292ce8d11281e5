//! The crates.io index as the tool uses it: a cache of the index entries of
//! crates, with the decision of when to connect and download, and the table
//! of entity tags sent with each request.
//!
//! Connecting to the index and downloading happen outside this module: the
//! caller asks [`CratesIoIndex::krate_step`] what to do, does it, and reports
//! back with [`CratesIoIndex::index_opened`] or
//! [`CratesIoIndex::krate_downloaded`].

use vstd::prelude::*;

use crate::utils::keyed::{
    find_key, keyed_map, keys_distinct, lemma_keyed_absent, lemma_keyed_index, lemma_keyed_push,
    lemma_keyed_remove, lemma_keyed_update,
};

verus! {

/// Where the certificates for the TLS connection to the index come from.
pub enum CertsSource {
    /// Use certs from Mozilla's root certificate store.
    Webpki,
    /// Use certs from the system root certificate store.
    Native,
}

impl Default for CertsSource {
    fn default() -> (res: Self)
        ensures
            res is Webpki,
    {
        CertsSource::Webpki
    }
}

/// One published version of a crate in the index.
pub struct IndexVersion {
    /// The crate's name.
    pub name: String,
    /// The version, as the index writes it.
    pub version: String,
}

/// A version as the contracts see it: the crate's name and the version text.
pub type IndexVersionView = (Seq<char>, Seq<char>);

/// A crate's index entry as the contracts see it: its versions in order.
pub type IndexKrateView = Seq<IndexVersionView>;

impl View for IndexVersion {
    type V = IndexVersionView;

    open spec fn view(&self) -> IndexVersionView {
        (self.name@, self.version@)
    }
}

/// The index entry of one crate: all of its versions, in the order in which
/// they were published.
pub struct IndexKrate {
    pub versions: Vec<IndexVersion>,
}

impl View for IndexKrate {
    type V = IndexKrateView;

    open spec fn view(&self) -> IndexKrateView {
        self.versions@.map_values(|v: IndexVersion| v@)
    }
}

/// The view of an optional index entry.
pub open spec fn entry_view(entry: Option<IndexKrate>) -> Option<IndexKrateView> {
    match entry {
        Some(k) => Some(k@),
        None => None,
    }
}

impl IndexVersion {
    /// A copy of this version.
    pub fn copy(&self) -> (res: IndexVersion)
        ensures
            res@ == self@,
    {
        IndexVersion { name: self.name.clone(), version: self.version.clone() }
    }
}

impl IndexKrate {
    /// A copy of this entry.
    pub fn copy(&self) -> (res: IndexKrate)
        ensures
            res@ == self@,
    {
        let mut versions: Vec<IndexVersion> = Vec::new();
        let mut i: usize = 0;
        while i < self.versions.len()
            invariant
                i <= self.versions@.len(),
                versions@.len() == i,
                forall|j: int| 0 <= j < i ==> #[trigger] versions@[j]@ == self.versions@[j]@,
            decreases self.versions@.len() - i,
        {
            versions.push(self.versions[i].copy());
            i = i + 1;
        }
        let res = IndexKrate { versions };
        assert(res@ =~= self@);
        res
    }

    /// Whether one of the versions is written exactly as `version`.
    pub fn has_version(&self, version: &str) -> (res: bool)
        ensures
            res == exists|i: int| 0 <= i < self@.len() && #[trigger] self@[i].1 == version@,
    {
        let wanted = version.to_owned();
        let mut i: usize = 0;
        while i < self.versions.len()
            invariant
                i <= self.versions@.len(),
                wanted@ == version@,
                forall|j: int| 0 <= j < i ==> #[trigger] self@[j].1 != version@,
            decreases self.versions@.len() - i,
        {
            if self.versions[i].version == wanted {
                assert(self@[i as int].1 == version@);
                return true;
            }
            i = i + 1;
        }
        false
    }
}

/// A copy of an optional index entry.
fn copy_entry(entry: &Option<IndexKrate>) -> (res: Option<IndexKrate>)
    ensures
        entry_view(res) == entry_view(*entry),
{
    match entry {
        Some(k) => Some(k.copy()),
        None => None,
    }
}

/// What the contracts know of the cache: whether the index is connected,
/// and the entry of each crate looked up so far (`None` for a crate that the
/// index does not have).
pub struct IndexCacheView {
    pub connected: bool,
    pub krates: Map<Seq<char>, Option<IndexKrateView>>,
}

/// What to do next to find the index entry of a crate.
pub enum KrateStep {
    /// The lookup is over: this is the entry (`None`: no such crate).
    Answer(Option<IndexKrate>),
    /// Connect to the index first.
    Connect,
    /// Download the crate's entry from the connected index.
    Download,
}

/// The view of a [`KrateStep`].
pub enum KrateStepView {
    Answer(Option<IndexKrateView>),
    Connect,
    Download,
}

impl View for KrateStep {
    type V = KrateStepView;

    open spec fn view(&self) -> KrateStepView {
        match self {
            KrateStep::Answer(entry) => KrateStepView::Answer(entry_view(*entry)),
            KrateStep::Connect => KrateStepView::Connect,
            KrateStep::Download => KrateStepView::Download,
        }
    }
}

/// The next step of a lookup of `name`. A crate of another registry than
/// crates.io is never found; a crate looked up before is answered from the
/// cache; otherwise the index is connected to, once, and the entry is
/// downloaded.
pub open spec fn krate_step_spec(state: IndexCacheView, other_registry: bool, name: Seq<char>) -> KrateStepView {
    if other_registry {
        KrateStepView::Answer(None)
    } else if state.krates.contains_key(name) {
        KrateStepView::Answer(state.krates[name])
    } else if !state.connected {
        KrateStepView::Connect
    } else {
        KrateStepView::Download
    }
}

/// The cache after the index has been connected to.
pub open spec fn opened_spec(state: IndexCacheView) -> IndexCacheView {
    IndexCacheView { connected: true, krates: state.krates }
}

/// The cache after the entry of `name` was downloaded.
pub open spec fn downloaded_spec(state: IndexCacheView, name: Seq<char>, entry: Option<IndexKrateView>) -> IndexCacheView {
    IndexCacheView { connected: state.connected, krates: state.krates.insert(name, entry) }
}

/// The cache after `name` is forgotten; nothing changes for another registry.
pub open spec fn forget_spec(state: IndexCacheView, other_registry: bool, name: Seq<char>) -> IndexCacheView {
    if other_registry {
        state
    } else {
        IndexCacheView { connected: state.connected, krates: state.krates.remove(name) }
    }
}

/// The cache of crates.io index entries, with whether the index has been
/// connected to.
pub struct CratesIoIndex {
    connected: bool,
    cache: Vec<(String, Option<IndexKrate>)>,
}

impl CratesIoIndex {
    /// The cache as pairs of a crate name and its entry.
    pub closed spec fn pairs(&self) -> Seq<(Seq<char>, Option<IndexKrateView>)> {
        self.cache@.map_values(|p: (String, Option<IndexKrate>)| (p.0@, entry_view(p.1)))
    }

    /// No crate name occurs twice in the cache.
    pub closed spec fn wf(&self) -> bool {
        keys_distinct(self.pairs())
    }
}

impl View for CratesIoIndex {
    type V = IndexCacheView;

    closed spec fn view(&self) -> IndexCacheView {
        IndexCacheView { connected: self.connected, krates: keyed_map(self.pairs()) }
    }
}

impl CratesIoIndex {
    /// An empty cache, not connected to the index.
    pub fn new() -> (res: Self)
        ensures
            res.wf(),
            res@ == (IndexCacheView { connected: false, krates: Map::empty() }),
    {
        let res = Self { connected: false, cache: Vec::new() };
        assert(res.pairs() =~= Seq::empty());
        assert(keyed_map(res.pairs()) =~= Map::empty());
        res
    }

    /// What to do next to find the index entry of `name` (of crates.io
    /// where `registry` is `None`).
    pub fn krate_step(&self, registry: Option<&str>, name: &str) -> (res: KrateStep)
        requires
            self.wf(),
        ensures
            res@ == krate_step_spec(self@, registry is Some, name@),
    {
        if registry.is_some() {
            return KrateStep::Answer(None);
        }
        let key = name.to_owned();
        match find_key(&self.cache, &key) {
            Some(i) => {
                proof {
                    assert(self.pairs()[i as int].0 == name@);
                    lemma_keyed_index(self.pairs(), i as int);
                }
                KrateStep::Answer(copy_entry(&self.cache[i].1))
            },
            None => {
                proof {
                    assert forall|j: int| 0 <= j < self.pairs().len() implies self.pairs()[j].0 != name@ by {
                        assert(self.pairs()[j].0 == self.cache@[j].0@);
                    }
                    lemma_keyed_absent(self.pairs(), name@);
                }
                if self.connected {
                    KrateStep::Download
                } else {
                    KrateStep::Connect
                }
            },
        }
    }

    /// Records that the index has been connected to.
    pub fn index_opened(&mut self)
        requires
            old(self).wf(),
        ensures
            final(self).wf(),
            final(self)@ == opened_spec(old(self)@),
    {
        self.connected = true;
        assert(self.pairs() =~= old(self).pairs());
    }

    /// Records the downloaded entry of `name`.
    pub fn krate_downloaded(&mut self, name: &str, entry: Option<IndexKrate>)
        requires
            old(self).wf(),
        ensures
            final(self).wf(),
            final(self)@ == downloaded_spec(old(self)@, name@, entry_view(entry)),
    {
        let key = name.to_owned();
        let ghost old_pairs = self.pairs();
        let ghost entry_v = entry_view(entry);
        match find_key(&self.cache, &key) {
            Some(i) => {
                self.cache.set(i, (key, entry));
                proof {
                    assert(old_pairs[i as int].0 == name@);
                    lemma_keyed_update(old_pairs, i as int, entry_v);
                    assert(self.pairs() =~= old_pairs.update(i as int, (old_pairs[i as int].0, entry_v)));
                }
            },
            None => {
                self.cache.push((key, entry));
                proof {
                    assert forall|j: int| 0 <= j < old_pairs.len() implies old_pairs[j].0 != name@ by {
                        assert(old_pairs[j].0 == old(self).cache@[j].0@);
                    }
                    lemma_keyed_push(old_pairs, name@, entry_v);
                    assert(self.pairs() =~= old_pairs.push((name@, entry_v)));
                }
            },
        }
    }

    /// Forgets the cached entry of `name`, so that the next lookup downloads
    /// it again. A crate of another registry than crates.io is never cached,
    /// so nothing changes then.
    pub fn update_krate(&mut self, registry: Option<&str>, name: &str)
        requires
            old(self).wf(),
        ensures
            final(self).wf(),
            final(self)@ == forget_spec(old(self)@, registry is Some, name@),
    {
        if registry.is_some() {
            return;
        }
        let key = name.to_owned();
        let ghost old_pairs = self.pairs();
        match find_key(&self.cache, &key) {
            Some(i) => {
                let _removed = self.cache.remove(i);
                proof {
                    assert(old_pairs[i as int].0 == name@);
                    lemma_keyed_remove(old_pairs, i as int);
                    assert(self.pairs() =~= old_pairs.remove(i as int));
                }
            },
            None => {
                proof {
                    assert forall|j: int| 0 <= j < old_pairs.len() implies old_pairs[j].0 != name@ by {
                        assert(old_pairs[j].0 == old(self).cache@[j].0@);
                    }
                    lemma_keyed_absent(old_pairs, name@);
                    assert(keyed_map(old_pairs).remove(name@) =~= keyed_map(old_pairs));
                }
            },
        }
    }
}

/// Once the entry of a crate has been downloaded, looking it up again answers
/// that entry from the cache, with no further connection or download.
pub proof fn law_downloaded_entry_is_answered(state: IndexCacheView, name: Seq<char>, entry: Option<IndexKrateView>)
    ensures
        krate_step_spec(downloaded_spec(state, name, entry), false, name) == KrateStepView::Answer(entry),
{
}

/// Downloading the entry of one crate changes nothing in the lookup of
/// another.
pub proof fn law_download_leaves_other_crates(
    state: IndexCacheView,
    name: Seq<char>,
    other: Seq<char>,
    entry: Option<IndexKrateView>,
    other_registry: bool,
)
    requires
        name != other,
    ensures
        krate_step_spec(downloaded_spec(state, name, entry), other_registry, other)
            == krate_step_spec(state, other_registry, other),
{
}

/// A crate that was forgotten is looked up in the index again.
pub proof fn law_forgotten_crate_is_fetched_again(state: IndexCacheView, name: Seq<char>)
    ensures
        krate_step_spec(forget_spec(state, false, name), false, name) is Connect
            || krate_step_spec(forget_spec(state, false, name), false, name) is Download,
{
}

/// The index is connected to at most once: after that, a lookup answers from
/// the cache or downloads.
pub proof fn law_connects_once(state: IndexCacheView, other_registry: bool, name: Seq<char>)
    ensures
        !(krate_step_spec(opened_spec(state), other_registry, name) is Connect),
{
}

/// A crate of another registry is never found, and forgetting it changes
/// nothing.
pub proof fn law_other_registry_is_not_looked_up(state: IndexCacheView, name: Seq<char>)
    ensures
        krate_step_spec(state, true, name) == KrateStepView::Answer(None),
        forget_spec(state, true, name) == state,
{
}

/// One change to the cache, as the caller drives it.
pub enum CacheEvent {
    /// The index was connected to ([`CratesIoIndex::index_opened`]).
    Opened,
    /// The entry of a crate was downloaded ([`CratesIoIndex::krate_downloaded`]).
    Downloaded(Seq<char>, Option<IndexKrateView>),
    /// A crate was forgotten, of another registry where the flag is set
    /// ([`CratesIoIndex::update_krate`]).
    Forgot(bool, Seq<char>),
}

/// The cache after one event.
pub open spec fn apply_event(state: IndexCacheView, event: CacheEvent) -> IndexCacheView {
    match event {
        CacheEvent::Opened => opened_spec(state),
        CacheEvent::Downloaded(name, entry) => downloaded_spec(state, name, entry),
        CacheEvent::Forgot(other_registry, name) => forget_spec(state, other_registry, name),
    }
}

/// The cache after a history of events, in order.
pub open spec fn apply_events(state: IndexCacheView, events: Seq<CacheEvent>) -> IndexCacheView
    decreases events.len(),
{
    if events.len() == 0 {
        state
    } else {
        apply_event(apply_events(state, events.drop_last()), events.last())
    }
}

/// The event leaves the cached entry of `name` alone: it neither forgets
/// that crate on crates.io nor downloads it anew.
pub open spec fn keeps_entry(event: CacheEvent, name: Seq<char>) -> bool {
    match event {
        CacheEvent::Opened => true,
        CacheEvent::Downloaded(n, _) => n != name,
        CacheEvent::Forgot(other_registry, n) => other_registry || n != name,
    }
}

/// An entry in the cache stays there, whatever else happens, until that
/// crate is forgotten or downloaded anew.
proof fn lemma_entry_kept(state: IndexCacheView, name: Seq<char>, entry: Option<IndexKrateView>, events: Seq<CacheEvent>)
    requires
        state.krates.contains_key(name),
        state.krates[name] == entry,
        forall|i: int| 0 <= i < events.len() ==> keeps_entry(#[trigger] events[i], name),
    ensures
        apply_events(state, events).krates.contains_key(name),
        apply_events(state, events).krates[name] == entry,
    decreases events.len(),
{
    if events.len() > 0 {
        let prev = events.drop_last();
        assert forall|i: int| 0 <= i < prev.len() implies keeps_entry(#[trigger] prev[i], name) by {
            assert(prev[i] == events[i]);
        }
        lemma_entry_kept(state, name, entry, prev);
        assert(keeps_entry(events[events.len() - 1], name));
    }
}

/// Once a crate's entry is in the cache, every later lookup of it on
/// crates.io answers that entry, with no connection and no download, until
/// the crate is forgotten or downloaded anew, whatever else happens between.
pub proof fn law_cached_entry_is_answered_until_forgotten(
    state: IndexCacheView,
    name: Seq<char>,
    entry: Option<IndexKrateView>,
    events: Seq<CacheEvent>,
)
    requires
        state.krates.contains_key(name),
        state.krates[name] == entry,
        forall|i: int| 0 <= i < events.len() ==> keeps_entry(#[trigger] events[i], name),
    ensures
        krate_step_spec(apply_events(state, events), false, name) == KrateStepView::Answer(entry),
{
    lemma_entry_kept(state, name, entry, events);
}

/// A downloaded entry is answered by every later lookup of that crate on
/// crates.io until the crate is forgotten or downloaded anew.
pub proof fn law_downloaded_entry_is_answered_until_forgotten(
    state: IndexCacheView,
    name: Seq<char>,
    entry: Option<IndexKrateView>,
    events: Seq<CacheEvent>,
)
    requires
        forall|i: int| 0 <= i < events.len() ==> keeps_entry(#[trigger] events[i], name),
    ensures
        krate_step_spec(apply_events(downloaded_spec(state, name, entry), events), false, name)
            == KrateStepView::Answer(entry),
{
    lemma_entry_kept(downloaded_spec(state, name, entry), name, entry, events);
}

/// The entity tags of the index responses, by crate name.
pub struct EtagTable {
    etags: Vec<(String, String)>,
}

impl EtagTable {
    /// The table as pairs of a crate name and its tag.
    pub closed spec fn pairs(&self) -> Seq<(Seq<char>, Seq<char>)> {
        self.etags@.map_values(|p: (String, String)| (p.0@, p.1@))
    }

    /// No crate name occurs twice in the table.
    pub closed spec fn wf(&self) -> bool {
        keys_distinct(self.pairs())
    }
}

impl View for EtagTable {
    type V = Map<Seq<char>, Seq<char>>;

    closed spec fn view(&self) -> Map<Seq<char>, Seq<char>> {
        keyed_map(self.pairs())
    }
}

/// The tag sent with a request for `name`: the last one recorded for it, or
/// the empty text.
pub open spec fn etag_spec(tags: Map<Seq<char>, Seq<char>>, name: Seq<char>) -> Seq<char> {
    if tags.contains_key(name) {
        tags[name]
    } else {
        Seq::empty()
    }
}

impl EtagTable {
    /// An empty table.
    pub fn new() -> (res: Self)
        ensures
            res.wf(),
            res@ == Map::<Seq<char>, Seq<char>>::empty(),
    {
        let res = Self { etags: Vec::new() };
        assert(res.pairs() =~= Seq::empty());
        assert(keyed_map(res.pairs()) =~= Map::empty());
        res
    }

    /// The tag to send with a request for `name`, empty where none was
    /// recorded.
    pub fn etag(&self, name: &str) -> (res: &str)
        requires
            self.wf(),
        ensures
            res@ == etag_spec(self@, name@),
    {
        let key = name.to_owned();
        match find_key(&self.etags, &key) {
            Some(i) => {
                proof {
                    assert(self.pairs()[i as int].0 == name@);
                    lemma_keyed_index(self.pairs(), i as int);
                }
                self.etags[i].1.as_str()
            },
            None => {
                proof {
                    assert forall|j: int| 0 <= j < self.pairs().len() implies self.pairs()[j].0 != name@ by {
                        assert(self.pairs()[j].0 == self.etags@[j].0@);
                    }
                    lemma_keyed_absent(self.pairs(), name@);
                    reveal_strlit("");
                }
                ""
            },
        }
    }

    /// Records the tag of the latest response for `name`, replacing the one
    /// recorded before.
    pub fn record(&mut self, name: &str, etag: &str)
        requires
            old(self).wf(),
        ensures
            final(self).wf(),
            final(self)@ == old(self)@.insert(name@, etag@),
            // a tag already recorded for `name` is replaced where it stands
            old(self)@.contains_key(name@) ==> final(self).pairs().len() == old(self).pairs().len()
                && forall|j: int| 0 <= j < old(self).pairs().len() ==> #[trigger] final(self).pairs()[j]
                    == if old(self).pairs()[j].0 == name@ { (name@, etag@) } else { old(self).pairs()[j] },
            // a new one is added at the end
            !old(self)@.contains_key(name@) ==> final(self).pairs() == old(self).pairs().push((name@, etag@)),
    {
        let key = name.to_owned();
        let value = etag.to_owned();
        let ghost old_pairs = self.pairs();
        match find_key(&self.etags, &key) {
            Some(i) => {
                self.etags.set(i, (key, value));
                proof {
                    assert(old_pairs[i as int].0 == name@);
                    lemma_keyed_update(old_pairs, i as int, etag@);
                    assert(self.pairs() =~= old_pairs.update(i as int, (old_pairs[i as int].0, etag@)));
                    assert forall|j: int| 0 <= j < old_pairs.len() implies #[trigger] self.pairs()[j]
                        == if old_pairs[j].0 == name@ { (name@, etag@) } else { old_pairs[j] } by {
                        if j != i {
                            assert(old_pairs[j].0 != old_pairs[i as int].0);
                        }
                    }
                }
            },
            None => {
                self.etags.push((key, value));
                proof {
                    assert forall|j: int| 0 <= j < old_pairs.len() implies old_pairs[j].0 != name@ by {
                        assert(old_pairs[j].0 == old(self).etags@[j].0@);
                    }
                    lemma_keyed_push(old_pairs, name@, etag@);
                    assert(self.pairs() =~= old_pairs.push((name@, etag@)));
                }
            },
        }
    }
}

/// The tag sent for a crate is the one last recorded for it, and recording a
/// tag for one crate leaves the tags of the others as they were.
pub proof fn law_etag_read_after_record(
    tags: Map<Seq<char>, Seq<char>>,
    name: Seq<char>,
    other: Seq<char>,
    etag: Seq<char>,
)
    ensures
        etag_spec(tags.insert(name, etag), name) == etag,
        other != name ==> etag_spec(tags.insert(name, etag), other) == etag_spec(tags, other),
{
}

/// A fresh table sends the empty tag for every crate.
pub proof fn law_fresh_table_sends_no_etag(name: Seq<char>)
    ensures
        etag_spec(Map::empty(), name) == Seq::<char>::empty(),
{
}

} // verus!
