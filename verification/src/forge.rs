//! A cache of what the registry says of each module, with a time to live.
//!
//! The cache does no fetching of its own. A caller asks `lookup` what to do
//! for a name; where the answer is to fetch, the caller asks the registry
//! and hands the reply to `store_fetched`. Time is a parameter throughout:
//! seconds since the epoch, read by the caller.

use vstd::prelude::*;
use crate::names::{canonical, canonical_name};
use crate::precedence::VersionView;
use crate::version::{semver_parsed, text_of, InvalidVersion, Version};

verus! {

/// How long an entry stays fresh, in seconds.
pub const TTL: u64 = 3600;

/// What the registry said of one module, and when.
#[derive(Debug, PartialEq, Eq)]
pub struct CacheEntry {
    /// The latest version, as text.
    pub version: String,
    pub is_deprecated: bool,
    /// When the registry was asked, in seconds since the epoch.
    pub time_fetched: u64,
}

pub struct CacheEntryView {
    pub version: Seq<char>,
    pub is_deprecated: bool,
    pub time_fetched: u64,
}

impl View for CacheEntry {
    type V = CacheEntryView;

    open spec fn view(&self) -> CacheEntryView {
        CacheEntryView {
            version: self.version@,
            is_deprecated: self.is_deprecated,
            time_fetched: self.time_fetched,
        }
    }
}

impl Clone for CacheEntry {
    fn clone(&self) -> (out: Self)
        ensures
            out == *self,
    {
        CacheEntry {
            version: self.version.clone(),
            is_deprecated: self.is_deprecated,
            time_fetched: self.time_fetched,
        }
    }
}

/// Whether an entry is fresh at `now`: fetched less than `TTL` seconds ago.
pub open spec fn is_fresh(entry: CacheEntryView, now: u64) -> bool {
    now - entry.time_fetched < TTL
}

/// Whether `cache` can answer for `name` at `now` without asking the
/// registry.
pub open spec fn serves(cache: Map<Seq<char>, CacheEntryView>, name: Seq<char>, now: u64) -> bool {
    cache.contains_key(name) && is_fresh(cache[name], now)
}

/// The map that a list of named entries stands for. Where a name occurs
/// twice, the later entry counts.
pub open spec fn entries_map(pairs: Seq<(Seq<char>, CacheEntryView)>) -> Map<
    Seq<char>,
    CacheEntryView,
>
    decreases pairs.len(),
{
    if pairs.len() == 0 {
        Map::empty()
    } else {
        entries_map(pairs.drop_last()).insert(pairs.last().0, pairs.last().1)
    }
}

/// The views of a list of named entries.
pub open spec fn pair_views(pairs: Seq<(String, CacheEntry)>) -> Seq<(Seq<char>, CacheEntryView)> {
    Seq::new(pairs.len(), |i: int| (pairs[i].0@, pairs[i].1@))
}

/// Whether no name occurs twice in a list of named entries.
pub open spec fn names_distinct(pairs: Seq<(Seq<char>, CacheEntryView)>) -> bool {
    forall|i: int, j: int| 0 <= i < j < pairs.len() ==> pairs[i].0 != pairs[j].0
}

/// What a lookup tells its caller to do.
#[derive(Debug, PartialEq, Eq)]
pub enum Lookup {
    /// The entry is there and fresh: read it.
    Fresh,
    /// Ask the registry for the module of this canonical name, then store
    /// the reply.
    Fetch(String),
}

/// What the registry replied for one module.
#[derive(Debug, PartialEq, Eq)]
pub struct ForgeReply {
    /// The version of the current release, as the registry wrote it.
    pub version: String,
    /// Whether the reply carried a time of deprecation.
    pub deprecated: bool,
}

/// Why the cache has no answer.
#[derive(Debug, PartialEq, Eq)]
pub enum CacheError {
    /// There is no fresh entry for the name: the registry has to be asked.
    NotFresh,
    /// The registry could not be asked or made no sense; the text says why.
    Transport(String),
    /// The version text is no semantic version.
    InvalidVersion(String),
}

pub enum CacheErrorView {
    NotFresh,
    Transport(Seq<char>),
    InvalidVersion(Seq<char>),
}

impl View for CacheError {
    type V = CacheErrorView;

    open spec fn view(&self) -> CacheErrorView {
        match self {
            CacheError::NotFresh => CacheErrorView::NotFresh,
            CacheError::Transport(s) => CacheErrorView::Transport(s@),
            CacheError::InvalidVersion(s) => CacheErrorView::InvalidVersion(s@),
        }
    }
}

/// What the cache answers for the version of `name` at `now`.
pub open spec fn version_answer(
    cache: Map<Seq<char>, CacheEntryView>,
    name: Seq<char>,
    now: u64,
) -> Result<VersionView, CacheErrorView> {
    if !serves(cache, name, now) {
        Err(CacheErrorView::NotFresh)
    } else {
        match semver_parsed(cache[name].version) {
            Some(v) => Ok(v),
            None => Err(CacheErrorView::InvalidVersion(cache[name].version)),
        }
    }
}

/// What the cache answers for the deprecation of `name` at `now`.
pub open spec fn deprecation_answer(
    cache: Map<Seq<char>, CacheEntryView>,
    name: Seq<char>,
    now: u64,
) -> Result<bool, CacheErrorView> {
    if serves(cache, name, now) {
        Ok(cache[name].is_deprecated)
    } else {
        Err(CacheErrorView::NotFresh)
    }
}

/// The cache after a reply for `name` arrived at `now` with this version
/// text, and what the caller is told, where `valid` says whether the text
/// was read as a semantic version. A text that was not leaves the cache as
/// it was.
pub open spec fn after_parsed(
    cache: Map<Seq<char>, CacheEntryView>,
    name: Seq<char>,
    version: Seq<char>,
    deprecated: bool,
    valid: bool,
    now: u64,
) -> (Map<Seq<char>, CacheEntryView>, Result<(), CacheErrorView>) {
    if valid {
        (
            cache.insert(
                name,
                CacheEntryView { version, is_deprecated: deprecated, time_fetched: now },
            ),
            Ok(()),
        )
    } else {
        (cache, Err(CacheErrorView::InvalidVersion(version)))
    }
}

/// The cache after a reply for `name` arrived at `now`, and what the caller
/// is told. A failed fetch and a version that is no semantic version leave
/// the cache as it was.
pub open spec fn after_reply(
    cache: Map<Seq<char>, CacheEntryView>,
    name: Seq<char>,
    reply: Result<(Seq<char>, bool), Seq<char>>,
    now: u64,
) -> (Map<Seq<char>, CacheEntryView>, Result<(), CacheErrorView>) {
    match reply {
        Err(why) => (cache, Err(CacheErrorView::Transport(why))),
        Ok((version, deprecated)) => after_parsed(
            cache,
            name,
            version,
            deprecated,
            semver_parsed(version) is Some,
            now,
        ),
    }
}

/// The view of a reply or of the reason why there is none.
pub open spec fn reply_view(reply: Result<ForgeReply, String>) -> Result<
    (Seq<char>, bool),
    Seq<char>,
> {
    match reply {
        Ok(r) => Ok((r.version@, r.deprecated)),
        Err(why) => Err(why@),
    }
}

/// The registry's answers, kept by module name.
pub struct ForgeApi {
    cache: Vec<(String, CacheEntry)>,
}

impl ForgeApi {
    #[verifier::type_invariant]
    spec fn distinct(self) -> bool {
        names_distinct(pair_views(self.cache@))
    }

    /// The entries by name.
    pub closed spec fn view(&self) -> Map<Seq<char>, CacheEntryView> {
        entries_map(pair_views(self.cache@))
    }

    fn position(&self, name: &str) -> (r: Option<usize>)
        ensures
            match r {
                Some(i) => i < self.cache.len() && self.cache[i as int].0@ == name@,
                None => forall|j: int| 0 <= j < self.cache.len() ==> self.cache[j].0@ != name@,
            },
    {
        let wanted = name.to_owned();
        let mut i: usize = 0;
        while i < self.cache.len()
            invariant
                i <= self.cache.len(),
                wanted@ == name@,
                forall|j: int| 0 <= j < i ==> self.cache[j].0@ != name@,
            decreases self.cache.len() - i,
        {
            if self.cache[i].0 == wanted {
                return Some(i);
            }
            i += 1;
        }
        None
    }

    fn put(&mut self, name: String, entry: CacheEntry)
        ensures
            final(self)@ == old(self)@.insert(name@, entry@),
    {
        proof {
            use_type_invariant(&*self);
        }
        let ghost before = pair_views(self.cache@);
        let found = self.position(name.as_str());
        let mut cache: Vec<(String, CacheEntry)> = Vec::new();
        std::mem::swap(&mut self.cache, &mut cache);
        match found {
            Some(i) => {
                proof {
                    lemma_update(before, i as int, entry@);
                }
                cache.set(i, (name, entry));
                assert(pair_views(cache@) =~= before.update(i as int, (before[i as int].0, entry@)));
            },
            None => {
                cache.push((name, entry));
                assert(pair_views(cache@) =~= before.push((name@, entry@)));
                assert(pair_views(cache@).drop_last() =~= before);
            },
        }
        self.cache = cache;
    }

    fn get(&self, name: &str) -> (r: Option<&CacheEntry>)
        ensures
            match r {
                Some(e) => self@.contains_key(name@) && self@[name@] == e@,
                None => !self@.contains_key(name@),
            },
    {
        proof {
            use_type_invariant(self);
        }
        match self.position(name) {
            Some(i) => {
                proof {
                    lemma_present(pair_views(self.cache@), i as int);
                }
                Some(&self.cache[i].1)
            },
            None => {
                proof {
                    lemma_absent(pair_views(self.cache@), name@);
                }
                None
            },
        }
    }

    /// A cache that holds the entries of a snapshot. Where the snapshot
    /// names a module twice, the later entry counts.
    pub fn new(snapshot: Vec<(String, CacheEntry)>) -> (out: ForgeApi)
        ensures
            out@ == entries_map(pair_views(snapshot@)),
    {
        let mut out = ForgeApi { cache: Vec::new() };
        let mut i: usize = 0;
        assert(pair_views(snapshot@).subrange(0, 0) =~= Seq::empty());
        while i < snapshot.len()
            invariant
                i <= snapshot.len(),
                out@ == entries_map(pair_views(snapshot@).subrange(0, i as int)),
            decreases snapshot.len() - i,
        {
            let name = snapshot[i].0.clone();
            let entry = snapshot[i].1.clone();
            out.put(name, entry);
            i += 1;
            assert(pair_views(snapshot@).subrange(0, i as int).drop_last() =~= pair_views(
                snapshot@,
            ).subrange(0, i - 1));
        }
        assert(pair_views(snapshot@).subrange(0, i as int) =~= pair_views(snapshot@));
        out
    }

    /// The entries of the cache as a snapshot: each name once.
    pub fn store_cache(&self) -> (out: Vec<(String, CacheEntry)>)
        ensures
            entries_map(pair_views(out@)) == self@,
            names_distinct(pair_views(out@)),
            out@.len() == self@.len(),
    {
        proof {
            use_type_invariant(self);
            lemma_size(pair_views(self.cache@));
        }
        let mut out: Vec<(String, CacheEntry)> = Vec::new();
        let mut i: usize = 0;
        while i < self.cache.len()
            invariant
                i <= self.cache.len(),
                pair_views(out@) == pair_views(self.cache@).subrange(0, i as int),
            decreases self.cache.len() - i,
        {
            let name = self.cache[i].0.clone();
            let entry = self.cache[i].1.clone();
            let ghost before = pair_views(out@);
            out.push((name, entry));
            assert(pair_views(out@) =~= before.push(pair_views(self.cache@)[i as int]));
            i += 1;
            assert(pair_views(out@) =~= pair_views(self.cache@).subrange(0, i as int));
        }
        assert(pair_views(out@) =~= pair_views(self.cache@));
        out
    }

    /// What to do for `name` at `now`: read the entry where it is there and
    /// fresh, else ask the registry for the module's canonical name.
    pub fn lookup(&self, name: &str, now: u64) -> (r: Lookup)
        ensures
            match r {
                Lookup::Fresh => serves(self@, name@, now),
                Lookup::Fetch(request) => !serves(self@, name@, now) && request@ == canonical(
                    name@,
                ),
            },
    {
        match self.get(name) {
            Some(entry) if fresh(entry, now) => Lookup::Fresh,
            _ => Lookup::Fetch(canonical_name(name)),
        }
    }

    /// Takes a reply for `name`, which arrived at `now`, together with what
    /// its version text was read as.
    ///
    /// Where the text was read as a version, the reply becomes the entry of
    /// `name`, fetched at `now`, and an entry that was there is
    /// overwritten. Where it was not, the cache stays as it was and the
    /// text is reported.
    pub fn store_parsed(
        &mut self,
        name: &str,
        found: ForgeReply,
        parsed: Result<Version, InvalidVersion>,
        now: u64,
    ) -> (r: Result<(), CacheError>)
        ensures
            final(self)@ == after_parsed(
                old(self)@,
                name@,
                found.version@,
                found.deprecated,
                parsed is Ok,
                now,
            ).0,
            match r {
                Ok(()) => parsed is Ok,
                Err(e) => parsed is Err && e@ == CacheErrorView::InvalidVersion(found.version@),
            },
    {
        match parsed {
            Ok(_) => {
                self.put(
                    name.to_owned(),
                    CacheEntry {
                        version: found.version,
                        is_deprecated: found.deprecated,
                        time_fetched: now,
                    },
                );
                Ok(())
            },
            Err(_) => Err(CacheError::InvalidVersion(found.version)),
        }
    }

    /// Takes the registry's reply for `name`, which arrived at `now`.
    ///
    /// A reply whose version is a semantic version becomes the entry of
    /// `name`, fetched at `now`; an entry that was there is overwritten.
    /// Anything else leaves the cache as it was and is reported.
    pub fn store_fetched(&mut self, name: &str, reply: Result<ForgeReply, String>, now: u64) -> (r:
        Result<(), CacheError>)
        ensures
            final(self)@ == after_reply(old(self)@, name@, reply_view(reply), now).0,
            match r {
                Ok(()) => after_reply(old(self)@, name@, reply_view(reply), now).1 is Ok,
                Err(e) => after_reply(old(self)@, name@, reply_view(reply), now).1 == Err::<
                    (),
                    CacheErrorView,
                >(e@),
            },
    {
        match reply {
            Err(why) => Err(CacheError::Transport(why)),
            Ok(found) => {
                let parsed = Version::parse(found.version.as_str());
                self.store_parsed(name, found, parsed, now)
            },
        }
    }

    /// The latest version of `name`, from an entry that is fresh at `now`.
    /// The entry's text is the canonical text of the version.
    pub fn get_version(&self, name: &str, now: u64) -> (r: Result<Version, CacheError>)
        ensures
            match r {
                Ok(v) => version_answer(self@, name@, now) == Ok::<VersionView, CacheErrorView>(v@)
                    && text_of(v@) == self@[name@].version,
                Err(e) => version_answer(self@, name@, now) == Err::<VersionView, CacheErrorView>(
                    e@,
                ),
            },
    {
        match self.get(name) {
            Some(entry) if fresh(entry, now) => match Version::parse(entry.version.as_str()) {
                Ok(v) => Ok(v),
                Err(_) => Err(CacheError::InvalidVersion(entry.version.clone())),
            },
            _ => Err(CacheError::NotFresh),
        }
    }

    /// Whether `name` is deprecated, from an entry that is fresh at `now`.
    pub fn is_deprecated(&self, name: &str, now: u64) -> (r: Result<bool, CacheError>)
        ensures
            match r {
                Ok(d) => deprecation_answer(self@, name@, now) == Ok::<bool, CacheErrorView>(d),
                Err(e) => deprecation_answer(self@, name@, now) == Err::<bool, CacheErrorView>(e@),
            },
    {
        match self.get(name) {
            Some(entry) if fresh(entry, now) => Ok(entry.is_deprecated),
            _ => Err(CacheError::NotFresh),
        }
    }
}

fn fresh(entry: &CacheEntry, now: u64) -> (r: bool)
    ensures
        r == is_fresh(entry@, now),
{
    now < entry.time_fetched || now - entry.time_fetched < TTL
}

/// Where no name occurs twice, the map has as many entries as the list.
proof fn lemma_size(pairs: Seq<(Seq<char>, CacheEntryView)>)
    requires
        names_distinct(pairs),
    ensures
        entries_map(pairs).dom().finite(),
        entries_map(pairs).len() == pairs.len(),
    decreases pairs.len(),
{
    if pairs.len() > 0 {
        lemma_size(pairs.drop_last());
        lemma_absent(pairs.drop_last(), pairs.last().0);
    }
}

/// A name that heads no pair of a list is no key of the list's map.
proof fn lemma_absent(pairs: Seq<(Seq<char>, CacheEntryView)>, name: Seq<char>)
    requires
        forall|j: int| 0 <= j < pairs.len() ==> pairs[j].0 != name,
    ensures
        !entries_map(pairs).contains_key(name),
    decreases pairs.len(),
{
    if pairs.len() > 0 {
        lemma_absent(pairs.drop_last(), name);
    }
}

/// Where no name occurs twice, each pair of the list is in the list's map.
proof fn lemma_present(pairs: Seq<(Seq<char>, CacheEntryView)>, i: int)
    requires
        names_distinct(pairs),
        0 <= i < pairs.len(),
    ensures
        entries_map(pairs).contains_key(pairs[i].0),
        entries_map(pairs)[pairs[i].0] == pairs[i].1,
    decreases pairs.len(),
{
    if i < pairs.len() - 1 {
        lemma_present(pairs.drop_last(), i);
    }
}

/// Replacing the entry of one pair replaces it in the map.
proof fn lemma_update(pairs: Seq<(Seq<char>, CacheEntryView)>, i: int, entry: CacheEntryView)
    requires
        names_distinct(pairs),
        0 <= i < pairs.len(),
    ensures
        entries_map(pairs.update(i, (pairs[i].0, entry))) == entries_map(pairs).insert(
            pairs[i].0,
            entry,
        ),
    decreases pairs.len(),
{
    let changed = pairs.update(i, (pairs[i].0, entry));
    if i < pairs.len() - 1 {
        lemma_update(pairs.drop_last(), i, entry);
        assert(changed.drop_last() =~= pairs.drop_last().update(i, (pairs[i].0, entry)));
        assert(entries_map(changed) =~= entries_map(pairs).insert(pairs[i].0, entry));
    } else {
        assert(changed.drop_last() =~= pairs.drop_last());
        assert(entries_map(changed) =~= entries_map(pairs).insert(pairs[i].0, entry));
    }
}

/// An entry is fresh for the `TTL` seconds after it was fetched, and at no
/// later time.
pub proof fn lemma_fresh_until_ttl(entry: CacheEntryView, now: u64)
    requires
        entry.time_fetched <= now,
    ensures
        is_fresh(entry, now) <==> now < entry.time_fetched + TTL,
{
}

/// Once a reply with a valid version is stored at `now`, the cache answers
/// for the name with that reply at every time less than `TTL` seconds
/// later, so no second fetch is asked for, and the entry's time is `now`.
pub proof fn lemma_reply_is_served(
    cache: Map<Seq<char>, CacheEntryView>,
    name: Seq<char>,
    version: Seq<char>,
    deprecated: bool,
    now: u64,
    later: u64,
)
    requires
        semver_parsed(version) is Some,
        later - now < TTL,
    ensures
        ({
            let next = after_reply(cache, name, Ok((version, deprecated)), now).0;
            &&& serves(next, name, later)
            &&& next[name].time_fetched == now
            &&& deprecation_answer(next, name, later) == Ok::<bool, CacheErrorView>(deprecated)
            &&& version_answer(next, name, later) == Ok::<VersionView, CacheErrorView>(
                semver_parsed(version)->0,
            )
        }),
{
}

/// A reply for one name changes the answer for no other name.
pub proof fn lemma_reply_is_local(
    cache: Map<Seq<char>, CacheEntryView>,
    name: Seq<char>,
    reply: Result<(Seq<char>, bool), Seq<char>>,
    now: u64,
    other: Seq<char>,
    later: u64,
)
    requires
        other != name,
    ensures
        ({
            let next = after_reply(cache, name, reply, now).0;
            &&& serves(next, other, later) == serves(cache, other, later)
            &&& version_answer(next, other, later) == version_answer(cache, other, later)
            &&& deprecation_answer(next, other, later) == deprecation_answer(cache, other, later)
        }),
{
}

/// A reply that is refused leaves the cache as it was.
pub proof fn lemma_refused_reply_changes_nothing(
    cache: Map<Seq<char>, CacheEntryView>,
    name: Seq<char>,
    reply: Result<(Seq<char>, bool), Seq<char>>,
    now: u64,
)
    requires
        after_reply(cache, name, reply, now).1 is Err,
    ensures
        after_reply(cache, name, reply, now).0 == cache,
{
}

} // verus!
