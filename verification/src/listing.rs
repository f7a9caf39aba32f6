//! Object listing: which stored keys a listing request shows, which are
//! rolled up into common prefixes, and where a page ends.
//!
//! The server offers the sorted keys of a bucket one at a time to a
//! [`ListingCursor`]; for each key the cursor answers whether to skip it, to
//! load its metadata, or to stop. Loaded metadata is handed back with
//! [`ListingCursor::push_object`].

use vstd::prelude::*;
use crate::text::{chars_of, string_from_chars, copy_str, sviews};
use crate::scan::{has_prefix, lex_lt, first_match, match_at, lemma_first_match_props,
    lemma_first_match_earliest, lemma_lex_through_prefixes, chars_lt, chars_eq, starts_with_chars,
    find_from, slice_chars, lemma_lex_asymmetric, lemma_lex_transitive, lemma_lex_irreflexive};
use crate::storage::{ObjectMetadata, ListObjectsResult};

verus! {

/// What the server does next with the key it offered.
#[derive(PartialEq, Eq, Structural, Clone, Copy, Debug)]
pub enum ListStep {
    /// The key is not listed as an object (outside the range, or rolled
    /// into a common prefix).
    Skip,
    /// Load the key's metadata and hand it back.
    Load,
    /// The page is full: offer no more keys.
    Stop,
}

/// Where a listing starts: after the continuation token if one is given,
/// else after `start_after`.
pub open spec fn listing_start(start_after: Seq<char>, token: Seq<char>) -> Seq<char> {
    if token.len() > 0 {
        token
    } else {
        start_after
    }
}

/// The key has the prefix and comes strictly after the start (when a start
/// is given).
pub open spec fn key_in_range(key: Seq<char>, prefix: Seq<char>, start: Seq<char>) -> bool {
    &&& has_prefix(key, prefix)
    &&& (start.len() == 0 || lex_lt(start, key))
}

/// The common prefix a key is rolled into: the prefix, then the rest of the
/// key up to and including the first occurrence of the delimiter after the
/// prefix.
pub open spec fn rolled_prefix(key: Seq<char>, prefix: Seq<char>, delimiter: Seq<char>) -> Option<
    Seq<char>,
> {
    let after = key.skip(prefix.len() as int);
    if delimiter.len() == 0 {
        None
    } else {
        match first_match(after, delimiter, 0) {
            Some(pos) => Some(prefix + after.take(pos + delimiter.len())),
            None => None,
        }
    }
}

/// No value occurs twice.
pub open spec fn distinct(s: Seq<Seq<char>>) -> bool {
    forall|i: int, j: int| 0 <= i < j < s.len() ==> s[i] != s[j]
}

/// `prefixes` with `cp` added at the end unless it is there already.
pub open spec fn add_prefix(prefixes: Seq<Seq<char>>, cp: Seq<char>) -> Seq<Seq<char>> {
    if prefixes.contains(cp) {
        prefixes
    } else {
        prefixes.push(cp)
    }
}

/// What a listing has gathered after the offered keys: the keys whose
/// metadata was loaded, and the common prefixes. `loaded[i]` tells whether
/// the metadata of `keys[i]` was handed back when it was asked for.
pub open spec fn listing_run(
    keys: Seq<Seq<char>>,
    loaded: Seq<bool>,
    prefix: Seq<char>,
    delimiter: Seq<char>,
    start: Seq<char>,
    max_keys: nat,
) -> (Seq<Seq<char>>, Seq<Seq<char>>)
    decreases keys.len(),
{
    if keys.len() == 0 {
        (Seq::empty(), Seq::empty())
    } else {
        let (objs, cps) = listing_run(keys.drop_last(), loaded.drop_last(), prefix, delimiter, start, max_keys);
        let k = keys.last();
        if !key_in_range(k, prefix, start) {
            (objs, cps)
        } else {
            match rolled_prefix(k, prefix, delimiter) {
                Some(cp) => (objs, add_prefix(cps, cp)),
                None => if objs.len() < max_keys && loaded.last() {
                    (objs.push(k), cps)
                } else {
                    (objs, cps)
                },
            }
        }
    }
}

/// The state of one listing request.
pub struct ListingCursor {
    prefix: Vec<char>,
    delimiter: Vec<char>,
    start: Vec<char>,
    max_keys: usize,
    objects: Vec<ObjectMetadata>,
    common_prefixes: Vec<String>,
    /// The last key offered is to be loaded and has not been handed back.
    pending: bool,
    offered: Ghost<Seq<Seq<char>>>,
    loaded: Ghost<Seq<bool>>,
    loaded_keys: Ghost<Seq<Seq<char>>>,
}

impl ListingCursor {
    pub closed spec fn prefix(&self) -> Seq<char> {
        self.prefix@
    }

    pub closed spec fn delimiter(&self) -> Seq<char> {
        self.delimiter@
    }

    pub closed spec fn start(&self) -> Seq<char> {
        self.start@
    }

    pub closed spec fn max_keys(&self) -> nat {
        self.max_keys as nat
    }

    /// The objects listed so far.
    pub closed spec fn objects(&self) -> Seq<ObjectMetadata> {
        self.objects@
    }

    /// The common prefixes found so far, in the order they were found.
    pub closed spec fn prefixes(&self) -> Seq<Seq<char>> {
        sviews(self.common_prefixes@)
    }

    /// The keys offered so far.
    pub closed spec fn offered(&self) -> Seq<Seq<char>> {
        self.offered@
    }

    /// For each key offered, whether its metadata was handed back.
    pub closed spec fn loaded(&self) -> Seq<bool> {
        self.loaded@
    }

    /// The keys whose metadata was handed back, in order.
    pub closed spec fn loaded_keys(&self) -> Seq<Seq<char>> {
        self.loaded_keys@
    }

    /// The last key offered waits for its metadata.
    pub closed spec fn awaiting_load(&self) -> bool {
        self.pending
    }

    pub closed spec fn run(&self) -> (Seq<Seq<char>>, Seq<Seq<char>>) {
        listing_run(self.offered@, self.loaded@, self.prefix@, self.delimiter@, self.start@, self.max_keys as nat)
    }

    /// Every common prefix found extends the listing prefix and occurs once;
    /// the page holds at most `max_keys` objects, one for each key loaded;
    /// keys and prefixes are those that `listing_run` gives for the keys
    /// offered.
    pub closed spec fn wf(&self) -> bool {
        &&& distinct(self.prefixes())
        &&& forall|i: int|
            0 <= i < self.prefixes().len() ==> has_prefix(#[trigger] self.prefixes()[i], self.prefix@)
        &&& self.objects@.len() <= self.max_keys
        &&& self.objects@.len() == self.loaded_keys@.len()
        &&& self.loaded@.len() == self.offered@.len()
        &&& self.run() == (self.loaded_keys@, self.prefixes())
        &&& self.pending ==> {
            let k = self.offered@.last();
            &&& self.offered@.len() > 0
            &&& !self.loaded@.last()
            &&& key_in_range(k, self.prefix@, self.start@)
            &&& rolled_prefix(k, self.prefix@, self.delimiter@) is None
            &&& self.loaded_keys@.len() < self.max_keys
        }
    }

    /// A cursor for a listing with the given prefix, delimiter (empty for
    /// none), page size and start.
    pub fn new(prefix: &str, delimiter: &str, max_keys: usize, start_after: &str, token: &str) -> (c: Self)
        ensures
            c.wf(),
            c.prefix() == prefix@,
            c.delimiter() == delimiter@,
            c.start() == listing_start(start_after@, token@),
            c.max_keys() == max_keys,
            c.objects().len() == 0,
            c.prefixes().len() == 0,
            c.offered().len() == 0,
            !c.awaiting_load(),
    {
        let t = chars_of(token);
        let start = if t.len() > 0 {
            t
        } else {
            chars_of(start_after)
        };
        let c = ListingCursor {
            prefix: chars_of(prefix),
            delimiter: chars_of(delimiter),
            start,
            max_keys,
            objects: Vec::new(),
            common_prefixes: Vec::new(),
            pending: false,
            offered: Ghost(Seq::empty()),
            loaded: Ghost(Seq::empty()),
            loaded_keys: Ghost(Seq::empty()),
        };
        assert(c.prefixes() =~= Seq::<Seq<char>>::empty());
        c
    }

    /// Offers the next key in sorted order and says what to do with it. A
    /// key in range whose rest contains the delimiter is rolled into its
    /// common prefix, which is recorded the first time it is seen.
    pub fn offer(&mut self, key: &str) -> (r: ListStep)
        requires
            old(self).wf(),
        ensures
            final(self).wf(),
            final(self).prefix() == old(self).prefix(),
            final(self).delimiter() == old(self).delimiter(),
            final(self).start() == old(self).start(),
            final(self).max_keys() == old(self).max_keys(),
            final(self).objects() == old(self).objects(),
            final(self).offered() == old(self).offered().push(key@),
            final(self).loaded() == old(self).loaded().push(false),
            final(self).loaded_keys() == old(self).loaded_keys(),
            final(self).awaiting_load() == (r == ListStep::Load),
            !key_in_range(key@, old(self).prefix(), old(self).start()) ==> r == ListStep::Skip
                && final(self).prefixes() == old(self).prefixes(),
            key_in_range(key@, old(self).prefix(), old(self).start()) ==> match rolled_prefix(
                key@,
                old(self).prefix(),
                old(self).delimiter(),
            ) {
                Some(cp) => r == ListStep::Skip && final(self).prefixes() == add_prefix(
                    old(self).prefixes(),
                    cp,
                ),
                None => final(self).prefixes() == old(self).prefixes() && r == (if old(
                    self,
                ).objects().len() >= old(self).max_keys() {
                    ListStep::Stop
                } else {
                    ListStep::Load
                }),
            },
    {
        let ghost before = self.run();
        let ghost keys0 = self.offered@;
        let ghost loaded0 = self.loaded@;
        proof {
            // An earlier key that was not handed back leaves the run as it was.
            if self.pending {
                let kd = keys0.drop_last();
                let ld = loaded0.drop_last();
                assert(listing_run(keys0, loaded0, self.prefix@, self.delimiter@, self.start@, self.max_keys as nat)
                    == listing_run(kd, ld, self.prefix@, self.delimiter@, self.start@, self.max_keys as nat));
            }
        }
        self.pending = false;
        self.offered = Ghost(self.offered@.push(key@));
        self.loaded = Ghost(self.loaded@.push(false));
        proof {
            assert(self.offered@.drop_last() =~= keys0);
            assert(self.loaded@.drop_last() =~= loaded0);
        }
        let k = chars_of(key);
        if !starts_with_chars(&k, &self.prefix) {
            return ListStep::Skip;
        }
        if self.start.len() > 0 && !chars_lt(&self.start, &k) {
            return ListStep::Skip;
        }
        if self.delimiter.len() > 0 {
            let after = slice_chars(&k, self.prefix.len(), k.len());
            assert(after@ =~= key@.skip(self.prefix@.len() as int));
            match find_from(&after, &self.delimiter, 0) {
                Some(pos) => {
                    let mut cp = self.prefix.clone();
                    let head = slice_chars(&after, 0, pos + self.delimiter.len());
                    cp.extend_from_slice(head.as_slice());
                    assert(cp@ =~= self.prefix@ + after@.take(pos + self.delimiter@.len()));
                    assert(has_prefix(cp@, self.prefix@)) by {
                        assert(cp@.take(self.prefix@.len() as int) =~= self.prefix@);
                    }
                    self.record_prefix(&cp);
                    return ListStep::Skip;
                },
                None => {},
            }
        }
        if self.objects.len() >= self.max_keys {
            ListStep::Stop
        } else {
            self.pending = true;
            ListStep::Load
        }
    }

    /// Records a common prefix unless it is already recorded.
    fn record_prefix(&mut self, cp: &Vec<char>)
        requires
            distinct(old(self).prefixes()),
            forall|i: int|
                0 <= i < old(self).prefixes().len() ==> has_prefix(
                    #[trigger] old(self).prefixes()[i],
                    old(self).prefix@,
                ),
            has_prefix(cp@, old(self).prefix()),
        ensures
            distinct(final(self).prefixes()),
            forall|i: int|
                0 <= i < final(self).prefixes().len() ==> has_prefix(
                    #[trigger] final(self).prefixes()[i],
                    final(self).prefix@,
                ),
            final(self).prefix == old(self).prefix,
            final(self).delimiter == old(self).delimiter,
            final(self).start == old(self).start,
            final(self).max_keys == old(self).max_keys,
            final(self).objects == old(self).objects,
            final(self).pending == old(self).pending,
            final(self).offered == old(self).offered,
            final(self).loaded == old(self).loaded,
            final(self).loaded_keys == old(self).loaded_keys,
            final(self).prefixes() == add_prefix(old(self).prefixes(), cp@),
    {
        let ghost ps = self.prefixes();
        let mut i: usize = 0;
        while i < self.common_prefixes.len()
            invariant
                i <= self.common_prefixes.len(),
                ps == sviews(self.common_prefixes@),
                distinct(ps),
                forall|j: int| 0 <= j < ps.len() ==> has_prefix(#[trigger] ps[j], self.prefix@),
                forall|j: int| 0 <= j < i ==> ps[j] != cp@,
            decreases self.common_prefixes.len() - i,
        {
            let seen = chars_of(self.common_prefixes[i].as_str());
            if chars_eq(&seen, cp) {
                assert(ps[i as int] == cp@);
                assert(ps.contains(cp@));
                return;
            }
            i = i + 1;
        }
        assert(!ps.contains(cp@));
        self.common_prefixes.push(string_from_chars(cp));
        assert(self.prefixes() =~= ps.push(cp@));
    }

    /// Adds the metadata loaded for the key last answered with
    /// [`ListStep::Load`]; without such a key the page is left as it is.
    pub fn push_object(&mut self, meta: ObjectMetadata)
        requires
            old(self).wf(),
        ensures
            final(self).wf(),
            final(self).prefix() == old(self).prefix(),
            final(self).delimiter() == old(self).delimiter(),
            final(self).start() == old(self).start(),
            final(self).max_keys() == old(self).max_keys(),
            final(self).prefixes() == old(self).prefixes(),
            final(self).offered() == old(self).offered(),
            !final(self).awaiting_load(),
            final(self).objects() == (if old(self).awaiting_load() {
                old(self).objects().push(meta)
            } else {
                old(self).objects()
            }),
            final(self).loaded() == (if old(self).awaiting_load() {
                old(self).loaded().update(old(self).loaded().len() - 1, true)
            } else {
                old(self).loaded()
            }),
            final(self).loaded_keys() == (if old(self).awaiting_load() {
                old(self).loaded_keys().push(old(self).offered().last())
            } else {
                old(self).loaded_keys()
            }),
    {
        if self.pending {
            let ghost keys = self.offered@;
            let ghost l0 = self.loaded@;
            let ghost n = l0.len();
            proof {
                let kd = keys.drop_last();
                let ld = l0.drop_last();
                assert(listing_run(keys, l0, self.prefix@, self.delimiter@, self.start@, self.max_keys as nat)
                    == listing_run(kd, ld, self.prefix@, self.delimiter@, self.start@, self.max_keys as nat));
            }
            self.objects.push(meta);
            self.loaded = Ghost(self.loaded@.update(n - 1, true));
            self.loaded_keys = Ghost(self.loaded_keys@.push(keys.last()));
            self.pending = false;
            proof {
                assert(self.loaded@.drop_last() =~= l0.drop_last());
                assert(self.loaded@.last());
            }
        }
    }

    /// The page: the objects and common prefixes found, whether the page is
    /// full, and the key after which the next page starts.
    pub fn finish(self) -> (r: ListObjectsResult)
        requires
            self.wf(),
        ensures
            r.objects@ == self.objects(),
            sviews(r.common_prefixes@) == self.prefixes(),
            r.is_truncated == (self.objects().len() >= self.max_keys()),
            r.is_truncated && self.objects().len() > 0 ==> (r.next_continuation_token matches Some(
                t,
            ) && t@ == self.objects().last().key@),
            !(r.is_truncated && self.objects().len() > 0) ==> r.next_continuation_token is None,
            r.objects@.len() <= self.max_keys(),
            r.objects@.len() == self.loaded_keys().len(),
            (self.loaded_keys(), self.prefixes()) == listing_run(
                self.offered(),
                self.loaded(),
                self.prefix(),
                self.delimiter(),
                self.start(),
                self.max_keys(),
            ),
            distinct(sviews(r.common_prefixes@)),
            forall|i: int|
                0 <= i < r.common_prefixes@.len() ==> has_prefix(
                    #[trigger] sviews(r.common_prefixes@)[i],
                    self.prefix(),
                ),
    {
        let is_truncated = self.objects.len() >= self.max_keys;
        let next = if is_truncated && self.objects.len() > 0 {
            let last = self.objects.len() - 1;
            Some(copy_str(self.objects[last].key.as_str()))
        } else {
            None
        };
        ListObjectsResult {
            objects: self.objects,
            common_prefixes: self.common_prefixes,
            is_truncated,
            next_continuation_token: next,
        }
    }
}

// ---------------------------------------------------------------------------
// Pages

/// The keys that a listing shows, in order: those with the prefix after the
/// start.
pub open spec fn in_range_keys(keys: Seq<Seq<char>>, prefix: Seq<char>, start: Seq<char>) -> Seq<Seq<char>>
    decreases keys.len(),
{
    if keys.len() == 0 {
        Seq::empty()
    } else {
        let r = in_range_keys(keys.drop_last(), prefix, start);
        if key_in_range(keys.last(), prefix, start) {
            r.push(keys.last())
        } else {
            r
        }
    }
}

/// Each key comes strictly after the one before it.
pub open spec fn strictly_sorted(keys: Seq<Seq<char>>) -> bool {
    forall|i: int, j: int| 0 <= i < j < keys.len() ==> lex_lt(keys[i], keys[j])
}

/// Every key had its metadata handed back.
pub open spec fn all_loaded(n: nat) -> Seq<bool> {
    Seq::new(n, |i: int| true)
}

pub open spec fn min_nat(a: nat, b: nat) -> nat {
    if a < b {
        a
    } else {
        b
    }
}

proof fn lemma_run_without_delimiter(keys: Seq<Seq<char>>, prefix: Seq<char>, start: Seq<char>, max_keys: nat)
    ensures
        listing_run(keys, all_loaded(keys.len()), prefix, Seq::empty(), start, max_keys) == (
            in_range_keys(keys, prefix, start).take(
                min_nat(max_keys, in_range_keys(keys, prefix, start).len()) as int,
            ),
            Seq::<Seq<char>>::empty(),
        ),
    decreases keys.len(),
{
    if keys.len() > 0 {
        let kd = keys.drop_last();
        lemma_run_without_delimiter(kd, prefix, start, max_keys);
        assert(all_loaded(keys.len()).drop_last() =~= all_loaded(kd.len()));
        let l = in_range_keys(kd, prefix, start);
        let k = keys.last();
        if key_in_range(k, prefix, start) {
            assert(rolled_prefix(k, prefix, Seq::empty()) is None);
            if l.len() < max_keys {
                assert(l.take(l.len() as int).push(k) =~= l.push(k).take((l.len() + 1) as int));
            } else {
                assert(l.take(max_keys as int) =~= l.push(k).take(max_keys as int));
            }
        }
    }
}

proof fn lemma_members_in_range(keys: Seq<Seq<char>>, prefix: Seq<char>, start: Seq<char>)
    ensures
        forall|i: int|
            0 <= i < in_range_keys(keys, prefix, start).len() ==> key_in_range(
                #[trigger] in_range_keys(keys, prefix, start)[i],
                prefix,
                start,
            ),
    decreases keys.len(),
{
    if keys.len() > 0 {
        let kd = keys.drop_last();
        lemma_members_in_range(kd, prefix, start);
        let r = in_range_keys(kd, prefix, start);
        let l = in_range_keys(keys, prefix, start);
        assert forall|i: int| 0 <= i < l.len() implies key_in_range(#[trigger] l[i], prefix, start) by {
            if i < r.len() {
                assert(l[i] == r[i]);
            }
        }
    }
}

proof fn lemma_members_before(keys: Seq<Seq<char>>, prefix: Seq<char>, start: Seq<char>, k: Seq<char>)
    requires
        forall|i: int| 0 <= i < keys.len() ==> lex_lt(#[trigger] keys[i], k),
    ensures
        forall|i: int|
            0 <= i < in_range_keys(keys, prefix, start).len() ==> lex_lt(
                #[trigger] in_range_keys(keys, prefix, start)[i],
                k,
            ),
    decreases keys.len(),
{
    if keys.len() > 0 {
        let kd = keys.drop_last();
        assert forall|i: int| 0 <= i < kd.len() implies lex_lt(#[trigger] kd[i], k) by {
            assert(kd[i] == keys[i]);
        }
        lemma_members_before(kd, prefix, start, k);
        assert(lex_lt(keys[keys.len() - 1], k));
        let r = in_range_keys(kd, prefix, start);
        let l = in_range_keys(keys, prefix, start);
        assert forall|i: int| 0 <= i < l.len() implies lex_lt(#[trigger] l[i], k) by {
            if i < r.len() {
                assert(l[i] == r[i]);
            } else {
                assert(l[i] == keys.last());
            }
        }
    }
}

proof fn lemma_nothing_after(keys: Seq<Seq<char>>, prefix: Seq<char>, t: Seq<char>)
    requires
        forall|i: int| 0 <= i < keys.len() ==> lex_lt(#[trigger] keys[i], t),
    ensures
        in_range_keys(keys, prefix, t) == Seq::<Seq<char>>::empty(),
    decreases keys.len(),
{
    if keys.len() > 0 {
        let kd = keys.drop_last();
        assert forall|i: int| 0 <= i < kd.len() implies lex_lt(#[trigger] kd[i], t) by {
            assert(kd[i] == keys[i]);
        }
        lemma_nothing_after(kd, prefix, t);
        let k = keys.last();
        assert(lex_lt(keys[keys.len() - 1], t));
        lemma_lex_asymmetric(k, t);
        if t.len() == 0 {
            assert(!lex_lt(k, t));
        }
    }
}

proof fn lemma_next_page_start(keys: Seq<Seq<char>>, prefix: Seq<char>, start: Seq<char>, m: nat)
    requires
        strictly_sorted(keys),
        forall|i: int| 0 <= i < keys.len() ==> (#[trigger] keys[i]).len() > 0,
        m >= 1,
        in_range_keys(keys, prefix, start).len() >= m,
    ensures
        in_range_keys(keys, prefix, in_range_keys(keys, prefix, start)[m - 1]) == in_range_keys(
            keys,
            prefix,
            start,
        ).skip(m as int),
    decreases keys.len(),
{
    let kd = keys.drop_last();
    let k = keys.last();
    let ld = in_range_keys(kd, prefix, start);
    let l = in_range_keys(keys, prefix, start);
    let t = l[m - 1];
    assert(strictly_sorted(kd)) by {
        assert forall|i: int, j: int| 0 <= i < j < kd.len() implies lex_lt(kd[i], kd[j]) by {
            assert(kd[i] == keys[i] && kd[j] == keys[j]);
        }
    }
    assert forall|i: int| 0 <= i < kd.len() implies (#[trigger] kd[i]).len() > 0 by {
        assert(kd[i] == keys[i]);
    }
    assert forall|i: int| 0 <= i < kd.len() implies lex_lt(#[trigger] kd[i], k) by {
        assert(kd[i] == keys[i]);
        assert(k == keys[keys.len() - 1]);
    }
    lemma_members_before(kd, prefix, start, k);
    lemma_members_in_range(kd, prefix, start);
    assert(k.len() > 0) by {
        assert(k == keys[keys.len() - 1]);
    }
    if ld.len() >= m {
        lemma_next_page_start(kd, prefix, start, m);
        assert(t == ld[m - 1]);
        assert(lex_lt(ld[m - 1], k));
        assert(key_in_range(ld[m - 1], prefix, start));
        if start.len() > 0 {
            lemma_lex_transitive(start, t, k);
        }
        assert(key_in_range(k, prefix, t) == key_in_range(k, prefix, start));
        let rt = in_range_keys(kd, prefix, t);
        assert(rt == ld.skip(m as int));
        if key_in_range(k, prefix, start) {
            assert(l == ld.push(k));
            assert(in_range_keys(keys, prefix, t) == rt.push(k));
            assert(ld.push(k).skip(m as int) =~= ld.skip(m as int).push(k));
        } else {
            assert(l == ld);
            assert(in_range_keys(keys, prefix, t) == rt);
        }
    } else {
        assert(key_in_range(k, prefix, start));
        assert(l == ld.push(k));
        assert(t == k);
        lemma_nothing_after(kd, prefix, t);
        lemma_lex_irreflexive(k);
        assert(!key_in_range(k, prefix, t));
        assert(in_range_keys(keys, prefix, t) == in_range_keys(kd, prefix, t));
        assert(l.skip(m as int) =~= Seq::<Seq<char>>::empty());
    }
}

/// Pages follow one another. With no delimiter, sorted non-empty keys (an
/// empty key is refused when stored) and every key to load loaded, a page
/// lists the first `max_keys` keys that have the prefix and come after the
/// start; the page that starts after its last key lists the next ones. So paging through a listing shows every key in
/// range once, in order.
pub proof fn lemma_listing_pages(keys: Seq<Seq<char>>, prefix: Seq<char>, start: Seq<char>, max_keys: nat)
    requires
        strictly_sorted(keys),
        forall|i: int| 0 <= i < keys.len() ==> (#[trigger] keys[i]).len() > 0,
        max_keys >= 1,
    ensures
        ({
            let l = in_range_keys(keys, prefix, start);
            &&& listing_run(keys, all_loaded(keys.len()), prefix, Seq::empty(), start, max_keys).0 == l.take(
                min_nat(max_keys, l.len()) as int,
            )
            &&& l.len() >= max_keys ==> listing_run(
                keys,
                all_loaded(keys.len()),
                prefix,
                Seq::empty(),
                l[max_keys - 1],
                max_keys,
            ).0 == l.skip(max_keys as int).take(min_nat(max_keys, (l.len() - max_keys) as nat) as int)
        }),
{
    let l = in_range_keys(keys, prefix, start);
    lemma_run_without_delimiter(keys, prefix, start, max_keys);
    if l.len() >= max_keys {
        let t = l[max_keys - 1];
        lemma_run_without_delimiter(keys, prefix, t, max_keys);
        lemma_next_page_start(keys, prefix, start, max_keys);
    }
}


// ---------------------------------------------------------------------------
// Common prefixes in order

/// A key in range whose rest holds the delimiter begins with its common
/// prefix.
proof fn lemma_rolled_begins_key(k: Seq<char>, prefix: Seq<char>, delimiter: Seq<char>)
    requires
        has_prefix(k, prefix),
        rolled_prefix(k, prefix, delimiter) is Some,
    ensures
        has_prefix(k, rolled_prefix(k, prefix, delimiter)->0),
{
    let a = k.skip(prefix.len() as int);
    let pos = first_match(a, delimiter, 0)->0;
    lemma_first_match_props(a, delimiter, 0);
    let cp = prefix + a.take(pos + delimiter.len());
    assert(k.take(cp.len() as int) =~= cp) by {
        assert(k.take(prefix.len() as int) == prefix);
    }
}

/// One common prefix never begins another, different one: each ends at the
/// first occurrence of the delimiter after the prefix.
proof fn lemma_rolled_not_nested(k1: Seq<char>, k2: Seq<char>, prefix: Seq<char>, delimiter: Seq<char>)
    requires
        has_prefix(k1, prefix),
        has_prefix(k2, prefix),
        rolled_prefix(k1, prefix, delimiter) is Some,
        rolled_prefix(k2, prefix, delimiter) is Some,
        has_prefix(rolled_prefix(k2, prefix, delimiter)->0, rolled_prefix(k1, prefix, delimiter)->0),
    ensures
        rolled_prefix(k1, prefix, delimiter) == rolled_prefix(k2, prefix, delimiter),
{
    let n = prefix.len() as int;
    let dl = delimiter.len() as int;
    let a1 = k1.skip(n);
    let a2 = k2.skip(n);
    let i1 = first_match(a1, delimiter, 0)->0;
    let i2 = first_match(a2, delimiter, 0)->0;
    lemma_first_match_props(a1, delimiter, 0);
    lemma_first_match_props(a2, delimiter, 0);
    lemma_first_match_earliest(a2, delimiter, 0, i2);
    let c1 = prefix + a1.take(i1 + dl);
    let c2 = prefix + a2.take(i2 + dl);
    assert(c2.take(c1.len() as int) == c1);
    assert(i1 <= i2);
    assert(a2.subrange(i1, i1 + dl) =~= a1.subrange(i1, i1 + dl)) by {
        assert forall|j: int| i1 <= j < i1 + dl implies a2[j] == a1[j] by {
            assert(c2.take(c1.len() as int)[n + j] == c1[n + j]);
        }
    }
    assert(match_at(a2, i1, delimiter));
    assert(i1 == i2);
    assert(c1 =~= c2) by {
        assert forall|j: int| 0 <= j < c1.len() implies c1[j] == c2[j] by {
            assert(c2.take(c1.len() as int)[j] == c1[j]);
        }
    }
}

/// Of two keys in order with different common prefixes, the earlier key has
/// the earlier prefix.
proof fn lemma_rolled_ordered(k1: Seq<char>, k2: Seq<char>, prefix: Seq<char>, delimiter: Seq<char>)
    requires
        has_prefix(k1, prefix),
        has_prefix(k2, prefix),
        rolled_prefix(k1, prefix, delimiter) is Some,
        rolled_prefix(k2, prefix, delimiter) is Some,
        rolled_prefix(k1, prefix, delimiter) != rolled_prefix(k2, prefix, delimiter),
        lex_lt(k1, k2),
    ensures
        lex_lt(rolled_prefix(k1, prefix, delimiter)->0, rolled_prefix(k2, prefix, delimiter)->0),
{
    let c1 = rolled_prefix(k1, prefix, delimiter)->0;
    let c2 = rolled_prefix(k2, prefix, delimiter)->0;
    lemma_rolled_begins_key(k1, prefix, delimiter);
    lemma_rolled_begins_key(k2, prefix, delimiter);
    if has_prefix(c2, c1) {
        lemma_rolled_not_nested(k1, k2, prefix, delimiter);
    }
    if has_prefix(c1, c2) {
        lemma_rolled_not_nested(k2, k1, prefix, delimiter);
    }
    lemma_lex_through_prefixes(c1, c2, k1, k2);
}

/// The key at `m` is in range and rolled into `cp`.
pub open spec fn rolled_from(
    keys: Seq<Seq<char>>,
    m: int,
    prefix: Seq<char>,
    delimiter: Seq<char>,
    start: Seq<char>,
    cp: Seq<char>,
) -> bool {
    &&& 0 <= m < keys.len()
    &&& key_in_range(keys[m], prefix, start)
    &&& rolled_prefix(keys[m], prefix, delimiter) == Some(cp)
}

/// Some key in range is rolled into `cp`.
pub open spec fn rolled_from_some(
    keys: Seq<Seq<char>>,
    prefix: Seq<char>,
    delimiter: Seq<char>,
    start: Seq<char>,
    cp: Seq<char>,
) -> bool {
    exists|m: int| #[trigger] rolled_from(keys, m, prefix, delimiter, start, cp)
}

/// Common prefixes come in order. When the keys are offered in strictly
/// increasing order, the common prefixes of a listing are strictly
/// increasing (so none occurs twice), and each is the common prefix of some
/// key in range: the listing prefix, then the rest of that key up to and
/// including the first occurrence of the delimiter.
pub proof fn lemma_common_prefixes_increasing(
    keys: Seq<Seq<char>>,
    loaded: Seq<bool>,
    prefix: Seq<char>,
    delimiter: Seq<char>,
    start: Seq<char>,
    max_keys: nat,
)
    requires
        strictly_sorted(keys),
    ensures
        ({
            let cps = listing_run(keys, loaded, prefix, delimiter, start, max_keys).1;
            &&& forall|i: int, j: int| 0 <= i < j < cps.len() ==> lex_lt(cps[i], cps[j])
            &&& forall|i: int|
                0 <= i < cps.len() ==> #[trigger] rolled_from_some(keys, prefix, delimiter, start, cps[i])
        }),
    decreases keys.len(),
{
    if keys.len() > 0 {
        let kd = keys.drop_last();
        let ld = loaded.drop_last();
        let k = keys.last();
        assert(strictly_sorted(kd)) by {
            assert forall|i: int, j: int| 0 <= i < j < kd.len() implies lex_lt(kd[i], kd[j]) by {
                assert(kd[i] == keys[i] && kd[j] == keys[j]);
            }
        }
        lemma_common_prefixes_increasing(kd, ld, prefix, delimiter, start, max_keys);
        let cps0 = listing_run(kd, ld, prefix, delimiter, start, max_keys).1;
        let cps = listing_run(keys, loaded, prefix, delimiter, start, max_keys).1;
        assert forall|i: int| 0 <= i < cps0.len() implies #[trigger] rolled_from_some(
            keys,
            prefix,
            delimiter,
            start,
            cps0[i],
        ) by {
            assert(rolled_from_some(kd, prefix, delimiter, start, cps0[i]));
            let m = choose|m: int| #[trigger] rolled_from(kd, m, prefix, delimiter, start, cps0[i]);
            assert(kd[m] == keys[m]);
            assert(rolled_from(keys, m, prefix, delimiter, start, cps0[i]));
        }
        if key_in_range(k, prefix, start) && rolled_prefix(k, prefix, delimiter) is Some {
            let cp = rolled_prefix(k, prefix, delimiter)->0;
            if !cps0.contains(cp) {
                assert(cps == cps0.push(cp));
                assert(rolled_from(keys, keys.len() - 1, prefix, delimiter, start, cp));
                assert forall|i: int| 0 <= i < cps0.len() implies lex_lt(cps0[i], cp) by {
                    assert(rolled_from_some(kd, prefix, delimiter, start, cps0[i]));
                    let m = choose|m: int| #[trigger] rolled_from(kd, m, prefix, delimiter, start, cps0[i]);
                    assert(kd[m] == keys[m]);
                    assert(lex_lt(keys[m], keys[keys.len() - 1]));
                    assert(cps0[i] != cp);
                    lemma_rolled_ordered(keys[m], k, prefix, delimiter);
                }
                assert forall|i: int| 0 <= i < cps.len() implies #[trigger] rolled_from_some(
                    keys,
                    prefix,
                    delimiter,
                    start,
                    cps[i],
                ) by {
                    if i < cps0.len() {
                        assert(cps[i] == cps0[i]);
                    } else {
                        assert(rolled_from(keys, keys.len() - 1, prefix, delimiter, start, cps[i]));
                    }
                }
                assert forall|i: int, j: int| 0 <= i < j < cps.len() implies lex_lt(cps[i], cps[j]) by {
                    assert(cps[i] == cps0[i]);
                    if j < cps0.len() {
                        assert(cps[j] == cps0[j]);
                    }
                }
            } else {
                assert(cps == cps0);
            }
        } else {
            assert(cps == cps0);
        }
    }
}

} // verus!
