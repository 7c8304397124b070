//! Session statistics that are kept between two looks at the session files.
use crate::clock::{clock_now, is_second, second_was_read, Day, Month};
use crate::limits::{display_rate_limits_at, shown_at, RateLimits};
use crate::sessions::{
    can_add_up_to, no_file_stats, parse_file_stats, FileStats, FileStatsView,
};
use crate::stats::{aggregated, apply_status, with_status, Stats, StatsView};
use crate::status::{
    auth_status_label, auth_text, reply_of, resolve_codex_status_at, resolved, Reply, StatusSource,
};
use crate::text::lines_of;
use crate::usage::{distinct, lemma_table_at, lemma_table_without, no_usage, table_map};
use vstd::prelude::*;
use vstd::string::*;

verus! {

/// A session file that was read.
pub struct CachedFile {
    pub len: u64,
    /// When the file was last changed, in nanoseconds since 1970.
    pub modified_ns: u128,
    pub stats: FileStats,
}

/// What is known of a session file that was read.
pub struct CachedFileView {
    pub len: u64,
    pub modified_ns: u128,
    pub stats: FileStatsView,
}

impl View for CachedFile {
    type V = CachedFileView;

    open spec fn view(&self) -> CachedFileView {
        CachedFileView { len: self.len, modified_ns: self.modified_ns, stats: self.stats@ }
    }
}

/// Session files by the bytes of their paths.
pub type FilesView = Seq<(Seq<u8>, CachedFileView)>;

/// What is known of the files in a list.
pub open spec fn files_of(files: Seq<(Vec<u8>, CachedFile)>) -> FilesView {
    files.map_values(|f: (Vec<u8>, CachedFile)| (f.0@, f.1@))
}

/// The statistics of the files in a list.
pub open spec fn stats_of(files: FilesView) -> Seq<FileStatsView> {
    files.map_values(|f: (Seq<u8>, CachedFileView)| f.1.stats)
}

/// The session files that were read, and what they added up to last.
pub struct StatsCache {
    pub files: Vec<(Vec<u8>, CachedFile)>,
    pub last_stats: Option<Stats>,
    pub last_day: Option<Day>,
    pub last_month: Option<Month>,
}

impl StatsCache {
    /// Whether no path stands twice and the statistics of each file are well formed.
    pub open spec fn files_wf(&self) -> bool {
        &&& distinct(files_of(self.files@))
        &&& forall|i: int| 0 <= i < self.files@.len() ==> (#[trigger] self.files@[i]).1.stats.wf()
    }

    /// Whether the files are well formed and the last sum is that of the files, on the day and
    /// in the month that are kept with it.
    pub open spec fn wf(&self) -> bool {
        &&& self.files_wf()
        &&& self.last_stats is Some ==> {
            &&& self.last_day is Some
            &&& self.last_month is Some
            &&& self.last_stats->0.wf()
            &&& self.last_stats->0@ == aggregated(
                stats_of(files_of(self.files@)),
                self.last_day->0,
                self.last_month->0,
            )
        }
    }

    /// A cache of nothing.
    pub fn new() -> (cache: StatsCache)
        ensures
            cache.wf(),
            files_of(cache.files@) == FilesView::empty(),
            cache.last_stats is None,
            cache.last_day is None,
            cache.last_month is None,
    {
        let cache = StatsCache {
            files: Vec::new(),
            last_stats: None,
            last_day: None,
            last_month: None,
        };
        proof {
            assert(files_of(cache.files@) =~= FilesView::empty());
        }
        cache
    }
}

impl Default for StatsCache {
    fn default() -> (cache: StatsCache)
        ensures
            cache.wf(),
            files_of(cache.files@) == FilesView::empty(),
            cache.last_stats is None,
            cache.last_day is None,
            cache.last_month is None,
    {
        StatsCache::new()
    }
}

/// What the files in the cache add up to on `today` in `month`.
pub fn aggregate_cached_stats(cache: &StatsCache, today: Day, month: Month) -> (stats: Stats)
    requires
        cache.files_wf(),
    ensures
        stats.wf(),
        stats@ == aggregated(stats_of(files_of(cache.files@)), today, month),
{
    let ghost all = stats_of(files_of(cache.files@));
    let mut stats = Stats::new();
    let mut i: usize = 0;
    while i < cache.files.len()
        invariant
            i <= cache.files@.len(),
            cache.files_wf(),
            all == stats_of(files_of(cache.files@)),
            stats.wf(),
            stats@ == aggregated(all.take(i as int), today, month),
        decreases cache.files@.len() - i,
    {
        stats.add_file(&cache.files[i].1.stats, today, month);
        proof {
            assert(all.take(i + 1).drop_last() =~= all.take(i as int));
            assert(all[i as int] == cache.files@[i as int].1.stats@);
        }
        i += 1;
    }
    proof {
        assert(all.take(all.len() as int) =~= all);
    }
    stats
}

/// A session file that was found. Its size and the moment of its last change are missing where
/// they could not be had.
pub struct FoundFile {
    pub path: Vec<u8>,
    pub key: Option<(u64, u128)>,
}

/// Whether a file had this size and this moment when it was read.
pub open spec fn has_key(file: CachedFileView, key: (u64, u128)) -> bool {
    file.len == key.0 && file.modified_ns == key.1
}

/// Whether a file has to be read: it was not read yet, or it changed since.
pub open spec fn is_stale(files: FilesView, path: Seq<u8>, key: (u64, u128)) -> bool {
    !table_map(files).dom().contains(path) || !has_key(table_map(files)[path], key)
}

/// Where `path` stands in a list.
pub open spec fn stands_at(files: FilesView, path: Seq<u8>, i: int) -> bool {
    0 <= i < files.len() && files[i].0 == path
}

/// `files` with `file` in place of what was under `path`, or at the end.
pub open spec fn stored(files: FilesView, path: Seq<u8>, file: CachedFileView) -> FilesView {
    if exists|i: int| stands_at(files, path, i) {
        files.update(choose|i: int| stands_at(files, path, i), (path, file))
    } else {
        files.push((path, file))
    }
}

/// Whether a found file has to be read.
pub open spec fn wanted(files: FilesView, found: FoundFile) -> bool {
    found.key is Some && is_stale(files, found.path@, found.key->0)
}

/// `files` after `found` was looked at. `fresh` is what the file adds up to, if it was read.
pub open spec fn scanned(files: FilesView, found: FoundFile, fresh: FileStatsView) -> FilesView {
    if wanted(files, found) {
        let key = found.key->0;
        stored(
            files,
            found.path@,
            CachedFileView { len: key.0, modified_ns: key.1, stats: fresh },
        )
    } else {
        files
    }
}

/// `files` after all of `found` were looked at.
pub open spec fn all_scanned(
    files: FilesView,
    found: Seq<FoundFile>,
    fresh: Seq<FileStatsView>,
) -> FilesView
    decreases found.len(),
{
    if found.len() == 0 {
        files
    } else {
        scanned(
            all_scanned(files, found.drop_last(), fresh.drop_last()),
            found.last(),
            fresh.last(),
        )
    }
}

/// Whether `path` is that of a found file.
pub open spec fn is_found(found: Seq<FoundFile>, path: Seq<u8>) -> bool {
    exists|i: int| 0 <= i < found.len() && (#[trigger] found[i]).path@ == path
}

/// Those of `files` that were found.
pub open spec fn kept(files: FilesView, found: Seq<FoundFile>) -> FilesView {
    files.filter(|f: (Seq<u8>, CachedFileView)| is_found(found, f.0))
}

/// Whether `fresh` can be what a file holds of which `content` was read. A file that cannot be
/// read holds nothing.
pub open spec fn content_fits<F: Fn(String) -> String>(
    normalize: F,
    content: Option<String>,
    fresh: FileStatsView,
) -> bool {
    match content {
        Some(text) => can_add_up_to(normalize, lines_of(text@), fresh),
        None => fresh == no_file_stats(),
    }
}

/// Whether `fresh` can be what `read` finds in file number `i`.
pub open spec fn fresh_fits<R: Fn(usize) -> Option<String>, F: Fn(String) -> String>(
    read: R,
    normalize: F,
    i: usize,
    fresh: FileStatsView,
) -> bool {
    exists|content: Option<String>| #[trigger]
        call_ensures(read, (i,), content) && content_fits(normalize, content, fresh)
}

/// Whether `fresh` can be what the files that have to be read hold.
pub open spec fn all_fresh_fit<R: Fn(usize) -> Option<String>, F: Fn(String) -> String>(
    read: R,
    normalize: F,
    files: FilesView,
    found: Seq<FoundFile>,
    fresh: Seq<FileStatsView>,
) -> bool {
    &&& fresh.len() == found.len()
    &&& forall|i: int|
        0 <= i < found.len() && wanted(
            all_scanned(files, found.take(i), fresh.take(i)),
            found[i],
        ) ==> fresh_fits(read, normalize, i as usize, #[trigger] fresh[i])
}

fn same_bytes(a: &Vec<u8>, b: &Vec<u8>) -> (r: bool)
    ensures
        r == (a@ == b@),
{
    if a.len() != b.len() {
        return false;
    }
    let mut i: usize = a.len();
    while i > 0
        invariant
            i <= a@.len(),
            a@.len() == b@.len(),
            forall|j: int| i <= j < a@.len() ==> a@[j] == b@[j],
        decreases i,
    {
        i -= 1;
        if a[i] != b[i] {
            return false;
        }
    }
    proof {
        assert(a@ =~= b@);
    }
    true
}

/// Where `path` stands in a list. `hint` is looked at first.
fn locate(files: &Vec<(Vec<u8>, CachedFile)>, path: &Vec<u8>, hint: usize) -> (at: Option<usize>)
    ensures
        match at {
            Some(i) => i < files@.len() && files@[i as int].0@ == path@,
            None => forall|i: int| 0 <= i < files@.len() ==> (#[trigger] files@[i]).0@ != path@,
        },
{
    if hint < files.len() && same_bytes(&files[hint].0, path) {
        return Some(hint);
    }
    let mut i: usize = 0;
    while i < files.len()
        invariant
            i <= files@.len(),
            forall|j: int| 0 <= j < i ==> (#[trigger] files@[j]).0@ != path@,
        decreases files@.len() - i,
    {
        if same_bytes(&files[i].0, path) {
            return Some(i);
        }
        i += 1;
    }
    None
}

fn read_stats<R: Fn(usize) -> Option<String>, F: Fn(String) -> String>(
    read: &R,
    normalize: &F,
    i: usize,
) -> (stats: FileStats)
    requires
        call_requires(*read, (i,)),
        forall|name: String| call_requires(*normalize, (name,)),
    ensures
        stats.wf(),
        fresh_fits(*read, *normalize, i, stats@),
{
    let content = (*read)(i);
    let ghost given = content;
    let stats = match content {
        Some(text) => parse_file_stats(text.as_str(), normalize),
        None => FileStats::new(),
    };
    proof {
        assert(content_fits(*normalize, given, stats@));
    }
    stats
}

proof fn lemma_stored_at(files: FilesView, i: int, file: CachedFileView)
    requires
        distinct(files),
        0 <= i < files.len(),
    ensures
        stored(files, files[i].0, file) == files.update(i, (files[i].0, file)),
        distinct(stored(files, files[i].0, file)),
{
    let path = files[i].0;
    assert(stands_at(files, path, i));
    let j = choose|j: int| stands_at(files, path, j);
    assert(j == i);
    let after = files.update(i, (path, file));
    assert forall|a: int, b: int| 0 <= a < b < after.len() implies (#[trigger] after[a]).0 != (
    #[trigger] after[b]).0 by {
        assert(after[a].0 == files[a].0 && after[b].0 == files[b].0);
    }
}

proof fn lemma_stored_new(files: FilesView, path: Seq<u8>, file: CachedFileView)
    requires
        distinct(files),
        forall|i: int| 0 <= i < files.len() ==> (#[trigger] files[i]).0 != path,
    ensures
        stored(files, path, file) == files.push((path, file)),
        distinct(stored(files, path, file)),
{
    assert forall|i: int| !stands_at(files, path, i) by {
        if 0 <= i < files.len() {
            assert(files[i].0 != path);
        }
    }
}

proof fn lemma_found_take(found: Seq<FoundFile>, j: int, path: Seq<u8>)
    requires
        0 <= j < found.len(),
    ensures
        is_found(found.take(j + 1), path) == (is_found(found.take(j), path) || found[j].path@
            == path),
{
    let before = found.take(j);
    let after = found.take(j + 1);
    if is_found(before, path) {
        let i = choose|i: int| 0 <= i < before.len() && (#[trigger] before[i]).path@ == path;
        assert(after[i] == before[i]);
    }
    if found[j].path@ == path {
        assert(after[j].path@ == path);
    }
    if is_found(after, path) {
        let i = choose|i: int| 0 <= i < after.len() && (#[trigger] after[i]).path@ == path;
        if i < j {
            assert(before[i] == after[i]);
        }
    }
}

/// One more file was looked at: the scan is that of one more file, and what was read fits.
proof fn lemma_one_more<R: Fn(usize) -> Option<String>, F: Fn(String) -> String>(
    read: R,
    normalize: F,
    files: FilesView,
    found: Seq<FoundFile>,
    fresh: Seq<FileStatsView>,
    j: int,
    last: FileStatsView,
)
    requires
        0 <= j < found.len() <= usize::MAX,
        all_fresh_fit(read, normalize, files, found.take(j), fresh),
        wanted(all_scanned(files, found.take(j), fresh), found[j]) ==> fresh_fits(
            read,
            normalize,
            j as usize,
            last,
        ),
    ensures
        all_fresh_fit(read, normalize, files, found.take(j + 1), fresh.push(last)),
        all_scanned(files, found.take(j + 1), fresh.push(last)) == scanned(
            all_scanned(files, found.take(j), fresh),
            found[j],
            last,
        ),
{
    let before = found.take(j);
    let after = found.take(j + 1);
    let all = fresh.push(last);
    assert(after.drop_last() =~= before);
    assert(all.drop_last() =~= fresh);
    assert forall|i: int|
        0 <= i < after.len() && wanted(
            all_scanned(files, after.take(i), all.take(i)),
            after[i],
        ) implies fresh_fits(read, normalize, i as usize, #[trigger] all[i]) by {
        if i < j {
            assert(after.take(i) =~= before.take(i));
            assert(all.take(i) =~= fresh.take(i));
            assert(all[i] == fresh[i]);
            assert(after[i] == before[i]);
        } else {
            assert(after.take(i) =~= before);
            assert(all.take(i) =~= fresh);
        }
    }
}

impl StatsCache {
    /// Looks at one file that was found, and reads it where it has to be read. Returns where the
    /// file stands now, if it is in the cache, and whether it was read.
    fn look_at<R: Fn(usize) -> Option<String>, F: Fn(String) -> String>(
        &mut self,
        found: &FoundFile,
        hint: usize,
        read: &R,
        normalize: &F,
        i: usize,
    ) -> (r: (Option<usize>, bool))
        requires
            old(self).files_wf(),
            wanted(files_of(old(self).files@), *found) ==> call_requires(*read, (i,)),
            forall|name: String| call_requires(*normalize, (name,)),
        ensures
            final(self).files_wf(),
            final(self).last_stats == old(self).last_stats,
            final(self).last_day == old(self).last_day,
            final(self).last_month == old(self).last_month,
            ({
                let before = files_of(old(self).files@);
                let after = files_of(final(self).files@);
                &&& r.1 == wanted(before, *found)
                &&& exists|fresh: FileStatsView| #[trigger]
                    scanned(before, *found, fresh) == after && (r.1 ==> fresh_fits(
                        *read,
                        *normalize,
                        i,
                        fresh,
                    ))
                &&& before.len() <= after.len() <= before.len() + 1
                &&& forall|k: int| 0 <= k < before.len() ==> (#[trigger] after[k]).0 == before[k].0
                &&& match r.0 {
                    Some(at) => at < after.len() && after[at as int].0 == found.path@,
                    None => after.len() == before.len() && forall|k: int|
                        0 <= k < before.len() ==> (#[trigger] before[k]).0 != found.path@,
                }
            }),
    {
        let ghost before = files_of(self.files@);
        let ghost owned = self.files@;
        match locate(&self.files, &found.path, hint) {
            Some(at) => {
                proof {
                    lemma_table_at(before, at as int);
                }
                if let Some((len, modified_ns)) = found.key {
                    if self.files[at].1.len != len || self.files[at].1.modified_ns != modified_ns {
                        let stats = read_stats(read, normalize, i);
                        let path = found.path.clone();
                        let ghost file = CachedFileView { len, modified_ns, stats: stats@ };
                        let ghost fresh = stats@;
                        self.files.set(at, (path, CachedFile { len, modified_ns, stats }));
                        proof {
                            lemma_stored_at(before, at as int, file);
                            assert(path@ =~= found.path@);
                            assert(files_of(self.files@) =~= before.update(
                                at as int,
                                (before[at as int].0, file),
                            ));
                            assert(scanned(before, *found, fresh) == files_of(self.files@));
                        }
                        return (Some(at), true);
                    }
                }
                proof {
                    assert(scanned(before, *found, no_file_stats()) == before);
                }
                (Some(at), false)
            },
            None => {
                proof {
                    assert forall|k: int| 0 <= k < before.len() implies (#[trigger] before[k]).0
                        != found.path@ by {
                        assert(before[k].0 == owned[k].0@);
                    }
                    lemma_table_without(before, found.path@);
                }
                if let Some((len, modified_ns)) = found.key {
                    let stats = read_stats(read, normalize, i);
                    let path = found.path.clone();
                    let ghost file = CachedFileView { len, modified_ns, stats: stats@ };
                    let ghost fresh = stats@;
                    let at = self.files.len();
                    self.files.push((path, CachedFile { len, modified_ns, stats }));
                    proof {
                        lemma_stored_new(before, found.path@, file);
                        assert(path@ =~= found.path@);
                        assert(files_of(self.files@) =~= before.push((found.path@, file)));
                        assert(scanned(before, *found, fresh) == files_of(self.files@));
                    }
                    return (Some(at), true);
                }
                proof {
                    assert(scanned(before, *found, no_file_stats()) == before);
                }
                (None, false)
            },
        }
    }
}

proof fn lemma_filter_step(
    all: FilesView,
    j: int,
    p: spec_fn((Seq<u8>, CachedFileView)) -> bool,
)
    requires
        0 <= j < all.len(),
    ensures
        all.take(j + 1).filter(p) == (if p(all[j]) {
            all.take(j).filter(p).push(all[j])
        } else {
            all.take(j).filter(p)
        }),
{
    reveal(Seq::filter);
    assert(all.take(j + 1).drop_last() =~= all.take(j));
}

impl StatsCache {
    /// Drops the files that were not seen. Returns whether there were any.
    fn drop_unseen(&mut self, seen: Vec<bool>, found: &Vec<FoundFile>) -> (dropped: bool)
        requires
            old(self).files_wf(),
            seen@.len() == old(self).files@.len(),
            forall|k: int|
                0 <= k < seen@.len() ==> #[trigger] seen@[k] == is_found(
                    found@,
                    files_of(old(self).files@)[k].0,
                ),
        ensures
            final(self).files_wf(),
            final(self).last_stats == old(self).last_stats,
            final(self).last_day == old(self).last_day,
            final(self).last_month == old(self).last_month,
            files_of(final(self).files@) == kept(files_of(old(self).files@), found@),
            !dropped ==> files_of(final(self).files@) == files_of(old(self).files@),
    {
        let ghost all = files_of(self.files@);
        let ghost p = |f: (Seq<u8>, CachedFileView)| is_found(found@, f.0);
        let ghost start = *self;
        let mut dropped = false;
        let mut at: usize = 0;
        let mut j: usize = 0;
        proof {
            reveal(Seq::filter);
            assert(all.take(0).filter(p) =~= Seq::empty());
            assert(files_of(self.files@).take(0) =~= Seq::empty());
            assert(files_of(self.files@).skip(0) =~= all.skip(0));
        }
        while j < seen.len()
            invariant
                at <= j <= seen@.len(),
                seen@.len() == all.len(),
                self.files@.len() == all.len() - j + at,
                !dropped ==> at == j,
                p == (|f: (Seq<u8>, CachedFileView)| is_found(found@, f.0)),
                forall|k: int| 0 <= k < seen@.len() ==> #[trigger] seen@[k] == is_found(
                    found@,
                    all[k].0,
                ),
                self.last_stats == start.last_stats,
                self.last_day == start.last_day,
                self.last_month == start.last_month,
                self.files_wf(),
                files_of(self.files@).take(at as int) == all.take(j as int).filter(p),
                files_of(self.files@).skip(at as int) == all.skip(j as int),
                !dropped ==> files_of(self.files@) == all,
            decreases seen@.len() - j,
        {
            let ghost now = files_of(self.files@);
            let ghost owned = self.files@;
            proof {
                lemma_filter_step(all, j as int, p);
                assert(now.skip(at as int)[0] == all.skip(j as int)[0]);
                assert(now[at as int] == all[j as int]);
                assert(now.skip(at as int).skip(1) =~= now.skip(at + 1));
                assert(all.skip(j as int).skip(1) =~= all.skip(j + 1));
                assert(seen@[j as int] == p(all[j as int]));
            }
            if seen[j] {
                proof {
                    assert(now.take(at + 1) =~= now.take(at as int).push(now[at as int]));
                }
                at += 1;
            } else {
                let gone = self.files.remove(at);
                dropped = true;
                proof {
                    let after = files_of(self.files@);
                    assert(after =~= now.remove(at as int));
                    assert(after.take(at as int) =~= now.take(at as int));
                    assert(after.skip(at as int) =~= now.skip(at + 1));
                    assert forall|a: int, b: int| 0 <= a < b < after.len() implies (
                    #[trigger] after[a]).0 != (#[trigger] after[b]).0 by {
                        let x = if a < at {
                            a
                        } else {
                            a + 1
                        };
                        let y = if b < at {
                            b
                        } else {
                            b + 1
                        };
                        assert(after[a] == now[x] && after[b] == now[y]);
                    }
                    assert forall|k: int| 0 <= k < self.files@.len() implies (
                    #[trigger] self.files@[k]).1.stats.wf() by {
                        if k < at {
                            assert(self.files@[k] == owned[k]);
                        } else {
                            assert(self.files@[k] == owned[k + 1]);
                        }
                    }
                }
            }
            j += 1;
        }
        proof {
            assert(all.take(all.len() as int) =~= all);
            assert(files_of(self.files@).take(at as int) =~= files_of(self.files@));
        }
        dropped
    }
}

fn same_day(last: &Option<Day>, today: Day) -> (r: bool)
    ensures
        r == (*last == Some(today)),
{
    match last {
        Some(day) => *day == today,
        None => false,
    }
}

fn same_month(last: &Option<Month>, month: Month) -> (r: bool)
    ensures
        r == (*last == Some(month)),
{
    match last {
        Some(m) => *m == month,
        None => false,
    }
}

/// Brings the cache up to date with the session files that were found, and adds up on `today`
/// what they hold.
///
/// Only files that are new or that changed are read; `read` gives the text of the file with the
/// given number in `found`, if there is one, and is asked of no other. Files that were not found
/// are dropped. Whether anything was read or not, the result is what all files in the cache add up
/// to.
pub fn collect_stats_cached<R: Fn(usize) -> Option<String>, F: Fn(String) -> String>(
    cache: &mut StatsCache,
    today: Day,
    found: &Vec<FoundFile>,
    read: &R,
    normalize: &F,
) -> (stats: Stats)
    requires
        old(cache).wf(),
        forall|i: usize, fresh: Seq<FileStatsView>|
            i < found@.len() && wanted(
                #[trigger] all_scanned(files_of(old(cache).files@), found@.take(i as int), fresh),
                found@[i as int],
            ) ==> call_requires(*read, (i,)),
        forall|name: String| call_requires(*normalize, (name,)),
    ensures
        final(cache).wf(),
        stats.wf(),
        exists|fresh: Seq<FileStatsView>|
            all_fresh_fit(*read, *normalize, files_of(old(cache).files@), found@, fresh)
                && files_of(final(cache).files@) == kept(
                #[trigger] all_scanned(files_of(old(cache).files@), found@, fresh),
                found@,
            ),
        stats@ == aggregated(
            stats_of(files_of(final(cache).files@)),
            today,
            today.spec_month(),
        ),
        final(cache).last_stats is Some && final(cache).last_stats->0@ == stats@,
        final(cache).last_day == Some(today),
        final(cache).last_month == Some(today.spec_month()),
{
    let month = today.month_of();
    let mut changed = !same_day(&cache.last_day, today) || !same_month(&cache.last_month, month);
    let ghost start = *cache;
    let ghost files = files_of(cache.files@);
    let ghost mut fresh: Seq<FileStatsView> = Seq::empty();
    let mut seen: Vec<bool> = Vec::new();
    while seen.len() < cache.files.len()
        invariant
            seen@.len() <= cache.files@.len(),
            forall|k: int| 0 <= k < seen@.len() ==> !#[trigger] seen@[k],
        decreases cache.files@.len() - seen@.len(),
    {
        seen.push(false);
    }
    let mut hint: usize = 0;
    let mut j: usize = 0;
    proof {
        assert(found@.take(0) =~= Seq::empty());
    }
    while j < found.len()
        invariant
            j <= found@.len(),
            cache.files_wf(),
            cache.last_stats == start.last_stats,
            cache.last_day == start.last_day,
            cache.last_month == start.last_month,
            forall|i: usize, fresh: Seq<FileStatsView>|
                i < found@.len() && wanted(
                    #[trigger] all_scanned(files, found@.take(i as int), fresh),
                    found@[i as int],
                ) ==> call_requires(*read, (i,)),
            forall|name: String| call_requires(*normalize, (name,)),
            all_fresh_fit(*read, *normalize, files, found@.take(j as int), fresh),
            files_of(cache.files@) == all_scanned(files, found@.take(j as int), fresh),
            !changed ==> files_of(cache.files@) == files && start.last_day == Some(today)
                && start.last_month == Some(month),
            seen@.len() == cache.files@.len(),
            forall|k: int|
                0 <= k < seen@.len() ==> #[trigger] seen@[k] == is_found(
                    found@.take(j as int),
                    files_of(cache.files@)[k].0,
                ),
        decreases found@.len() - j,
    {
        let ghost before = files_of(cache.files@);
        let ghost marks = seen@;
        let (at, was_read) = cache.look_at(&found[j], hint, read, normalize, j);
        let ghost after = files_of(cache.files@);
        if was_read {
            changed = true;
        }
        if seen.len() < cache.files.len() {
            seen.push(false);
        }
        if let Some(k) = at {
            seen.set(k, true);
            hint = k + 1;
        }
        proof {
            let last = choose|last: FileStatsView| #[trigger]
                scanned(before, found@[j as int], last) == after && (was_read ==> fresh_fits(
                    *read,
                    *normalize,
                    j,
                    last,
                ));
            lemma_one_more(*read, *normalize, files, found@, fresh, j as int, last);
            fresh = fresh.push(last);
            assert forall|k: int| 0 <= k < seen@.len() implies #[trigger] seen@[k] == is_found(
                found@.take(j + 1),
                after[k].0,
            ) by {
                lemma_found_take(found@, j as int, after[k].0);
                if k < before.len() {
                    assert(marks[k] == is_found(found@.take(j as int), before[k].0));
                    assert(after[k].0 == before[k].0);
                    if at is Some && k != at->0 {
                        assert(after[k].0 != after[at->0 as int].0);
                    }
                } else {
                    assert(at is Some);
                    if at->0 != k {
                        assert(after[at->0 as int].0 == before[at->0 as int].0);
                    }
                }
            }
        }
        j += 1;
    }
    proof {
        assert(found@.take(found@.len() as int) =~= found@);
    }
    let ghost scan = files_of(cache.files@);
    let dropped = cache.drop_unseen(seen, found);
    if dropped {
        changed = true;
    }
    proof {
        assert(files_of(cache.files@) == kept(all_scanned(files, found@, fresh), found@));
    }
    if !changed {
        if let Some(stats) = &cache.last_stats {
            return stats.duplicate();
        }
    }
    let stats = aggregate_cached_stats(cache, today, month);
    cache.last_day = Some(today);
    cache.last_month = Some(month);
    cache.last_stats = Some(stats.duplicate());
    stats
}

/// The clock at the three points of a collection at which it is read.
#[derive(Clone, Copy, Debug, PartialEq, Eq, Structural)]
pub struct CollectClock {
    /// When the limits of the files are first looked at.
    pub first: i64,
    /// When they are looked at again, because the account service failed.
    pub checked_at: i64,
    /// When the status is made.
    pub fetched_at: i64,
}

impl CollectClock {
    /// Whether the clock can show these seconds.
    pub open spec fn wf(self) -> bool {
        is_second(self.first) && is_second(self.checked_at) && is_second(self.fetched_at)
    }

    /// Whether each is a second that the clock showed when it was read.
    pub open spec fn was_read(self) -> bool {
        &&& second_was_read(self.first)
        &&& second_was_read(self.checked_at)
        &&& second_was_read(self.fetched_at)
    }
}

/// `sum`, what the files add up to, with the status of the account. The limits of the files are
/// looked at only where they are current, and used only where the account service failed.
pub open spec fn collected(
    sum: StatsView,
    live: Reply,
    auth_present: bool,
    clock: CollectClock,
) -> StatsView {
    with_status(
        sum,
        resolved(
            shown_at(sum.rate_limits, clock.first),
            live,
            auth_text(auth_present),
            clock.checked_at,
            clock.fetched_at,
        ),
    )
}

/// Puts the status of the account to what the files add up to, with the clock at `clock`. `live`
/// is what the account service replied; `auth_present` says whether the file of the login is
/// there.
pub fn put_status(
    stats: &mut Stats,
    live: Result<RateLimits, String>,
    auth_present: bool,
    clock: CollectClock,
)
    requires
        old(stats).wf(),
    ensures
        final(stats).wf(),
        final(stats)@ == collected(old(stats)@, reply_of(live), auth_present, clock),
{
    let local = match &stats.rate_limits {
        Some(rate) => display_rate_limits_at(rate, clock.first),
        None => None,
    };
    let status = resolve_codex_status_at(
        local,
        live,
        auth_status_label(auth_present),
        clock.checked_at,
        clock.fetched_at,
    );
    apply_status(stats, status);
}

/// Brings the cache up to date with the session files that were found, adds up what they hold,
/// and puts the status of the account to it, with the clock at `clock`.
pub fn collect_stats_at<R: Fn(usize) -> Option<String>, F: Fn(String) -> String>(
    cache: &mut StatsCache,
    today: Day,
    found: &Vec<FoundFile>,
    read: &R,
    normalize: &F,
    live: Result<RateLimits, String>,
    auth_present: bool,
    clock: CollectClock,
) -> (stats: Stats)
    requires
        old(cache).wf(),
        forall|i: usize, fresh: Seq<FileStatsView>|
            i < found@.len() && wanted(
                #[trigger] all_scanned(files_of(old(cache).files@), found@.take(i as int), fresh),
                found@[i as int],
            ) ==> call_requires(*read, (i,)),
        forall|name: String| call_requires(*normalize, (name,)),
    ensures
        final(cache).wf(),
        stats.wf(),
        exists|fresh: Seq<FileStatsView>|
            all_fresh_fit(*read, *normalize, files_of(old(cache).files@), found@, fresh)
                && files_of(final(cache).files@) == kept(
                #[trigger] all_scanned(files_of(old(cache).files@), found@, fresh),
                found@,
            ),
        stats@ == collected(
            aggregated(stats_of(files_of(final(cache).files@)), today, today.spec_month()),
            reply_of(live),
            auth_present,
            clock,
        ),
{
    let mut stats = collect_stats_cached(cache, today, found, read, normalize);
    put_status(&mut stats, live, auth_present, clock);
    stats
}

/// Brings the cache up to date with the session files that were found, adds up what they hold,
/// and puts the status of the account to it, now.
pub fn collect_stats<R: Fn(usize) -> Option<String>, F: Fn(String) -> String>(
    cache: &mut StatsCache,
    today: Day,
    found: &Vec<FoundFile>,
    read: &R,
    normalize: &F,
    live: Result<RateLimits, String>,
    auth_present: bool,
) -> (stats: Stats)
    requires
        old(cache).wf(),
        forall|i: usize, fresh: Seq<FileStatsView>|
            i < found@.len() && wanted(
                #[trigger] all_scanned(files_of(old(cache).files@), found@.take(i as int), fresh),
                found@[i as int],
            ) ==> call_requires(*read, (i,)),
        forall|name: String| call_requires(*normalize, (name,)),
    ensures
        final(cache).wf(),
        stats.wf(),
        exists|fresh: Seq<FileStatsView>|
            all_fresh_fit(*read, *normalize, files_of(old(cache).files@), found@, fresh)
                && files_of(final(cache).files@) == kept(
                #[trigger] all_scanned(files_of(old(cache).files@), found@, fresh),
                found@,
            ),
        exists|clock: CollectClock|
            clock.wf() && clock.was_read() && stats@ == #[trigger] collected(
                aggregated(stats_of(files_of(final(cache).files@)), today, today.spec_month()),
                reply_of(live),
                auth_present,
                clock,
            ),
{
    let mut stats = collect_stats_cached(cache, today, found, read, normalize);
    let first = clock_now().secs;
    let checked_at = clock_now().secs;
    let fetched_at = clock_now().secs;
    put_status(&mut stats, live, auth_present, CollectClock { first, checked_at, fetched_at });
    stats
}

proof fn lemma_all_kept(
    files: FilesView,
    p: spec_fn((Seq<u8>, CachedFileView)) -> bool,
)
    requires
        forall|k: int| 0 <= k < files.len() ==> p(#[trigger] files[k]),
    ensures
        files.filter(p) == files,
    decreases files.len(),
{
    reveal(Seq::filter);
    if files.len() > 0 {
        let front = files.drop_last();
        assert forall|k: int| 0 <= k < front.len() implies p(#[trigger] front[k]) by {
            assert(front[k] == files[k]);
        }
        lemma_all_kept(front, p);
        assert(p(files[files.len() - 1]));
        assert(files =~= front.push(files.last()));
    }
}

/// Files that did not change since they were read are not read again: none of them has to be read
/// when its turn comes.
pub proof fn law_unchanged_files_are_not_read_again(
    files: FilesView,
    found: Seq<FoundFile>,
    fresh: Seq<FileStatsView>,
    i: int,
)
    requires
        0 <= i < found.len(),
        forall|j: int|
            0 <= j < found.len() && (#[trigger] found[j]).key is Some ==> !is_stale(
                files,
                found[j].path@,
                found[j].key->0,
            ),
    ensures
        !wanted(all_scanned(files, found.take(i), fresh), found[i]),
{
    let front = found.take(i);
    assert forall|j: int|
        0 <= j < front.len() && (#[trigger] front[j]).key is Some implies !is_stale(
            files,
            front[j].path@,
            front[j].key->0,
        ) by {
        assert(front[j] == found[j]);
    }
    lemma_nothing_stale(files, front, fresh);
}

/// Looking at files that did not change since they were read changes nothing, whatever a second
/// reading would bring.
pub proof fn law_reading_unchanged_files_again_changes_nothing(
    files: FilesView,
    found: Seq<FoundFile>,
    fresh: Seq<FileStatsView>,
)
    requires
        fresh.len() == found.len(),
        forall|i: int|
            0 <= i < found.len() && (#[trigger] found[i]).key is Some ==> !is_stale(
                files,
                found[i].path@,
                found[i].key->0,
            ),
        forall|k: int| 0 <= k < files.len() ==> is_found(found, (#[trigger] files[k]).0),
    ensures
        kept(all_scanned(files, found, fresh), found) == files,
{
    lemma_nothing_stale(files, found, fresh);
    lemma_all_kept(files, |f: (Seq<u8>, CachedFileView)| is_found(found, f.0));
}

proof fn lemma_nothing_stale(
    files: FilesView,
    found: Seq<FoundFile>,
    fresh: Seq<FileStatsView>,
)
    requires
        forall|i: int|
            0 <= i < found.len() && (#[trigger] found[i]).key is Some ==> !is_stale(
                files,
                found[i].path@,
                found[i].key->0,
            ),
    ensures
        all_scanned(files, found, fresh) == files,
    decreases found.len(),
{
    if found.len() > 0 {
        let front = found.drop_last();
        assert forall|i: int|
            0 <= i < front.len() && (#[trigger] front[i]).key is Some implies !is_stale(
                files,
                front[i].path@,
                front[i].key->0,
            ) by {
            assert(front[i] == found[i]);
        }
        lemma_nothing_stale(files, front, fresh.drop_last());
        assert(found[found.len() - 1] == found.last());
    }
}

/// Only files that were found stay.
pub proof fn law_files_that_are_gone_are_dropped(
    files: FilesView,
    found: Seq<FoundFile>,
    fresh: Seq<FileStatsView>,
    k: int,
)
    requires
        0 <= k < kept(all_scanned(files, found, fresh), found).len(),
    ensures
        is_found(found, kept(all_scanned(files, found, fresh), found)[k].0),
{
    all_scanned(files, found, fresh).lemma_filter_pred(
        |f: (Seq<u8>, CachedFileView)| is_found(found, f.0),
        k,
    );
}

proof fn lemma_scan_keeps_paths_distinct(
    files: FilesView,
    found: Seq<FoundFile>,
    fresh: Seq<FileStatsView>,
)
    requires
        distinct(files),
    ensures
        distinct(all_scanned(files, found, fresh)),
    decreases found.len(),
{
    if found.len() > 0 {
        lemma_scan_keeps_paths_distinct(files, found.drop_last(), fresh.drop_last());
        let before = all_scanned(files, found.drop_last(), fresh.drop_last());
        lemma_scan(before, found.last(), fresh.last());
    }
}

/// What one scan does: each other file stays where it is, and the file that was found is there
/// with its size and moment, if it has them.
proof fn lemma_scan(before: FilesView, found: FoundFile, fresh: FileStatsView)
    requires
        distinct(before),
    ensures
        distinct(scanned(before, found, fresh)),
        forall|k: int|
            0 <= k < before.len() && before[k].0 != found.path@ ==> k < scanned(
                before,
                found,
                fresh,
            ).len() && #[trigger] scanned(before, found, fresh)[k] == before[k],
        found.key is Some ==> exists|k: int|
            #[trigger] stands_at(scanned(before, found, fresh), found.path@, k) && has_key(
                scanned(before, found, fresh)[k].1,
                found.key->0,
            ),
{
    let path = found.path@;
    let after = scanned(before, found, fresh);
    if found.key is Some {
        let key = found.key->0;
        let file = CachedFileView { len: key.0, modified_ns: key.1, stats: fresh };
        if exists|i: int| stands_at(before, path, i) {
            let i = choose|i: int| stands_at(before, path, i);
            lemma_table_at(before, i);
            lemma_stored_at(before, i, file);
            assert(stands_at(after, path, i));
        } else {
            assert forall|i: int| 0 <= i < before.len() implies (#[trigger] before[i]).0
                != path by {
                assert(!stands_at(before, path, i));
            }
            lemma_table_without(before, path);
            lemma_stored_new(before, path, file);
            assert(stands_at(after, path, before.len() as int));
        }
    }
}

/// Whether `path` stands in `files` with the size and moment `key`.
pub open spec fn up_to_date(files: FilesView, path: Seq<u8>, key: (u64, u128)) -> bool {
    exists|k: int|
        #[trigger] stands_at(files, path, k) && has_key(files[k].1, key)
}

proof fn lemma_scan_brings_up_to_date(
    files: FilesView,
    found: Seq<FoundFile>,
    fresh: Seq<FileStatsView>,
    i: int,
)
    requires
        distinct(files),
        0 <= i < found.len(),
        found[i].key is Some,
        forall|j: int| i < j < found.len() ==> (#[trigger] found[j]).path@ != found[i].path@,
    ensures
        up_to_date(all_scanned(files, found, fresh), found[i].path@, found[i].key->0),
    decreases found.len(),
{
    let front = found.drop_last();
    let before = all_scanned(files, front, fresh.drop_last());
    let after = all_scanned(files, found, fresh);
    lemma_scan_keeps_paths_distinct(files, front, fresh.drop_last());
    lemma_scan(before, found.last(), fresh.last());
    if i < found.len() - 1 {
        assert(front[i] == found[i]);
        assert forall|j: int| i < j < front.len() implies (#[trigger] front[j]).path@
            != front[i].path@ by {
            assert(front[j] == found[j]);
        }
        lemma_scan_brings_up_to_date(files, front, fresh.drop_last(), i);
        let path = found[i].path@;
        let key = found[i].key->0;
        let k = choose|k: int|
            #[trigger] stands_at(before, path, k) && has_key(before[k].1, key);
        assert(found[found.len() - 1].path@ != path);
        assert(after[k] == before[k]);
        assert(stands_at(after, path, k));
    }
}

/// After a look at the files, each file that was found with its size and moment stands in the
/// cache with just these.
pub proof fn law_found_files_are_up_to_date(
    files: FilesView,
    found: Seq<FoundFile>,
    fresh: Seq<FileStatsView>,
    i: int,
)
    requires
        distinct(files),
        fresh.len() == found.len(),
        0 <= i < found.len(),
        found[i].key is Some,
        forall|j: int| i < j < found.len() ==> (#[trigger] found[j]).path@ != found[i].path@,
    ensures
        up_to_date(
            kept(all_scanned(files, found, fresh), found),
            found[i].path@,
            found[i].key->0,
        ),
{
    lemma_scan_brings_up_to_date(files, found, fresh, i);
    let scan = all_scanned(files, found, fresh);
    let path = found[i].path@;
    let key = found[i].key->0;
    let k = choose|k: int|
        #[trigger] stands_at(scan, path, k) && has_key(scan[k].1, key);
    let p = |f: (Seq<u8>, CachedFileView)| is_found(found, f.0);
    assert(p(scan[k]));
    scan.lemma_filter_contains(p, k);
    let m = choose|m: int| 0 <= m < scan.filter(p).len() && scan.filter(p)[m] == scan[k];
    assert(stands_at(kept(scan, found), path, m));
}

/// The status of a collection follows from the reply of the account service, from the limits in the
/// session files and from the clock: the limits of the service come first; where it failed, those of
/// the files stand in while the second at which their primary window resets lies ahead both times
/// that it is looked at; and else there are none. The counts stay as the files add them up.
pub proof fn law_a_collection_holds_the_limits_that_hold_now(
    sum: StatsView,
    live: Reply,
    auth_present: bool,
    clock: CollectClock,
)
    ensures
        ({
            let stats = collected(sum, live, auth_present, clock);
            let open = match sum.rate_limits {
                Some(rate) => match rate.primary.resets_at {
                    Some(reset) => clock.first < reset && clock.checked_at < reset,
                    None => false,
                },
                None => false,
            };
            &&& match live {
                Reply::Limits(limits) => stats.status_source == StatusSource::LiveAppServer
                    && stats.rate_limits == Some(limits) && stats.status_error is None,
                Reply::Failed(error) => stats.status_error == Some(error) && if open {
                    stats.status_source == StatusSource::LocalSessionJsonl && stats.rate_limits
                        == sum.rate_limits
                } else {
                    stats.status_source == StatusSource::Unavailable && stats.rate_limits is None
                },
            }
            &&& stats.status_fetched_at == Some(clock.fetched_at)
            &&& auth_present ==> stats.auth_status == "ChatGPT/Codex auth configured"@
            &&& !auth_present ==> stats.auth_status == "Auth not found (run: codex login)"@
            &&& stats.total == sum.total && stats.today == sum.today && stats.month == sum.month
            &&& stats.by_model == sum.by_model && stats.today_by_model == sum.today_by_model
            &&& stats.month_by_model == sum.month_by_model
            &&& stats.files_seen == sum.files_seen && stats.events_seen == sum.events_seen
        }),
{
}

/// A window that ended before a collection is not its status: where the primary window of the session
/// files ended at `ended`, no reading of the clock lies before that, and the account service failed,
/// there is no source and there are no limits.
pub proof fn law_windows_that_ended_before_are_no_status(
    sum: StatsView,
    error: Seq<char>,
    auth_present: bool,
    clock: CollectClock,
    ended: i64,
)
    requires
        sum.rate_limits is Some,
        sum.rate_limits->0.primary.resets_at == Some(ended),
        ended <= clock.first || ended <= clock.checked_at,
    ensures
        ({
            let stats = collected(sum, Reply::Failed(error), auth_present, clock);
            &&& stats.status_source == StatusSource::Unavailable
            &&& stats.rate_limits is None
            &&& stats.status_error == Some(error)
        }),
{
}

/// A file has to be read exactly where its size and moment are known and it does not stand in the
/// cache with just these.
pub proof fn law_files_are_read_when_they_changed(files: FilesView, found: FoundFile)
    requires
        distinct(files),
    ensures
        wanted(files, found) <==> match found.key {
            Some((len, modified_ns)) => !(exists|i: int|
                0 <= i < files.len() && (#[trigger] files[i]).0 == found.path@ && files[i].1.len
                    == len && files[i].1.modified_ns == modified_ns),
            None => false,
        },
{
    let path = found.path@;
    if exists|i: int| 0 <= i < files.len() && (#[trigger] files[i]).0 == path {
        let i = choose|i: int| 0 <= i < files.len() && (#[trigger] files[i]).0 == path;
        lemma_table_at(files, i);
    } else {
        lemma_table_without(files, path);
    }
}

/// Looking at a file that has to be read puts what it holds now under its path, with its size and
/// moment; looking at any other file changes nothing. Either way all other files stay.
#[verifier::rlimit(30)]
pub proof fn law_a_file_that_is_read_is_kept_as_it_is_now(
    files: FilesView,
    found: FoundFile,
    fresh: FileStatsView,
    k: int,
)
    requires
        distinct(files),
        0 <= k < files.len(),
        files[k].0 != found.path@,
    ensures
        ({
            let after = scanned(files, found, fresh);
            let key = found.key->0;
            &&& !wanted(files, found) ==> after == files
            &&& wanted(files, found) ==> exists|i: int|
                0 <= i < after.len() && #[trigger] after[i] == (
                    found.path@,
                    CachedFileView { len: key.0, modified_ns: key.1, stats: fresh },
                )
            &&& k < after.len() && after[k] == files[k]
        }),
{
    lemma_scan(files, found, fresh);
    let path = found.path@;
    let after = scanned(files, found, fresh);
    assert(after[k] == files[k]);
    if wanted(files, found) {
        let key = found.key->0;
        let file = CachedFileView { len: key.0, modified_ns: key.1, stats: fresh };
        if exists|i: int| stands_at(files, path, i) {
            let i = choose|i: int| stands_at(files, path, i);
            lemma_stored_at(files, i, file);
            assert(after[i] == (path, file));
        } else {
            assert forall|i: int| 0 <= i < files.len() implies (#[trigger] files[i]).0 != path by {
                assert(!stands_at(files, path, i));
            }
            lemma_stored_new(files, path, file);
            assert(after[files.len() as int] == (path, file));
        }
    }
}

/// A file that could not be read holds nothing, and one that could holds what its lines add up to.
pub proof fn law_files_hold_what_their_lines_add_up_to<F: Fn(String) -> String>(
    normalize: F,
    content: Option<String>,
    fresh: FileStatsView,
)
    requires
        content_fits(normalize, content, fresh),
    ensures
        content is Some ==> can_add_up_to(normalize, lines_of(content->0@), fresh),
        content is None ==> fresh.total == no_usage() && fresh.events_seen == 0
            && fresh.rate_limits is None,
{
}

/// Every file in the cache counts, each with its own statistics.
pub proof fn law_every_file_in_the_cache_counts(files: FilesView, i: int)
    ensures
        stats_of(files).len() == files.len(),
        0 <= i < files.len() ==> stats_of(files)[i] == files[i].1.stats,
{
}

} // verus!
