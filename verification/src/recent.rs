//! The bounded most-recently-opened file list.
//!
//! Newest first, one entry per path, capped at `MAX_RECENT`.  The list is
//! pure bookkeeping over values: probing the filesystem and persisting the
//! list are the surrounding application's work.

use vstd::prelude::*;

use crate::paths::{filename_of, get_filename};
use crate::tail::FileMeta;

verus! {

/// Most entries the list keeps.
pub const MAX_RECENT: usize = 20;

/// One recently opened file.
#[derive(Debug)]
pub struct RecentFile {
    /// Full path of the file.
    pub path: String,
    /// Its display name.
    pub name: String,
    /// When it was last opened, in milliseconds since the epoch.
    pub last_opened: i64,
    /// Modification time at the last probe, where the file existed.
    pub mtime: Option<i64>,
    /// Size at the last probe, where the file existed.
    pub size: Option<u64>,
    /// Whether the file existed at the last probe.
    pub exists: bool,
}

/// Relies on `std::time::SystemTime::now` and chrono's total
/// `DateTime::from_timestamp` / `timestamp_millis`: the wall clock in
/// milliseconds since the epoch, or `None` when the clock reads before the
/// epoch or outside the representable range.  Every failure arm of the
/// calls becomes `None`; nothing is promised of the value.
#[verifier::external_body]
fn now_millis() -> Option<i64> {
    let since_epoch = std::time::SystemTime::now()
        .duration_since(std::time::UNIX_EPOCH)
        .ok()?;
    chrono::DateTime::from_timestamp(since_epoch.as_secs() as i64, since_epoch.subsec_nanos())
        .map(|t| t.timestamp_millis())
}

/// `l` with every entry for path `p` removed, order kept.
pub open spec fn without_path(l: Seq<RecentFile>, p: Seq<char>) -> Seq<RecentFile>
    decreases l.len(),
{
    if l.len() == 0 {
        Seq::empty()
    } else if l[0].path@ == p {
        without_path(l.skip(1), p)
    } else {
        seq![l[0]] + without_path(l.skip(1), p)
    }
}

/// What adding an entry yields: the entry in front of the other paths'
/// entries, cut back to `MAX_RECENT`.
pub open spec fn add_model(l: Seq<RecentFile>, e: RecentFile) -> Seq<RecentFile> {
    let kept = seq![e] + without_path(l, e.path@);
    if kept.len() <= MAX_RECENT {
        kept
    } else {
        kept.take(MAX_RECENT as int)
    }
}

/// `without_path` never grows the list and leaves no entry for `p` behind.
pub proof fn lemma_without_path(l: Seq<RecentFile>, p: Seq<char>)
    ensures
        without_path(l, p).len() <= l.len(),
        forall|i: int| 0 <= i < without_path(l, p).len() ==> without_path(l, p)[i].path@ != p,
    decreases l.len(),
{
    if l.len() > 0 {
        lemma_without_path(l.skip(1), p);
    }
}

/// A list with no entry for `p` is untouched by `without_path`.
pub proof fn lemma_without_path_absent(l: Seq<RecentFile>, p: Seq<char>)
    requires
        forall|i: int| 0 <= i < l.len() ==> l[i].path@ != p,
    ensures
        without_path(l, p) == l,
    decreases l.len(),
{
    if l.len() > 0 {
        assert forall|i: int| 0 <= i < l.skip(1).len() implies l.skip(1)[i].path@ != p by {
            assert(l.skip(1)[i] == l[i + 1]);
        }
        lemma_without_path_absent(l.skip(1), p);
        assert(seq![l[0]] + l.skip(1) =~= l);
    }
}

/// Adding the same path twice leaves exactly one entry for it: the second
/// one, at the front.
pub proof fn lemma_add_same_path_twice(l: Seq<RecentFile>, e1: RecentFile, e2: RecentFile)
    requires
        e1.path@ == e2.path@,
    ensures
        ({
            let l2 = add_model(add_model(l, e1), e2);
            &&& l2.len() >= 1
            &&& l2[0] == e2
            &&& (forall|i: int| 1 <= i < l2.len() ==> l2[i].path@ != e2.path@)
        }),
{
    let l1 = add_model(l, e1);
    let kept = seq![e2] + without_path(l1, e2.path@);
    lemma_without_path(l1, e2.path@);
    assert(kept[0] == e2);
    let l2 = add_model(l1, e2);
    assert forall|i: int| 1 <= i < l2.len() implies l2[i].path@ != e2.path@ by {
        assert(l2[i] == kept[i]);
        assert(kept[i] == without_path(l1, e2.path@)[i - 1]);
    }
}

/// Adding a new path to a full list of other paths drops the oldest entry:
/// the new entry stands in front and the rest shift back by one.
pub proof fn lemma_add_to_full(l: Seq<RecentFile>, e: RecentFile)
    requires
        l.len() == MAX_RECENT,
        forall|i: int| 0 <= i < l.len() ==> l[i].path@ != e.path@,
    ensures
        add_model(l, e).len() == MAX_RECENT,
        add_model(l, e)[0] == e,
        forall|i: int| 1 <= i < MAX_RECENT ==> add_model(l, e)[i] == l[i - 1],
{
    lemma_without_path_absent(l, e.path@);
}

/// The most-recently-opened list, newest first.
pub struct RecentList {
    /// The entries, most recent in front.
    pub entries: Vec<RecentFile>,
}

impl RecentList {
    /// An empty list.
    pub fn new() -> (r: RecentList)
        ensures
            r.entries@ == Seq::<RecentFile>::empty(),
    {
        RecentList { entries: Vec::new() }
    }

    /// Remove every entry for `path`, keeping the rest in order.
    fn remove_path(&mut self, path: &String)
        ensures
            final(self).entries@ == without_path(old(self).entries@, path@),
    {
        let mut kept: Vec<RecentFile> = Vec::new();
        while self.entries.len() > 0
            invariant
                without_path(old(self).entries@, path@) == kept@ + without_path(
                    self.entries@,
                    path@,
                ),
            decreases self.entries@.len(),
        {
            let ghost before = self.entries@;
            let f = self.entries.remove(0);
            proof {
                assert(before.remove(0) =~= before.skip(1));
            }
            if f.path == *path {
                proof {
                    assert(without_path(before, path@) == without_path(before.skip(1), path@));
                }
            } else {
                proof {
                    assert(kept@ + (seq![f] + without_path(before.skip(1), path@)) =~= kept@.push(f)
                        + without_path(before.skip(1), path@));
                }
                kept.push(f);
            }
        }
        proof {
            assert(kept@ + without_path(self.entries@, path@) =~= kept@);
        }
        self.entries = kept;
    }

    /// Record that `entry.path` was opened: any prior entry for the path is
    /// removed, the entry goes to the front, and the list is cut back to
    /// `MAX_RECENT`.
    pub fn add(&mut self, entry: RecentFile)
        ensures
            final(self).entries@ == add_model(old(self).entries@, entry),
            final(self).entries@.len() <= MAX_RECENT,
            final(self).entries@[0] == entry,
            (forall|i: int| 1 <= i < final(self).entries@.len() ==> final(self).entries@[i].path@
                != entry.path@),
    {
        let ghost orig = self.entries@;
        let ghost p = entry.path@;
        self.remove_path(&entry.path);
        let ghost kept = self.entries@;
        self.entries.insert(0, entry);
        proof {
            assert(orig.remove(0) =~= orig.skip(1));
            assert(kept.insert(0, entry) =~= seq![entry] + kept);
        }
        if self.entries.len() > MAX_RECENT {
            proof {
                assert((seq![entry] + kept).subrange(0, MAX_RECENT as int) =~= (seq![entry]
                    + kept).take(MAX_RECENT as int));
            }
            self.entries.truncate(MAX_RECENT);
        }
        proof {
            lemma_without_path(orig, p);
        }
    }

    /// Remove the entry for `path`, if any.  An empty path is rejected.
    pub fn remove(&mut self, path: &String) -> (r: bool)
        ensures
            (path@.len() == 0 ==> !r && final(self).entries@ == old(self).entries@),
            (path@.len() > 0 ==> r && final(self).entries@ == without_path(
                old(self).entries@,
                path@,
            )),
    {
        if path.as_str().is_empty() {
            return false;
        }
        self.remove_path(path);
        true
    }

    /// Drop every entry.
    pub fn clear(&mut self)
        ensures
            final(self).entries@ == Seq::<RecentFile>::empty(),
    {
        self.entries.clear();
    }
}

/// Build the entry recording that `path` was opened at `now`, with the
/// freshly probed metadata (`None`: the file is gone).
pub fn make_entry(path: &String, now: i64, meta: Option<&FileMeta>) -> (r: RecentFile)
    ensures
        r.path@ == path@,
        r.name@ == filename_of(path@),
        r.last_opened == now,
        (meta matches Some(m) ==> r.exists && r.size == Some(m.size) && r.mtime == m.mtime),
        (meta is None ==> !r.exists && r.size is None && r.mtime is None),
{
    match meta {
        Some(m) => RecentFile {
            path: path.clone(),
            name: get_filename(path.as_str()),
            last_opened: now,
            mtime: m.mtime,
            size: Some(m.size),
            exists: true,
        },
        None => RecentFile {
            path: path.clone(),
            name: get_filename(path.as_str()),
            last_opened: now,
            mtime: None,
            size: None,
            exists: false,
        },
    }
}

/// Record that `path` was opened now: an empty path is rejected; otherwise
/// a fresh entry — stamped with the wall clock, or with the epoch when the
/// clock is unusable — is added to the list, which is exactly `add_model`
/// of it.
pub fn add_recent_file(list: &mut RecentList, path: &String, meta: Option<&FileMeta>) -> (r: bool)
    ensures
        (path@.len() == 0 ==> !r && final(list).entries@ == old(list).entries@),
        (path@.len() > 0 ==> r && final(list).entries@.len() >= 1 && ({
            let e = final(list).entries@[0];
            &&& e.path@ == path@
            &&& e.name@ == filename_of(path@)
            &&& (meta matches Some(m) ==> e.exists && e.size == Some(m.size) && e.mtime == m.mtime)
            &&& (meta is None ==> !e.exists && e.size is None && e.mtime is None)
            &&& final(list).entries@ == add_model(old(list).entries@, e)
        })),
{
    if path.as_str().is_empty() {
        return false;
    }
    let now = match now_millis() {
        Some(t) => t,
        None => 0,
    };
    let entry = make_entry(path, now, meta);
    list.add(entry);
    true
}

/// Refresh one stored entry against a fresh probe of the filesystem
/// (`None`: the file is gone): `exists`, `size` and `mtime` are re-derived,
/// everything else is kept.
pub fn refresh_entry(entry: &mut RecentFile, meta: Option<&FileMeta>)
    ensures
        final(entry).path == old(entry).path,
        final(entry).name == old(entry).name,
        final(entry).last_opened == old(entry).last_opened,
        (meta matches Some(m) ==> final(entry).exists && final(entry).size == Some(m.size)
            && final(entry).mtime == m.mtime),
        (meta is None ==> !final(entry).exists && final(entry).size is None && final(entry).mtime
            is None),
{
    match meta {
        Some(m) => {
            entry.exists = true;
            entry.size = Some(m.size);
            entry.mtime = m.mtime;
        },
        None => {
            entry.exists = false;
            entry.size = None;
            entry.mtime = None;
        },
    }
}

} // verus!
