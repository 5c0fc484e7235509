//! The debounce-and-filter stage of folder change detection.
//!
//! Filesystem notification backends emit bursts of duplicate events for one
//! logical write. The [`Debouncer`] turns a stream of raw events into at most
//! one normalized [`WatchEvent`] per path per debounce window, and drops
//! events for unsupported extensions, for directories, and of kinds other
//! than create and modify.

use vstd::prelude::*;

use crate::text::{ext_is, ext_is_str, to_chars};

verus! {

/// Minimum time in milliseconds between accepted events for the same path.
pub const DEBOUNCE_MS: u64 = 500;

/// A normalized change notification for one file.
#[derive(Debug, Clone)]
pub enum WatchEvent {
    FileCreated(String),
    FileModified(String),
}

/// The raw event kinds the debounce stage distinguishes; anything that is
/// neither a creation nor a modification is dropped.
#[derive(Debug, Clone, Copy, PartialEq, Eq, Structural)]
pub enum RawEventKind {
    Create,
    Modify,
    Other,
}

/// Extensions the pipeline watches; events for anything else are dropped
/// before they reach the classifier.
pub open spec fn supported_ext(p: Seq<char>) -> bool {
    ||| ext_is(p, "json"@)
    ||| ext_is(p, "csv"@)
    ||| ext_is(p, "txt"@)
    ||| ext_is(p, "md"@)
    ||| ext_is(p, "js"@)
    ||| ext_is(p, "ts"@)
    ||| ext_is(p, "jsx"@)
    ||| ext_is(p, "tsx"@)
    ||| ext_is(p, "pdf"@)
    ||| ext_is(p, "png"@)
    ||| ext_is(p, "jpg"@)
    ||| ext_is(p, "jpeg"@)
    ||| ext_is(p, "gif"@)
    ||| ext_is(p, "svg"@)
    ||| ext_is(p, "html"@)
    ||| ext_is(p, "xml"@)
    ||| ext_is(p, "yaml"@)
    ||| ext_is(p, "yml"@)
    ||| ext_is(p, "toml"@)
    ||| ext_is(p, "log"@)
    ||| ext_is(p, "doc"@)
    ||| ext_is(p, "docx"@)
    ||| ext_is(p, "xls"@)
    ||| ext_is(p, "xlsx"@)
    ||| ext_is(p, "ppt"@)
    ||| ext_is(p, "pptx"@)
    ||| ext_is(p, "rtf"@)
}

/// Whether the extension of `path` is one the pipeline watches.
pub fn is_supported(path: &str) -> (r: bool)
    ensures
        r == supported_ext(path@),
{
    let pv = to_chars(path);
    ext_is_str(&pv, "json") || ext_is_str(&pv, "csv") || ext_is_str(&pv, "txt") || ext_is_str(
        &pv,
        "md",
    ) || ext_is_str(&pv, "js") || ext_is_str(&pv, "ts") || ext_is_str(&pv, "jsx") || ext_is_str(
        &pv,
        "tsx",
    ) || ext_is_str(&pv, "pdf") || ext_is_str(&pv, "png") || ext_is_str(&pv, "jpg") || ext_is_str(
        &pv,
        "jpeg",
    ) || ext_is_str(&pv, "gif") || ext_is_str(&pv, "svg") || ext_is_str(&pv, "html") || ext_is_str(
        &pv,
        "xml",
    ) || ext_is_str(&pv, "yaml") || ext_is_str(&pv, "yml") || ext_is_str(&pv, "toml")
        || ext_is_str(&pv, "log") || ext_is_str(&pv, "doc") || ext_is_str(&pv, "docx")
        || ext_is_str(&pv, "xls") || ext_is_str(&pv, "xlsx") || ext_is_str(&pv, "ppt")
        || ext_is_str(&pv, "pptx") || ext_is_str(&pv, "rtf")
}

/// The moment the debouncer last accepted an event for path `p`, if any:
/// the first matching entry wins.
pub open spec fn spec_find(entries: Seq<(String, u64)>, p: Seq<char>) -> Option<u64>
    decreases entries.len(),
{
    if entries.len() == 0 {
        Option::None
    } else if entries[0].0@ == p {
        Option::Some(entries[0].1)
    } else {
        spec_find(entries.drop_first(), p)
    }
}

/// An event at time `now` gets past the per-path window given the last
/// accepted time: always for an unseen path, otherwise only when the window
/// has elapsed.
pub open spec fn window_open(last: Option<u64>, now: u64) -> bool {
    match last {
        Option::None => true,
        Option::Some(t) => now - t >= DEBOUNCE_MS,
    }
}

/// The debounce stage, modelled over milliseconds handed in by the caller:
/// it remembers, per path, when it last accepted an event.
pub struct Debouncer {
    pub entries: Vec<(String, u64)>,
}

/// The debouncer accepts a supported, non-directory event for `path` at
/// time `now`.
pub open spec fn accepts(d: Debouncer, path: Seq<char>, is_dir: bool, now: u64) -> bool {
    supported_ext(path) && !is_dir && window_open(spec_find(d.entries@, path), now)
}

/// Updating the first entry for a path leaves every other path's record
/// unchanged.
proof fn lemma_find_update(entries: Seq<(String, u64)>, i: int, e: (String, u64), q: Seq<char>)
    requires
        0 <= i < entries.len(),
        entries[i].0@ == e.0@,
        forall|k: int| 0 <= k < i ==> (#[trigger] entries[k]).0@ != e.0@,
    ensures
        spec_find(entries.update(i, e), e.0@) == Option::Some(e.1),
        q != e.0@ ==> spec_find(entries.update(i, e), q) == spec_find(entries, q),
    decreases i,
{
    if i == 0 {
        assert(entries.update(0, e)[0] == e);
        assert(entries.update(0, e).drop_first() =~= entries.drop_first());
    } else {
        assert(entries.update(i, e)[0] == entries[0]);
        assert(entries.update(i, e).drop_first() =~= entries.drop_first().update(i - 1, e));
        lemma_find_update(entries.drop_first(), i - 1, e, q);
    }
}

/// Appending a record for a new path leaves every other path's record
/// unchanged and installs the new one.
proof fn lemma_find_push(entries: Seq<(String, u64)>, e: (String, u64), q: Seq<char>)
    requires
        spec_find(entries, e.0@) is None,
    ensures
        spec_find(entries.push(e), e.0@) == Option::Some(e.1),
        q != e.0@ ==> spec_find(entries.push(e), q) == spec_find(entries, q),
    decreases entries.len(),
{
    if entries.len() == 0 {
        assert(entries.push(e)[0] == e);
        assert(entries.push(e).drop_first() =~= Seq::<(String, u64)>::empty());
        assert(spec_find(entries.push(e), e.0@) == Option::Some(e.1));
        if q != e.0@ {
            assert(spec_find(entries.push(e), q) == spec_find(
                entries.push(e).drop_first(),
                q,
            ));
            assert(spec_find(entries.push(e), q) is None);
        }
    } else {
        assert(entries[0].0@ != e.0@);
        assert(entries.push(e)[0] == entries[0]);
        assert(entries.push(e).drop_first() =~= entries.drop_first().push(e));
        lemma_find_push(entries.drop_first(), e, q);
        assert(spec_find(entries.push(e), e.0@) == Option::Some(e.1));
        if q != e.0@ {
            if entries[0].0@ == q {
                assert(spec_find(entries.push(e), q) == spec_find(entries, q));
            } else {
                assert(spec_find(entries.push(e), q) == spec_find(
                    entries.drop_first().push(e),
                    q,
                ));
                assert(spec_find(entries, q) == spec_find(entries.drop_first(), q));
            }
        }
    }
}

impl Debouncer {
    /// A fresh debounce stage that has seen no path yet.
    pub fn new() -> (d: Debouncer)
        ensures
            forall|p: Seq<char>| spec_find(d.entries@, p) is None,
    {
        Debouncer { entries: Vec::new() }
    }

    /// The last time an event for `path` was accepted, if any.
    pub open spec fn last_accepted(self, path: Seq<char>) -> Option<u64> {
        spec_find(self.entries@, path)
    }

    /// Feed one raw event through the filter and the per-path window.
    /// An accepted create or modify event comes back normalized; everything
    /// else is dropped, and only an accepted event refreshes the path's
    /// last-seen time.
    pub fn observe(
        &mut self,
        kind: RawEventKind,
        path: &String,
        is_dir: bool,
        now_ms: u64,
    ) -> (ev: Option<WatchEvent>)
        ensures
            accepts(*old(self), path@, is_dir, now_ms) ==> {
                &&& final(self).last_accepted(path@) == Option::Some(now_ms)
                &&& forall|q: Seq<char>|
                    q != path@ ==> final(self).last_accepted(q) == old(self).last_accepted(q)
            },
            !accepts(*old(self), path@, is_dir, now_ms) ==> *final(self) == *old(self),
            match ev {
                Option::Some(WatchEvent::FileCreated(p)) => accepts(
                    *old(self),
                    path@,
                    is_dir,
                    now_ms,
                ) && kind == RawEventKind::Create && p@ == path@,
                Option::Some(WatchEvent::FileModified(p)) => accepts(
                    *old(self),
                    path@,
                    is_dir,
                    now_ms,
                ) && kind == RawEventKind::Modify && p@ == path@,
                Option::None => !accepts(*old(self), path@, is_dir, now_ms) || kind
                    == RawEventKind::Other,
            },
    {
        if !is_supported(path.as_str()) {
            return None;
        }
        if is_dir {
            return None;
        }
        let n = self.entries.len();
        let mut i: usize = 0;
        proof {
            assert(self.entries@.skip(0) =~= self.entries@);
        }
        let hit: Option<usize>;
        loop
            invariant
                self.entries@ == old(self).entries@,
                n == self.entries@.len(),
                i <= n,
                forall|k: int| 0 <= k < i ==> (#[trigger] self.entries@[k]).0@ != path@,
                spec_find(self.entries@, path@) == spec_find(self.entries@.skip(i as int), path@),
            ensures
                match hit {
                    Option::Some(j) => {
                        &&& 0 <= j < self.entries@.len()
                        &&& self.entries@[j as int].0@ == path@
                        &&& forall|k: int|
                            0 <= k < j ==> (#[trigger] self.entries@[k]).0@ != path@
                        &&& spec_find(self.entries@, path@) == Option::Some(
                            self.entries@[j as int].1,
                        )
                    },
                    Option::None => spec_find(self.entries@, path@) is None,
                },
            decreases n - i,
        {
            if i == n {
                proof {
                    assert(self.entries@.skip(i as int) =~= Seq::<(String, u64)>::empty());
                }
                hit = None;
                break;
            }
            proof {
                assert(self.entries@.skip(i as int)[0] == self.entries@[i as int]);
                assert(self.entries@.skip(i as int).drop_first() =~= self.entries@.skip(
                    i as int + 1,
                ));
            }
            if crate::text::eq_str(self.entries[i].0.as_str(), path.as_str()) {
                hit = Some(i);
                break;
            }
            i = i + 1;
        }
        match hit {
            Option::Some(j) => {
                let t = self.entries[j].1;
                if now_ms < t || now_ms - t < DEBOUNCE_MS {
                    assert(!window_open(spec_find(self.entries@, path@), now_ms));
                    return None;
                }
                let e = (path.clone(), now_ms);
                let ghost ge = e;
                self.entries[j] = e;
                proof {
                    assert(self.entries@ == old(self).entries@.update(j as int, ge));
                    assert forall|q: Seq<char>| q != path@ implies spec_find(
                        self.entries@,
                        q,
                    ) == spec_find(old(self).entries@, q) by {
                        lemma_find_update(old(self).entries@, j as int, ge, q);
                    }
                    lemma_find_update(old(self).entries@, j as int, ge, path@);
                }
            },
            Option::None => {
                let e = (path.clone(), now_ms);
                let ghost ge = e;
                self.entries.push(e);
                proof {
                    assert(self.entries@ == old(self).entries@.push(ge));
                    assert forall|q: Seq<char>| q != path@ implies spec_find(
                        self.entries@,
                        q,
                    ) == spec_find(old(self).entries@, q) by {
                        lemma_find_push(old(self).entries@, ge, q);
                    }
                    lemma_find_push(old(self).entries@, ge, path@);
                }
            },
        }
        match kind {
            RawEventKind::Create => Some(WatchEvent::FileCreated(path.clone())),
            RawEventKind::Modify => Some(WatchEvent::FileModified(path.clone())),
            RawEventKind::Other => None,
        }
    }
}

/// Law: after an event for a path was accepted at time `t1`, a second
/// supported file event for the same path is dropped while the debounce
/// window is open, and accepted again once the window has elapsed.
pub proof fn lemma_debounce_window(d: Debouncer, p: Seq<char>, t1: u64, t2: u64)
    requires
        d.last_accepted(p) == Option::Some(t1),
    ensures
        t2 - t1 < DEBOUNCE_MS ==> !accepts(d, p, false, t2),
        t2 - t1 >= DEBOUNCE_MS && supported_ext(p) ==> accepts(d, p, false, t2),
{
}

} // verus!
