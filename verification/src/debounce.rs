use vstd::prelude::*;
use crate::cache::Cache;
use crate::ident::FileMeta;
use crate::track::{EventKind, relevant_spec};

verus! {

/// A filesystem notification buffered while a debounce window is open: its
/// kind and the paths it carries.
pub struct PendingEvent {
    pub kind: EventKind,
    pub paths: Vec<String>,
}

/// The change debouncer: it coalesces a burst of filesystem notifications
/// into a single decision. The first event of a burst opens a fixed short
/// window (the embedding owns the clock); every further event arriving before
/// the window elapses is buffered without any other action. When the window
/// elapses, the whole batch is judged at once and at most one recompilation
/// is triggered.
pub struct Debouncer {
    collecting: bool,
    buffer: Vec<PendingEvent>,
}

/// One step of the debouncer on an incoming event: whatever state it was in,
/// it is collecting afterwards, and a window is started exactly when it was
/// idle. The pair is (collecting afterwards, window started).
pub open spec fn note_spec(collecting: bool) -> (bool, bool) {
    (true, !collecting)
}

/// How many windows a burst of `k` back-to-back events opens, starting from
/// the given state: each event steps the debouncer as `note_event` does.
pub open spec fn starts_of_burst(collecting: bool, k: nat) -> nat
    decreases k,
{
    if k == 0 {
        0
    } else {
        (if note_spec(collecting).1 {
            1 as nat
        } else {
            0
        }) + starts_of_burst(note_spec(collecting).0, (k - 1) as nat)
    }
}

/// A burst hitting a debouncer that is already collecting opens no window.
pub proof fn lemma_burst_while_collecting_starts_none(k: nat)
    ensures
        starts_of_burst(true, k) == 0,
    decreases k,
{
    if k > 0 {
        lemma_burst_while_collecting_starts_none((k - 1) as nat);
    }
}

/// A burst of one or more events arriving while the debouncer is idle opens
/// exactly one debounce window, however long the burst is; since one window
/// elapsing makes at most one decision, a burst produces at most one
/// recompilation.
pub proof fn lemma_burst_opens_one_window(k: nat)
    requires
        k >= 1,
    ensures
        starts_of_burst(false, k) == 1,
{
    lemma_burst_while_collecting_starts_none((k - 1) as nat);
}

impl Debouncer {
    /// True while a window is open.
    pub closed spec fn is_collecting(self) -> bool {
        self.collecting
    }

    /// The events buffered in the open window, oldest first.
    pub closed spec fn buffered(self) -> Seq<PendingEvent> {
        self.buffer@
    }

    /// A debouncer that is idle and holds nothing.
    pub fn new() -> (d: Debouncer)
        ensures
            !d.is_collecting(),
            d.buffered().len() == 0,
    {
        Debouncer { collecting: false, buffer: Vec::new() }
    }

    /// The events buffered in the open window, oldest first, for the
    /// embedding to stat their paths before the decision.
    pub fn pending(&self) -> (r: &Vec<PendingEvent>)
        ensures
            r@ == self.buffered(),
    {
        &self.buffer
    }

    /// Take in one filesystem notification. It is buffered for the pending
    /// decision; the result says whether this event opened a new window (so
    /// the caller must start the clock) — true exactly for the first event of
    /// a burst, as `note_spec` states.
    pub fn note_event(&mut self, e: PendingEvent) -> (started: bool)
        ensures
            (final (self).is_collecting(), started) == note_spec(old(self).is_collecting()),
            final (self).buffered() == old(self).buffered().push(e),
    {
        let started = !self.collecting;
        self.collecting = true;
        self.buffer.push(e);
        started
    }

    /// The window elapsed: judge the whole batch with the dependency
    /// tracker, empty the buffer and fall back to idle. The result — whether
    /// a recompilation must be triggered — is true exactly when at least one
    /// buffered event is relevant; `metas` carries the caller's stat outcome
    /// for each path of each buffered event, in the same order.
    pub fn window_elapsed(&mut self, cache: &Cache, metas: &Vec<Vec<Option<FileMeta>>>) -> (trigger:
        bool)
        requires
            metas@.len() == old(self).buffered().len(),
            forall|i: int|
                0 <= i < metas@.len() ==> (#[trigger] metas@[i])@.len() == old(self).buffered()[i].paths@.len(),
        ensures
            trigger == exists|i: int|
                0 <= i < old(self).buffered().len() && #[trigger] relevant_spec(
                    *cache,
                    old(self).buffered()[i].kind,
                    old(self).buffered()[i].paths@,
                    metas@[i]@,
                ),
            !final (self).is_collecting(),
            final (self).buffered().len() == 0,
    {
        let n = self.buffer.len();
        let mut found = false;
        let mut i: usize = 0;
        while i < n
            invariant
                i <= n,
                n == self.buffer@.len(),
                metas@.len() == n,
                forall|k: int|
                    0 <= k < n ==> (#[trigger] metas@[k])@.len() == self.buffer@[k].paths@.len(),
                found == exists|k: int|
                    0 <= k < i && #[trigger] relevant_spec(
                        *cache,
                        self.buffer@[k].kind,
                        self.buffer@[k].paths@,
                        metas@[k]@,
                    ),
            decreases n - i,
        {
            let e = &self.buffer[i];
            if cache.is_relevant(e.kind, &e.paths, &metas[i]) {
                found = true;
            }
            i += 1;
        }
        self.collecting = false;
        self.buffer = Vec::new();
        found
    }
}

} // verus!
