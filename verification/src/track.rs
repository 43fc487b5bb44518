use vstd::prelude::*;
use crate::cache::Cache;
use crate::ident::{FileMeta, ident_of};
use crate::pathnorm::{normalize_path, normalize_spec};

verus! {

/// The kind of a filesystem notification, as the watch subscription reports
/// it: creations, several sorts of modification, removals, pure accesses, and
/// unclassified events.
#[derive(Clone, Copy, Debug, PartialEq, Eq, Structural)]
pub enum EventKind {
    Any,
    Access,
    Create,
    ModifyAny,
    ModifyData,
    ModifyMetadata,
    ModifyName,
    ModifyOther,
    Remove,
    Other,
}

/// Whether a notification of this kind can ever require recompilation:
/// content writes, creations, renames, removals and unclassified
/// modifications can, provided they touch a tracked file; pure reads,
/// metadata-only changes and other incidental notifications never can.
pub open spec fn kind_inspects_paths(kind: EventKind) -> bool {
    match kind {
        EventKind::Any => true,
        EventKind::Create => true,
        EventKind::ModifyAny => true,
        EventKind::ModifyData => true,
        EventKind::ModifyName => true,
        EventKind::Remove => true,
        EventKind::Access => false,
        EventKind::ModifyMetadata => false,
        EventKind::ModifyOther => false,
        EventKind::Other => false,
    }
}

/// A notification is relevant exactly when its kind can require
/// recompilation and at least one path it carries is touched: consulted this
/// cycle under its normalized spelling, or resolving right now (the stat
/// outcome `metas[i]`) to an identity that is already cached.
pub open spec fn relevant_spec(
    c: Cache,
    kind: EventKind,
    paths: Seq<String>,
    metas: Seq<Option<FileMeta>>,
) -> bool {
    kind_inspects_paths(kind) && exists|i: int|
        0 <= i < paths.len() && #[trigger] c.is_touched(paths[i]@, metas[i])
}

impl Cache {
    /// True if the path was consulted during this cycle — under its
    /// normalized spelling, or because the given stat outcome carries an
    /// identity that is already cached.
    pub open spec fn is_touched(self, path: Seq<char>, meta: Option<FileMeta>) -> bool {
        self.hash_of(normalize_spec(path)) is Some || (meta matches Some(m) && self.slot_known(
            ident_of(m.dev, m.ino),
        ))
    }

    /// Decide whether a path matters to the current compilation: its
    /// normalized form appears in the path map, or the stat outcome the
    /// caller obtained for it names an identity already cached. Passing
    /// `None` for `meta` skips the identity check.
    pub fn touched(&self, path: &str, meta: Option<FileMeta>) -> (r: bool)
        ensures
            r == self.is_touched(path@, meta),
    {
        let norm = normalize_path(path);
        if self.lookup_path(norm.as_str()).is_some() {
            return true;
        }
        match meta {
            Some(m) => self.slot_is_known(m.identity()),
            None => false,
        }
    }

    /// Classify a raw filesystem notification: relevant exactly when its
    /// kind can require recompilation and at least one of its paths is
    /// touched. `metas` carries the caller's stat outcome for each path, in
    /// the same order.
    pub fn is_relevant(
        &self,
        kind: EventKind,
        paths: &Vec<String>,
        metas: &Vec<Option<FileMeta>>,
    ) -> (r: bool)
        requires
            paths@.len() == metas@.len(),
        ensures
            r == relevant_spec(*self, kind, paths@, metas@),
    {
        match kind {
            EventKind::Access => {
                return false;
            },
            EventKind::ModifyMetadata => {
                return false;
            },
            EventKind::ModifyOther => {
                return false;
            },
            EventKind::Other => {
                return false;
            },
            _ => {},
        }
        let n = paths.len();
        let mut i: usize = 0;
        while i < n
            invariant
                i <= n,
                n == paths@.len(),
                n == metas@.len(),
                kind_inspects_paths(kind),
                forall|j: int| 0 <= j < i ==> !(#[trigger] self.is_touched(paths@[j]@, metas@[j])),
            decreases n - i,
        {
            if self.touched(paths[i].as_str(), metas[i]) {
                return true;
            }
            i += 1;
        }
        false
    }
}

/// A rename (or any other path-inspecting event) that carries one touched
/// path is relevant, whatever its other paths are: in particular a rename
/// whose old name was loaded this cycle triggers recompilation even though
/// its new name is unknown.
pub proof fn lemma_rename_of_tracked_is_relevant(
    c: Cache,
    paths: Seq<String>,
    metas: Seq<Option<FileMeta>>,
    i: int,
)
    requires
        paths.len() == metas.len(),
        0 <= i < paths.len(),
        c.is_touched(paths[i]@, metas[i]),
    ensures
        relevant_spec(c, EventKind::ModifyName, paths, metas),
{
    assert(0 <= i < paths.len() && c.is_touched(paths[i]@, metas[i]));
}

/// A metadata-only modification is never relevant, however many paths it
/// carries and however they resolve.
pub proof fn lemma_metadata_event_never_relevant(
    c: Cache,
    paths: Seq<String>,
    metas: Seq<Option<FileMeta>>,
)
    ensures
        !relevant_spec(c, EventKind::ModifyMetadata, paths, metas),
{
}

} // verus!
