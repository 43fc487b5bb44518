use vstd::prelude::*;
use crate::cache::Cache;
use crate::codec::Page;
use crate::error::{FsError, contains_seq, message_spec, lemma_message_names_path};

verus! {

/// The status in which the watcher can be, reported around each compilation.
pub enum Status {
    Compiling,
    Success,
    Error,
}

/// The status line of each state.
pub open spec fn status_message_spec(s: Status) -> Seq<char> {
    match s {
        Status::Compiling => "compiling ..."@,
        Status::Success => "compiled successfully"@,
        Status::Error => "compiled with errors"@,
    }
}

impl Status {
    /// The status line to show for this state.
    pub fn message(&self) -> (r: &str)
        ensures
            r@ == status_message_spec(*self),
    {
        match self {
            Status::Compiling => "compiling ...",
            Status::Success => "compiled successfully",
            Status::Error => "compiled with errors",
        }
    }
}

/// One secondary location of a diagnostic's trace.
pub struct TracePoint {
    /// What happened at this point.
    pub message: String,
    /// The source id the point lies in.
    pub source: usize,
    /// The character span of the point.
    pub span_start: usize,
    pub span_end: usize,
}

/// One diagnostic of a failed compilation: its message, the source location
/// it points at where one is known, and an optional trace of secondary
/// locations.
pub struct Diagnostic {
    pub message: String,
    /// The source id of the primary location, if the failure lies in a
    /// loaded source.
    pub source: Option<usize>,
    /// The character span of the primary location.
    pub span_start: usize,
    pub span_end: usize,
    pub trace: Vec<TracePoint>,
}

/// What one compilation cycle yields: the rendered pages, or the structured
/// error report to present instead.
pub enum RunResult {
    Rendered(Vec<Page>),
    Diagnostics(Vec<Diagnostic>),
}

/// Begin one compilation cycle: reset the cache so the cycle sees a fully
/// fresh view of the filesystem, then load the root file. On success the
/// root's source id is returned for the compiler to start from: it is the
/// first id of the fresh generation, the store holds that one source, and
/// exactly one fresh read was consumed. The embedding then runs the external
/// compiler against the cache, renders its pages or collects its diagnostics,
/// and evicts the compiler's memoization store. A root that cannot be read or
/// decoded leaves the fresh generation holding only the memoized failure, and
/// is turned into a diagnostics report whose one entry carries exactly that
/// recorded failure's message, naming the root path — reported, never a
/// crash.
pub fn prepare_compile(cache: &mut Cache, input: &str) -> (r: Result<usize, RunResult>)
    requires
        old(cache).load_count() < u64::MAX,
    ensures
        final (cache).wf(),
        final (cache).load_count() <= old(cache).load_count() + 1,
        r matches Ok(id) ==> id == 0 && final (cache).source_count() == 1 && final (
            cache).load_count() == old(cache).load_count() + 1 && final (cache).source_lookup(
            input@,
        ) == Some(Ok::<usize, FsError>(id)),
        r matches Err(rr) ==> (rr matches RunResult::Diagnostics(ds) && ds@.len() == 1
            && ds@[0].source is None && ds@[0].trace@.len() == 0 && final (cache).source_count()
            == 0 && (final (cache).source_lookup(input@) matches Some(Err(e)) && ds@[0].message@
            == message_spec(e, input@)) && contains_seq(ds@[0].message@, input@)),
    {
        cache.reset();
        match cache.get_or_load_source(input) {
            Ok(id) => Ok(id),
            Err(e) => {
                let msg = e.message(input);
                proof {
                    lemma_message_names_path(e, input@);
                }
                let d = Diagnostic {
                    message: msg,
                    source: None,
                    span_start: 0,
                    span_end: 0,
                    trace: Vec::new(),
                };
                let mut ds: Vec<Diagnostic> = Vec::new();
                ds.push(d);
                Err(RunResult::Diagnostics(ds))
            },
        }
    }

} // verus!
