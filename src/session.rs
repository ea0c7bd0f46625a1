//! The state of one capture session and what closing it does.
use vstd::prelude::*;

verus! {

/// The request succeeded.
pub const PORTAL_RESPONSE_SUCCESS: u32 = 0;

/// The user cancelled the interaction.
pub const PORTAL_RESPONSE_CANCELLED: u32 = 1;

/// The request failed for another reason.
pub const PORTAL_RESPONSE_OTHER: u32 = 2;

/// Cursor-mode bit: the cursor is not part of the stream.
pub const CURSOR_MODE_HIDDEN: u32 = 1;

/// Cursor-mode bit: the cursor is drawn into the frames.
pub const CURSOR_MODE_EMBEDDED: u32 = 2;

/// Cursor-mode bit: the cursor travels as stream metadata.
pub const CURSOR_MODE_METADATA: u32 = 4;

/// Source-type bit: a whole monitor.
pub const SOURCE_TYPE_MONITOR: u32 = 1;

/// Source-type bit: a single window.
pub const SOURCE_TYPE_WINDOW: u32 = 2;

/// Source-type bit: a virtual source.
pub const SOURCE_TYPE_VIRTUAL: u32 = 4;

/// The options of a `select_sources` request, each one optional.
pub struct SelectSourcesOptions {
    /// Bitmask of requested source types; monitor when absent.
    pub types: Option<u32>,
    /// Whether several sources may be picked; false when absent.
    pub multiple: Option<bool>,
    /// How long a permission is remembered; zero when absent.
    pub persist_mode: Option<u32>,
}

/// The source constraints recorded on a session for its later start.
#[derive(PartialEq, Eq, Structural, Clone, Copy, Debug)]
pub struct SourceSelection {
    pub types: u32,
    pub multiple: bool,
    pub persist_mode: u32,
}

impl SourceSelection {
    /// The selection a session holds before any `select_sources` request.
    pub open spec fn initial() -> SourceSelection {
        SourceSelection { types: SOURCE_TYPE_MONITOR, multiple: false, persist_mode: 0 }
    }

    /// The selection that a request with `o` records: each absent option
    /// takes its default.
    pub open spec fn of_options(o: SelectSourcesOptions) -> SourceSelection {
        SourceSelection {
            types: match o.types {
                Some(t) => t,
                None => SOURCE_TYPE_MONITOR,
            },
            multiple: match o.multiple {
                Some(m) => m,
                None => false,
            },
            persist_mode: match o.persist_mode {
                Some(p) => p,
                None => 0,
            },
        }
    }

    pub fn new() -> (r: SourceSelection)
        ensures
            r == SourceSelection::initial(),
    {
        SourceSelection { types: SOURCE_TYPE_MONITOR, multiple: false, persist_mode: 0 }
    }

    pub fn from_options(o: &SelectSourcesOptions) -> (r: SourceSelection)
        ensures
            r == SourceSelection::of_options(*o),
    {
        let types = match o.types {
            Some(t) => t,
            None => SOURCE_TYPE_MONITOR,
        };
        let multiple = match o.multiple {
            Some(m) => m,
            None => false,
        };
        let persist_mode = match o.persist_mode {
            Some(p) => p,
            None => 0,
        };
        SourceSelection { types, multiple, persist_mode }
    }
}

/// One session's mutable state. `H` is the one-shot handle that asks a
/// running stream worker to stop.
pub struct SessionData<H> {
    /// Present exactly while a started stream has not been stopped.
    pub stop_handle: Option<H>,
    /// Set once by closing; never cleared.
    pub closed: bool,
    /// The constraints that the next start uses.
    pub selection: SourceSelection,
}

impl<H> SessionData<H> {
    /// A closed session holds no stop handle.
    pub open spec fn wf(self) -> bool {
        self.closed ==> self.stop_handle is None
    }

    /// The state of a freshly created session.
    pub open spec fn initial() -> SessionData<H> {
        SessionData { stop_handle: None, closed: false, selection: SourceSelection::initial() }
    }

    /// Neither started nor closed: the only phase in which sources may be selected.
    pub open spec fn is_created(self) -> bool {
        !self.closed && self.stop_handle is None
    }

    /// The state after closing: no stop handle, closed, selection kept.
    pub open spec fn after_close(self) -> SessionData<H> {
        SessionData { stop_handle: None, closed: true, selection: self.selection }
    }

    pub fn new() -> (r: SessionData<H>)
        ensures
            r == SessionData::<H>::initial(),
    {
        SessionData { stop_handle: None, closed: false, selection: SourceSelection::new() }
    }

    /// Closes the session. The stop handle, if one was held, is taken out and
    /// returned: the caller signals it, so each handle is signalled at most once.
    pub fn close(&mut self) -> (stop: Option<H>)
        ensures
            stop == old(self).stop_handle,
            *final(self) == old(self).after_close(),
    {
        let stop = self.stop_handle.take();
        self.closed = true;
        stop
    }
}

/// Closing twice leaves the same state as closing once, and the second close
/// finds no stop handle to signal.
pub proof fn lemma_close_idempotent<H>(s: SessionData<H>)
    ensures
        s.after_close().after_close() == s.after_close(),
        s.after_close().stop_handle is None,
        s.after_close().wf(),
{
}

} // verus!
